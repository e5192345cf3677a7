//! Rectangles on the screen.

use vstd::prelude::*;

use crate::config::Padding;

verus! {

/// A rectangle, given by its upper left corner and its size in pixels.
#[derive(Debug, Clone, Copy, PartialEq, Eq, Structural)]
pub struct Area {
    pub x: u16,
    pub y: u16,
    pub width: u16,
    pub height: u16,
}

impl Area {
    /// Whether the pixel at column `px` and row `py` belongs to the rectangle.
    pub open spec fn has_pixel(self, px: int, py: int) -> bool {
        &&& self.x <= px < self.x + self.width
        &&& self.y <= py < self.y + self.height
    }

    /// No edge of `self` lies outside `outer`.
    pub open spec fn within(self, outer: Area) -> bool {
        &&& outer.x <= self.x && self.x + self.width <= outer.x + outer.width
        &&& outer.y <= self.y && self.y + self.height <= outer.y + outer.height
    }

    /// A horizontal or vertical strip at least `distance` pixels wide runs
    /// between the two rectangles.
    pub open spec fn apart(self, other: Area, distance: int) -> bool {
        ||| self.x + self.width + distance <= other.x
        ||| other.x + other.width + distance <= self.x
        ||| self.y + self.height + distance <= other.y
        ||| other.y + other.height + distance <= self.y
    }

    /// No pixel belongs to both rectangles.
    pub open spec fn disjoint(self, other: Area) -> bool {
        forall|px: int, py: int| !(#[trigger] self.has_pixel(px, py) && other.has_pixel(px, py))
    }

    /// What `contains` answers: the point is not left of the area, and it lies
    /// before the right and the lower edge. There is no test against the upper
    /// edge, so a point above the area counts as contained.
    pub open spec fn covers(self, x: u16, y: u16) -> bool {
        &&& self.x <= x < self.x + self.width
        &&& y < self.y + self.height
    }

    /// The edges that `contains` computes for a point can be represented. The
    /// right edge is not looked at for a point left of the area, and the lower
    /// one only for a point before the right edge.
    pub open spec fn can_locate(self, x: u16, y: u16) -> bool {
        self.x <= x ==> {
            &&& self.x + self.width <= u16::MAX
            &&& x < self.x + self.width ==> self.y + self.height <= u16::MAX
        }
    }

    /// The padding leaves the corner representable and the size not negative.
    pub open spec fn can_pad(self, padding: Padding) -> bool {
        &&& self.x + padding.left <= u16::MAX
        &&& self.y + padding.top <= u16::MAX
        &&& padding.right + padding.left <= self.width
        &&& padding.bottom + padding.top <= self.height
    }

    /// The area without its padding.
    pub open spec fn padded(self, padding: Padding) -> Area {
        Area {
            x: (self.x + padding.left) as u16,
            y: (self.y + padding.top) as u16,
            width: (self.width - padding.right - padding.left) as u16,
            height: (self.height - padding.bottom - padding.top) as u16,
        }
    }

    /// The corner of the second half can be represented.
    pub open spec fn can_split(self) -> bool {
        if self.width > self.height {
            self.x + self.width / 2 <= u16::MAX
        } else {
            self.y + self.height / 2 <= u16::MAX
        }
    }

    /// The left half of an area that is wider than high, else the upper half.
    pub open spec fn first_half(self) -> Area {
        if self.width > self.height {
            Area { width: self.width / 2, ..self }
        } else {
            Area { height: self.height / 2, ..self }
        }
    }

    /// The half next to `first_half`, of the same size.
    pub open spec fn second_half(self) -> Area {
        if self.width > self.height {
            Area { x: (self.x + self.width / 2) as u16, width: self.width / 2, ..self }
        } else {
            Area { y: (self.y + self.height / 2) as u16, height: self.height / 2, ..self }
        }
    }

    /// A gap on each of the four sides leaves the corner representable and the
    /// size not negative.
    pub open spec fn can_shrink(self, gaps: u16) -> bool {
        &&& self.x + gaps <= u16::MAX
        &&& self.y + gaps <= u16::MAX
        &&& 2 * gaps <= self.width
        &&& 2 * gaps <= self.height
    }

    /// The area without a gap on each of its four sides.
    pub open spec fn shrunk(self, gaps: u16) -> Area {
        Area {
            x: (self.x + gaps) as u16,
            y: (self.y + gaps) as u16,
            width: (self.width - 2 * gaps) as u16,
            height: (self.height - 2 * gaps) as u16,
        }
    }

    /// What is left of the area after `k` splits.
    pub open spec fn rest(self, k: nat) -> Area
        decreases k,
    {
        if k == 0 {
            self
        } else {
            self.rest((k - 1) as nat).second_half()
        }
    }

    /// The place of window `k` when `n` windows share the area: each window but
    /// the last one takes the first half of what the windows before it left, and
    /// the last one takes all that is left.
    pub open spec fn slot(self, n: nat, k: nat) -> Area {
        if k + 1 < n {
            self.rest(k).first_half()
        } else {
            self.rest(k)
        }
    }

    /// `n` windows with gaps around them can share the area.
    pub open spec fn can_share(self, n: nat, gaps: u16) -> bool {
        forall|k: nat| k < n ==> self.can_place(n, k, gaps)
    }

    /// The place of window `k` can be computed, and there is room for its gaps.
    pub open spec fn can_place(self, n: nat, k: nat, gaps: u16) -> bool {
        &&& k + 1 < n ==> self.rest(k).can_split()
        &&& self.slot(n, k).can_shrink(gaps)
    }

    pub fn new(x: u16, y: u16, width: u16, height: u16) -> (area: Area)
        ensures
            area == (Area { x, y, width, height }),
    {
        Area { x, y, width, height }
    }

    /// Whether the point lies in the columns of the area and above its lower
    /// edge.
    pub fn contains(&self, x: u16, y: u16) -> (inside: bool)
        requires
            self.can_locate(x, y),
        ensures
            inside == self.covers(x, y),
    {
        x >= self.x && self.x + self.width > x && self.y + self.height > y
    }

    /// Whether `contains` can be asked about the point.
    pub fn locates(&self, x: u16, y: u16) -> (possible: bool)
        ensures
            possible == self.can_locate(x, y),
    {
        if x < self.x {
            true
        } else if self.width > u16::MAX - self.x {
            false
        } else if x >= self.x + self.width {
            true
        } else {
            self.height <= u16::MAX - self.y
        }
    }

    /// Takes the padding off the four edges.
    pub fn pad(&self, padding: Padding) -> (area: Area)
        requires
            self.can_pad(padding),
        ensures
            area == self.padded(padding),
    {
        Area {
            x: self.x + padding.left,
            y: self.y + padding.top,
            width: self.width - padding.right - padding.left,
            height: self.height - padding.bottom - padding.top,
        }
    }

    /// Whether `pad` can be asked for.
    pub fn pads(&self, padding: Padding) -> (possible: bool)
        ensures
            possible == self.can_pad(padding),
    {
        padding.left <= u16::MAX - self.x && padding.top <= u16::MAX - self.y && padding.right
            <= self.width && padding.left <= self.width - padding.right && padding.bottom
            <= self.height && padding.top <= self.height - padding.bottom
    }

    /// Cuts the longer side in two, returns the first half and keeps the
    /// second one. A side of odd length loses one pixel.
    pub fn split(&mut self) -> (first: Area)
        requires
            old(self).can_split(),
        ensures
            first == old(self).first_half(),
            *final(self) == old(self).second_half(),
    {
        let area = *self;
        if self.width > self.height {
            *self = Area::new(area.x + (area.width / 2), area.y, area.width / 2, area.height);
            Area::new(area.x, area.y, area.width / 2, area.height)
        } else {
            *self = Area::new(area.x, area.y + (area.height / 2), area.width, area.height / 2);
            Area::new(area.x, area.y, area.width, area.height / 2)
        }
    }

    /// Whether `split` can be asked for.
    pub fn splits(&self) -> (possible: bool)
        ensures
            possible == self.can_split(),
    {
        if self.width > self.height {
            self.width / 2 <= u16::MAX - self.x
        } else {
            self.height / 2 <= u16::MAX - self.y
        }
    }

    /// Takes a gap off each of the four sides.
    pub fn shrink(&self, gaps: u16) -> (area: Area)
        requires
            self.can_shrink(gaps),
        ensures
            area == self.shrunk(gaps),
    {
        Area::new(
            self.x + gaps,
            self.y + gaps,
            self.width - (gaps * 2),
            self.height - (gaps * 2),
        )
    }

    /// Whether `shrink` can be asked for.
    pub fn shrinks(&self, gaps: u16) -> (possible: bool)
        ensures
            possible == self.can_shrink(gaps),
    {
        gaps <= u16::MAX - self.x && gaps <= u16::MAX - self.y && gaps <= self.width / 2 && gaps
            <= self.height / 2
    }

    /// Whether `n` windows with gaps around them can share the area.
    pub fn shares(&self, n: usize, gaps: u16) -> (possible: bool)
        ensures
            possible == self.can_share(n as nat, gaps),
    {
        let mut area = *self;
        let mut k: usize = 0;
        while k < n
            invariant
                k <= n,
                k < n ==> area == self.rest(k as nat),
                forall|j: nat| j < k ==> self.can_place(n as nat, j, gaps),
            decreases n - k,
        {
            let mut fits = true;
            let mut place = area;
            if k + 1 < n {
                if area.splits() {
                    place = area.split();
                } else {
                    fits = false;
                }
            }
            if !fits || !place.shrinks(gaps) {
                assert(!self.can_place(n as nat, k as nat, gaps));
                return false;
            }
            k = k + 1;
        }
        true
    }
}

/// `contains` holds for every pixel of the area; conversely a point for which
/// it holds is a pixel of the area unless it lies above the upper edge.
pub proof fn contains_is_membership_below_the_upper_edge(area: Area, x: u16, y: u16)
    ensures
        area.has_pixel(x as int, y as int) ==> area.covers(x, y),
        area.covers(x, y) && y >= area.y ==> area.has_pixel(x as int, y as int),
        area.covers(x, y) && y < area.y ==> !area.has_pixel(x as int, y as int),
{
}

/// An area within another one has only pixels of that one, and areas with a
/// strip between them have no pixel in common.
pub proof fn pixels_follow_edges(inner: Area, outer: Area, distance: int)
    ensures
        inner.within(outer) ==> forall|px: int, py: int| #[trigger]
            inner.has_pixel(px, py) ==> outer.has_pixel(px, py),
        distance >= 0 && inner.apart(outer, distance) ==> inner.disjoint(outer),
{
}

/// Padding never reaches outside the area, and padding by nothing changes
/// nothing.
pub proof fn padding_stays_within(area: Area, padding: Padding)
    requires
        area.can_pad(padding),
    ensures
        area.padded(padding).within(area),
        padding.top == 0 && padding.bottom == 0 && padding.left == 0 && padding.right == 0
            ==> area.padded(padding) == area,
{
}

/// The two halves of a split are of one size, do not overlap, lie within the
/// area, and together leave out at most one column or row of it.
pub proof fn split_halves_partition(area: Area)
    requires
        area.can_split(),
    ensures
        area.first_half().width == area.second_half().width,
        area.first_half().height == area.second_half().height,
        area.first_half().disjoint(area.second_half()),
        area.first_half().apart(area.second_half(), 0),
        area.first_half().within(area),
        area.second_half().within(area),
        forall|px: int, py: int|
            #![trigger area.has_pixel(px, py)]
            area.has_pixel(px, py) ==> {
                ||| area.first_half().has_pixel(px, py)
                ||| area.second_half().has_pixel(px, py)
                ||| area.width > area.height && area.width % 2 == 1 && px == area.x + area.width - 1
                ||| area.width <= area.height && area.height % 2 == 1 && py == area.y + area.height
                    - 1
            },
{
}

/// What is left after more splits lies within what was left after fewer.
proof fn rest_shrinks(area: Area, i: nat, j: nat)
    requires
        i <= j,
        forall|k: nat| k < j ==> (#[trigger] area.rest(k)).can_split(),
    ensures
        area.rest(j).within(area.rest(i)),
    decreases j,
{
    if i < j {
        rest_shrinks(area, i, (j - 1) as nat);
        assert(area.rest((j - 1) as nat).can_split());
        split_halves_partition(area.rest((j - 1) as nat));
    }
}

/// Windows that share an area do not overlap, and the gaps keep them at least
/// two gaps apart.
pub proof fn shared_windows_do_not_overlap(area: Area, n: nat, i: nat, j: nat, gaps: u16)
    requires
        area.can_share(n, gaps),
        i < j < n,
    ensures
        area.slot(n, i).disjoint(area.slot(n, j)),
        area.slot(n, i).shrunk(gaps).disjoint(area.slot(n, j).shrunk(gaps)),
        area.slot(n, i).shrunk(gaps).apart(area.slot(n, j).shrunk(gaps), 2 * gaps),
{
    assert forall|k: nat| k + 1 < n implies (#[trigger] area.rest(k)).can_split() by {
        assert(area.can_place(n, k, gaps));
    }
    assert(area.can_place(n, i, gaps));
    assert(area.can_place(n, j, gaps));
    split_halves_partition(area.rest(i));
    assert(area.rest((i + 1) as nat) == area.rest(i).second_half());
    rest_shrinks(area, i + 1, j);
    if j + 1 < n {
        split_halves_partition(area.rest(j));
    }
}

/// Every window that shares an area lies within it.
pub proof fn shared_windows_stay_within(area: Area, n: nat, k: nat, gaps: u16)
    requires
        area.can_share(n, gaps),
        k < n,
    ensures
        area.slot(n, k).within(area),
        area.slot(n, k).shrunk(gaps).within(area),
{
    assert forall|i: nat| i + 1 < n implies (#[trigger] area.rest(i)).can_split() by {
        assert(area.can_place(n, i, gaps));
    }
    assert(area.can_place(n, k, gaps));
    assert(area.rest(0) == area);
    rest_shrinks(area, 0, k);
    if k + 1 < n {
        split_halves_partition(area.rest(k));
    }
}

/// Where some number of windows can share an area, any smaller number can.
pub proof fn fewer_windows_fit(area: Area, m: nat, n: nat, gaps: u16)
    requires
        m <= n,
        area.can_share(n, gaps),
    ensures
        area.can_share(m, gaps),
{
    assert forall|k: nat| k < m implies area.can_place(m, k, gaps) by {
        assert(area.can_place(n, k, gaps));
    }
}

/// Splits never lead beyond the coordinates.
proof fn rest_keeps_its_edges(area: Area, k: nat)
    requires
        area.x + area.width <= u16::MAX,
        area.y + area.height <= u16::MAX,
    ensures
        area.rest(k).x + area.rest(k).width <= u16::MAX,
        area.rest(k).y + area.rest(k).height <= u16::MAX,
    decreases k,
{
    if k > 0 {
        rest_keeps_its_edges(area, (k - 1) as nat);
    }
}

/// Without gaps, any number of windows can share an area whose edges are
/// coordinates.
pub proof fn any_number_fits_without_gaps(area: Area, n: nat)
    requires
        area.x + area.width <= u16::MAX,
        area.y + area.height <= u16::MAX,
    ensures
        area.can_share(n, 0),
{
    assert forall|k: nat| k < n implies area.can_place(n, k, 0) by {
        rest_keeps_its_edges(area, k);
    }
}

/// A lone window takes the whole area.
pub proof fn lone_window_takes_all(area: Area)
    ensures
        area.slot(1, 0) == area,
{
}

/// A point counts as contained exactly if it is not left of the area, not right of
/// it and not below it; and this can be told exactly if the edges that have to be
/// looked at are coordinates.
pub proof fn containment_by_edges(area: Area, x: u16, y: u16)
    ensures
        area.covers(x, y) <==> (x >= area.x && x - area.x < area.width && y < area.y + area.height),
        area.can_locate(x, y) <==> (x < area.x || (area.x + area.width < 0x10000 && (x - area.x
            >= area.width || area.y + area.height < 0x10000))),
{
}

/// Padding moves each edge inwards by exactly its amount, and is possible exactly if
/// the edges do not pass each other and the corner stays a coordinate.
pub proof fn padding_moves_the_edges(area: Area, padding: Padding)
    ensures
        area.can_pad(padding) <==> (padding.left + padding.right <= area.width && padding.top
            + padding.bottom <= area.height && area.x + padding.left < 0x10000 && area.y
            + padding.top < 0x10000),
        area.can_pad(padding) ==> {
            let inner = area.padded(padding);
            &&& inner.x - area.x == padding.left
            &&& inner.y - area.y == padding.top
            &&& (area.x + area.width) - (inner.x + inner.width) == padding.right
            &&& (area.y + area.height) - (inner.y + inner.height) == padding.bottom
        },
{
}

/// Gaps move each edge inwards by the same amount, and are possible exactly if the
/// edges do not pass each other and the corner stays a coordinate.
pub proof fn gaps_move_the_edges(area: Area, gaps: u16)
    ensures
        area.can_shrink(gaps) <==> (gaps + gaps <= area.width && gaps + gaps <= area.height
            && area.x + gaps < 0x10000 && area.y + gaps < 0x10000),
        area.can_shrink(gaps) ==> {
            let inner = area.shrunk(gaps);
            &&& inner.x - area.x == gaps
            &&& inner.y - area.y == gaps
            &&& (area.x + area.width) - (inner.x + inner.width) == gaps
            &&& (area.y + area.height) - (inner.y + inner.height) == gaps
        },
{
}

/// An area that is wider than high is cut into a left and a right half, any other
/// one into an upper and a lower half. The first half keeps the corner, the second
/// one begins where the first one ends, and nothing else changes.
pub proof fn cut_goes_across_the_longer_side(area: Area)
    ensures
        area.width > area.height ==> {
            &&& area.can_split() <==> area.x + area.width / 2 < 0x10000
            &&& area.first_half() == (Area {
                x: area.x,
                y: area.y,
                width: area.width / 2,
                height: area.height,
            })
            &&& area.can_split() ==> {
                let second = area.second_half();
                &&& second.x == area.first_half().x + area.first_half().width
                &&& second.y == area.y
                &&& second.width == area.width / 2
                &&& second.height == area.height
            }
        },
        area.width <= area.height ==> {
            &&& area.can_split() <==> area.y + area.height / 2 < 0x10000
            &&& area.first_half() == (Area {
                x: area.x,
                y: area.y,
                width: area.width,
                height: area.height / 2,
            })
            &&& area.can_split() ==> {
                let second = area.second_half();
                &&& second.x == area.x
                &&& second.y == area.first_half().y + area.first_half().height
                &&& second.width == area.width
                &&& second.height == area.height / 2
            }
        },
{
}

/// Splitting first and then `k` times more is splitting `k + 1` times.
proof fn rest_of_the_second_half(area: Area, k: nat)
    ensures
        area.rest(k + 1) == area.second_half().rest(k),
    decreases k,
{
    reveal_with_fuel(Area::rest, 2);
    if k > 0 {
        rest_of_the_second_half(area, (k - 1) as nat);
    }
}

/// A single window has the whole area. Of more windows, the first one has the first
/// half, and the others share the second half as if it were the whole area.
pub proof fn windows_share_half_by_half(area: Area, n: nat, k: nat)
    requires
        k < n,
    ensures
        area.slot(1, 0) == area,
        area.slot(n + 1, 0) == area.first_half(),
        area.slot(n + 1, k + 1) == area.second_half().slot(n, k),
{
    rest_of_the_second_half(area, k);
}

/// No window always fits; a single one fits if its gaps do. More windows fit exactly
/// if the area can be cut, the first one fits into the first half, and the others
/// fit into the second half.
pub proof fn room_is_shared_half_by_half(area: Area, n: nat, gaps: u16)
    requires
        n >= 1,
    ensures
        area.can_share(0, gaps),
        area.can_share(1, gaps) <==> area.can_shrink(gaps),
        area.can_share(n + 1, gaps) <==> (area.can_split() && area.first_half().can_shrink(gaps)
            && area.second_half().can_share(n, gaps)),
{
    let second = area.second_half();
    let more: nat = n + 1;
    assert(area.rest(0) == area);
    assert(area.can_place(1, 0, gaps) == area.can_shrink(gaps));
    assert(area.can_place(more, 0, gaps) == (area.can_split() && area.first_half().can_shrink(gaps)));
    if area.can_share(more, gaps) {
        assert forall|k: nat| k < n implies second.can_place(n, k, gaps) by {
            rest_of_the_second_half(area, k);
            let next: nat = k + 1;
            assert(area.can_place(more, next, gaps));
        }
    }
    if area.can_split() && area.first_half().can_shrink(gaps) && second.can_share(n, gaps) {
        assert forall|k: nat| k < more implies area.can_place(more, k, gaps) by {
            if k > 0 {
                let before = (k - 1) as nat;
                rest_of_the_second_half(area, before);
                assert(second.can_place(n, before, gaps));
            }
        }
    }
}

/// The pixel is in the column or row that a cut of the area leaves out.
pub open spec fn lost_by_cut(area: Area, px: int, py: int) -> bool {
    &&& area.has_pixel(px, py)
    &&& if area.width > area.height {
        area.width % 2 == 1 && px == area.x + area.width - 1
    } else {
        area.height % 2 == 1 && py == area.y + area.height - 1
    }
}

/// The windows that share an area fill it: every pixel belongs to one of them,
/// except for those in a column or row that the cut of an odd side leaves out.
pub proof fn windows_fill_the_area(area: Area, n: nat, px: int, py: int)
    requires
        n >= 1,
        area.has_pixel(px, py),
        forall|k: nat| k + 1 < n ==> (#[trigger] area.rest(k)).can_split(),
    ensures
        (exists|k: nat| k < n && (#[trigger] area.slot(n, k)).has_pixel(px, py)) || (exists|k: nat|
            k + 1 < n && #[trigger] lost_by_cut(area.rest(k), px, py)),
    decreases n,
{
    assert(area.rest(0) == area);
    if n == 1 {
        assert(area.slot(n, 0).has_pixel(px, py));
    } else {
        split_halves_partition(area);
        if area.first_half().has_pixel(px, py) {
            assert(area.slot(n, 0).has_pixel(px, py));
        } else if area.second_half().has_pixel(px, py) {
            let second = area.second_half();
            let m = (n - 1) as nat;
            assert forall|k: nat| k + 1 < m implies (#[trigger] second.rest(k)).can_split() by {
                rest_of_the_second_half(area, k);
                assert(area.rest(k + 1).can_split());
            }
            windows_fill_the_area(second, m, px, py);
            if exists|k: nat| k < m && (#[trigger] second.slot(m, k)).has_pixel(px, py) {
                let k = choose|k: nat| k < m && (#[trigger] second.slot(m, k)).has_pixel(px, py);
                windows_share_half_by_half(area, m, k);
                assert(area.slot(n, k + 1).has_pixel(px, py));
            } else {
                let k = choose|k: nat| k + 1 < m && #[trigger] lost_by_cut(second.rest(k), px, py);
                rest_of_the_second_half(area, k);
                assert(lost_by_cut(area.rest(k + 1), px, py));
            }
        } else {
            assert(lost_by_cut(area.rest(0), px, py));
        }
    }
}

/// The last window takes all that the others left, whatever its place in the line.
pub proof fn last_window_takes_the_rest(area: Area, n: nat)
    requires
        n >= 1,
    ensures
        area.slot(n, (n - 1) as nat) == area.rest((n - 1) as nat),
        n >= 2 ==> area.slot(n, (n - 1) as nat) == area.rest((n - 2) as nat).second_half(),
{
}

} // verus!
