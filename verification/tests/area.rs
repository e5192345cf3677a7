use yaxum::area::Area;
use yaxum::config::Padding;

#[test]
fn contains_goes_by_three_edges() {
    let area = Area::new(10, 20, 100, 50);
    assert!(area.contains(10, 20));
    assert!(area.contains(109, 69));
    assert!(!area.contains(110, 20));
    assert!(!area.contains(10, 70));
    assert!(!area.contains(9, 30));
    assert!(area.contains(10, 0));
}

#[test]
fn empty_area_contains_nothing() {
    let area = Area::new(10, 20, 0, 50);
    assert!(!area.contains(10, 20));
    assert!(!area.contains(9, 20));
}

#[test]
fn locates_where_the_edges_are_coordinates() {
    let wide = Area::new(65000, 0, 600, 10);
    assert!(wide.locates(64999, 0));
    assert!(!wide.locates(65000, 0));
    let tall = Area::new(0, 65000, 10, 600);
    assert!(tall.locates(10, 0));
    assert!(!tall.locates(9, 0));
    assert!(Area::new(65000, 65000, 535, 535).locates(65534, 65534));
    assert!(Area::new(65000, 65000, 535, 535).contains(65534, 65534));
}

#[test]
fn padding_cuts_all_four_edges() {
    let padding = Padding { top: 10, bottom: 20, left: 30, right: 40 };
    assert_eq!(Area::new(0, 0, 1000, 800).pad(padding), Area::new(30, 10, 930, 770));
    assert_eq!(Area::new(1920, 5, 70, 30).pad(padding), Area::new(1950, 15, 0, 0));
}

#[test]
fn padding_has_to_fit() {
    let padding = Padding { top: 10, bottom: 20, left: 30, right: 40 };
    assert!(Area::new(0, 0, 70, 30).pads(padding));
    assert!(!Area::new(0, 0, 69, 30).pads(padding));
    assert!(!Area::new(0, 0, 70, 29).pads(padding));
    assert!(!Area::new(65510, 0, 70, 30).pads(padding));
    assert!(!Area::new(0, 65530, 70, 30).pads(padding));
}

#[test]
fn wide_area_splits_side_by_side() {
    let mut area = Area::new(3, 7, 1001, 800);
    assert!(area.splits());
    assert_eq!(area.split(), Area::new(3, 7, 500, 800));
    assert_eq!(area, Area::new(503, 7, 500, 800));
}

#[test]
fn square_and_tall_areas_split_top_and_bottom() {
    let mut square = Area::new(0, 0, 800, 800);
    assert_eq!(square.split(), Area::new(0, 0, 800, 400));
    assert_eq!(square, Area::new(0, 400, 800, 400));
    let mut tall = Area::new(0, 1, 5, 9);
    assert_eq!(tall.split(), Area::new(0, 1, 5, 4));
    assert_eq!(tall, Area::new(0, 5, 5, 4));
}

#[test]
fn split_needs_room_for_coordinates() {
    assert!(!Area::new(65535, 0, 4, 2).splits());
    assert!(!Area::new(0, 65535, 2, 4).splits());
    assert!(Area::new(65533, 0, 4, 2).splits());
}

#[test]
fn gaps_shrink_every_side() {
    let area = Area::new(10, 20, 100, 50);
    assert!(area.shrinks(25));
    assert_eq!(area.shrink(5), Area::new(15, 25, 90, 40));
    assert_eq!(area.shrink(25), Area::new(35, 45, 50, 0));
    assert!(!area.shrinks(26));
    assert!(!Area::new(65535, 0, 10, 10).shrinks(1));
    assert!(!Area::new(0, 0, 65535, 65535).shrinks(32768));
}

#[test]
fn sharing_needs_room_for_every_window() {
    let area = Area::new(0, 0, 100, 50);
    assert!(area.shares(0, 60));
    assert!(area.shares(1, 25));
    assert!(!area.shares(1, 26));
    assert!(area.shares(2, 25));
    assert!(!area.shares(3, 25));
    assert!(area.shares(3, 12));
    assert!(!area.shares(3, 13));
}

#[test]
fn fewer_windows_fit_where_more_do() {
    let area = Area::new(0, 0, 640, 480);
    assert!(area.shares(5, 50));
    for n in 0..5 {
        assert!(area.shares(n, 50));
    }
    assert!(!area.shares(6, 50));
}

#[test]
fn without_gaps_any_number_fits() {
    let area = Area::new(65000, 64000, 535, 1535);
    for n in [0, 1, 2, 10, 40, 100] {
        assert!(area.shares(n, 0));
    }
}
