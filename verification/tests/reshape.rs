use yaxum::area::Area;
use yaxum::reshape::Reshape;

const AREA: Area = Area { x: 100, y: 200, width: 300, height: 400 };

#[test]
fn floating_moves_the_place() {
    assert_eq!(Reshape::FloatRight(7).apply(AREA), Area::new(107, 200, 300, 400));
    assert_eq!(Reshape::FloatLeft(7).apply(AREA), Area::new(93, 200, 300, 400));
    assert_eq!(Reshape::FloatUp(7).apply(AREA), Area::new(100, 193, 300, 400));
    assert_eq!(Reshape::FloatDown(7).apply(AREA), Area::new(100, 207, 300, 400));
}

#[test]
fn resizing_changes_the_size() {
    assert_eq!(Reshape::ResizeRight(7).apply(AREA), Area::new(100, 200, 307, 400));
    assert_eq!(Reshape::ResizeLeft(7).apply(AREA), Area::new(100, 200, 293, 400));
    assert_eq!(Reshape::ResizeUp(7).apply(AREA), Area::new(100, 200, 300, 393));
    assert_eq!(Reshape::ResizeDown(7).apply(AREA), Area::new(100, 200, 300, 407));
}

#[test]
fn lowering_stops_at_zero() {
    assert_eq!(Reshape::FloatLeft(101).apply(AREA), Area::new(0, 200, 300, 400));
    assert_eq!(Reshape::FloatUp(65535).apply(AREA), Area::new(100, 0, 300, 400));
    assert_eq!(Reshape::ResizeLeft(301).apply(AREA), Area::new(100, 200, 0, 400));
    assert_eq!(Reshape::ResizeUp(400).apply(AREA), Area::new(100, 200, 300, 0));
}

#[test]
fn raising_has_to_stay_in_range() {
    assert!(Reshape::FloatRight(65435).applies(AREA));
    assert!(!Reshape::FloatRight(65436).applies(AREA));
    assert!(!Reshape::FloatDown(65336).applies(AREA));
    assert!(!Reshape::ResizeRight(65236).applies(AREA));
    assert!(!Reshape::ResizeDown(65136).applies(AREA));
    assert!(Reshape::FloatLeft(65535).applies(AREA));
    assert!(Reshape::ResizeUp(65535).applies(AREA));
}

#[test]
fn opposite_moves_cancel() {
    let moved = Reshape::FloatRight(50).apply(AREA);
    assert_eq!(Reshape::FloatLeft(50).apply(moved), AREA);
    let grown = Reshape::ResizeDown(50).apply(AREA);
    assert_eq!(Reshape::ResizeUp(50).apply(grown), AREA);
}
