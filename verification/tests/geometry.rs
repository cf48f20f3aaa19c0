use touch_shell::geometry::{Area, Local, Point, PIXEL};
use touch_shell::view::View;

#[test]
fn area_is_closed_at_origin_and_open_at_far_edge() {
    let area = Area::new(10, 20, 30, 40);
    assert!(area.contains_point(Point { x: 10, y: 20 }));
    assert!(area.contains_point(Point { x: 39, y: 59 }));
    assert!(!area.contains_point(Point { x: 40, y: 20 }));
    assert!(!area.contains_point(Point { x: 10, y: 60 }));
    assert!(!area.contains_point(Point { x: 9, y: 20 }));
    assert!(!area.contains_point(Point { x: 10, y: 19 }));
}

#[test]
fn empty_area_holds_nothing() {
    assert!(!Area::new(0, 0, 0, 10).contains_point(Point { x: 0, y: 0 }));
    assert!(!Area::new(0, 0, 10, 0).contains_point(Point { x: 0, y: 0 }));
    assert!(!Area::new(0, 0, -5, 10).contains_point(Point { x: -1, y: 0 }));
}

#[test]
fn area_at_the_edge_of_the_number_range() {
    let area = Area::new(i32::MAX - 1, i32::MAX - 1, i32::MAX, i32::MAX);
    assert!(area.contains_point(Point { x: i32::MAX, y: i32::MAX }));
    assert!(!area.contains_point(Point { x: i32::MAX - 2, y: i32::MAX }));
    let low = Area::new(i32::MIN, i32::MIN, 1, 1);
    assert!(low.contains_point(Point { x: i32::MIN, y: i32::MIN }));
}

#[test]
fn map_point_subtracts_origin() {
    let area = Area::new(100, -50, 10, 10);
    assert_eq!(area.map_point(Point { x: 130, y: 20 }), Local { x: 30, y: 70 });
    assert_eq!(area.map_point(Point { x: 0, y: 0 }), Local { x: -100, y: 50 });
}

#[test]
fn map_point_needs_more_than_32_bits() {
    let area = Area::new(i32::MIN, i32::MAX, 1, 1);
    assert_eq!(
        area.map_point(Point { x: i32::MAX, y: i32::MIN }),
        Local { x: 4294967295, y: -4294967295 }
    );
}

#[test]
fn one_pixel_is_256_units() {
    assert_eq!(PIXEL, 256);
}

#[test]
fn view_hit_test_and_mapping() {
    let view = View::new(5, Area::new(256, 512, 1024, 1024));
    assert!(view.contains_point(Point { x: 256, y: 512 }));
    assert!(!view.contains_point(Point { x: 255, y: 512 }));
    assert_eq!(view.map_location(Point { x: 300, y: 600 }), Some(Local { x: 44, y: 88 }));
    assert_eq!(view.with_surface(), Some(5));
}

#[test]
fn stale_view_tolerates_every_question() {
    let mut view = View::new(5, Area::new(0, 0, 100, 100));
    view.set_geometry(None);
    assert!(!view.contains_point(Point { x: 1, y: 1 }));
    assert_eq!(view.map_location(Point { x: 1, y: 1 }), None);
    assert_eq!(view.with_surface(), None);
    assert_eq!(view.shell, 5);
    view.set_geometry(Some(Area::new(0, 0, 2, 2)));
    assert!(view.contains_point(Point { x: 1, y: 1 }));
}
