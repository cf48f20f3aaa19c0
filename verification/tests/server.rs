use touch_shell::event::{Event, EventError, RawEvent};
use touch_shell::geometry::{Area, Local, Point};
use touch_shell::home_bar::{HomeBar, SpringStep, StripAction};
use touch_shell::server::{Capabilities, Delivery, Server};
use touch_shell::space::{Notify, Routed};
use touch_shell::view::View;

fn view(surface: u64, x: i32) -> View {
    View::new(surface, Area::new(x, 0, 100, 100))
}

fn touch_down(id: i32, x: i32, y: i32) -> RawEvent {
    RawEvent::TouchDown { id, location: Point { x, y } }
}

#[test]
fn new_server_has_nothing() {
    let server = Server::new();
    assert!(server.space_order().is_empty());
    assert!(server.space(0).is_none());
    assert_eq!(
        server.capabilities(),
        Capabilities { keyboard: false, pointer: false, touch: false }
    );
    assert!(!server.pointer_grabbed());
    assert!(!server.touch_grabbed());
}

#[test]
fn same_app_id_same_space() {
    let mut server = Server::new();
    server.add_view(String::from("term"), view(1, 0));
    server.add_view(String::from("term"), view(2, 200));
    assert_eq!(server.space_order(), &[0]);
    let space = server.space(0).unwrap();
    assert_eq!(space.view_count(), 2);
    assert_eq!(space.view_at(0), Some(view(1, 0)));
    assert_eq!(space.view_at(1), Some(view(2, 200)));
    assert!(server.space(1).is_none());
}

#[test]
fn distinct_app_ids_make_spaces_in_creation_order() {
    let mut server = Server::new();
    server.add_view(String::from("term"), view(1, 0));
    server.add_view(String::from("browser"), view(2, 0));
    assert_eq!(server.space_order(), &[0, 1]);
    assert_eq!(server.space(0).unwrap().view_at(0), Some(view(1, 0)));
    assert_eq!(server.space(1).unwrap().view_at(0), Some(view(2, 0)));
    assert_eq!(server.space(0).unwrap().view_count(), 1);
    assert_eq!(server.space(1).unwrap().view_count(), 1);
}

#[test]
fn first_seen_mapping_wins() {
    let mut server = Server::new();
    server.add_view(String::from("a"), view(1, 0));
    server.add_view(String::from("b"), view(2, 0));
    server.add_view(String::from("a"), view(3, 200));
    server.add_view(String::from(""), view(4, 0));
    assert_eq!(server.space_order(), &[0, 1, 2]);
    assert_eq!(server.space(0).unwrap().view_count(), 2);
    assert_eq!(server.space(0).unwrap().view_at(1), Some(view(3, 200)));
    assert_eq!(server.space(1).unwrap().view_count(), 1);
    assert_eq!(server.space(2).unwrap().view_at(0), Some(view(4, 0)));
}

#[test]
fn remove_takes_only_the_matching_view() {
    let mut server = Server::new();
    server.add_view(String::from("a"), view(1, 0));
    server.add_view(String::from("b"), view(2, 0));
    server.add_view(String::from("a"), view(3, 200));
    assert!(server.remove_view_for_surface(1));
    assert_eq!(server.space_order(), &[0, 1]);
    assert_eq!(server.space(0).unwrap().view_count(), 1);
    assert_eq!(server.space(0).unwrap().view_at(0), Some(view(3, 200)));
    assert_eq!(server.space(1).unwrap().view_count(), 1);
    assert_eq!(server.space(1).unwrap().view_at(0), Some(view(2, 0)));
}

#[test]
fn removing_the_last_view_keeps_the_space() {
    let mut server = Server::new();
    server.add_view(String::from("a"), view(1, 0));
    server.add_view(String::from("b"), view(2, 0));
    assert!(server.remove_view_for_surface(2));
    assert_eq!(server.space_order(), &[0, 1]);
    assert_eq!(server.space(1).unwrap().view_count(), 0);
    // The application still has its space.
    server.add_view(String::from("b"), view(5, 0));
    assert_eq!(server.space_order(), &[0, 1]);
    assert_eq!(server.space(1).unwrap().view_at(0), Some(view(5, 0)));
}

#[test]
fn removing_an_unknown_surface_changes_nothing() {
    let mut server = Server::new();
    assert!(!server.remove_view_for_surface(1));
    server.add_view(String::from("a"), view(1, 0));
    assert!(!server.remove_view_for_surface(9));
    assert_eq!(server.space_order(), &[0]);
    assert_eq!(server.space(0).unwrap().view_count(), 1);
}

#[test]
fn removal_stops_at_the_first_space_that_holds_the_surface() {
    let mut server = Server::new();
    server.add_view(String::from("a"), view(1, 0));
    server.add_view(String::from("b"), view(1, 0));
    assert!(server.remove_view_for_surface(1));
    assert_eq!(server.space(0).unwrap().view_count(), 0);
    assert_eq!(server.space(1).unwrap().view_count(), 1);
    assert!(server.remove_view_for_surface(1));
    assert_eq!(server.space(1).unwrap().view_count(), 0);
    assert!(!server.remove_view_for_surface(1));
}

#[test]
fn events_before_any_space_are_ignored() {
    let mut server = Server::new();
    assert_eq!(server.handle_event(touch_down(1, 5, 5)), Ok(Delivery::NoSpace));
    assert_eq!(
        server.handle_event(RawEvent::Key { code: 1, state: 1 }),
        Ok(Delivery::NoSpace)
    );
}

#[test]
fn unmappable_reports_fail_and_change_nothing() {
    let mut server = Server::new();
    server.add_view(String::from("a"), view(1, 0));
    assert_eq!(
        server.handle_event(RawEvent::Key { code: 1, state: 5 }),
        Err(EventError::UnknownState { state: 5 })
    );
    assert_eq!(
        server.handle_event(RawEvent::PointerMotion { dx: 1, dy: 1 }),
        Err(EventError::NoMapping)
    );
    assert_eq!(
        server.handle_event(RawEvent::PointerAxis { source: 8, orientation: 0, delta: 1 }),
        Err(EventError::UnknownAxisSource { source: 8 })
    );
    assert_eq!(
        server.handle_event(RawEvent::PointerAxis { source: 0, orientation: 8, delta: 1 }),
        Err(EventError::UnknownAxisOrientation { orientation: 8 })
    );
    // Even before any space, the error comes first.
    assert_eq!(
        Server::new().handle_event(RawEvent::Key { code: 1, state: 5 }),
        Err(EventError::UnknownState { state: 5 })
    );
    assert_eq!(server.space(0).unwrap().pointer_target(), None);
}

#[test]
fn three_views_two_apps_top_only_routing() {
    let mut server = Server::new();
    server.add_view(String::from("a"), view(1, 0));
    server.add_view(String::from("a"), view(2, 0));
    server.add_view(String::from("b"), View::new(3, Area::new(500, 500, 100, 100)));
    assert_eq!(server.space_order(), &[0, 1]);

    let delivery = server.handle_event(touch_down(1, 550, 560));
    assert_eq!(
        delivery,
        Ok(Delivery::ToSpace {
            id: 1,
            routed: Routed::View {
                index: 0,
                surface: 3,
                enter: Some(Local { x: 50, y: 60 }),
                notify: Notify::TouchDown { id: 1, at: Local { x: 50, y: 60 } },
            },
        })
    );
    assert_eq!(server.space(1).unwrap().pointer_target(), Some(0));
    assert_eq!(server.space(0).unwrap().pointer_target(), None);
    assert_eq!(server.space(0).unwrap().view_count(), 2);
}

#[test]
fn spaces_below_the_top_see_nothing() {
    let mut server = Server::new();
    server.add_view(String::from("a"), view(1, 0));
    server.add_view(String::from("b"), View::new(3, Area::new(500, 500, 100, 100)));
    // The place is inside the view of space 0 and outside the view of space 1.
    assert_eq!(
        server.handle_event(touch_down(1, 50, 50)),
        Ok(Delivery::ToSpace { id: 1, routed: Routed::Dropped { leave: false, stale: false } })
    );
    assert_eq!(server.space(0).unwrap().pointer_target(), None);
    assert_eq!(server.space(1).unwrap().pointer_target(), None);
}

#[test]
fn grab_flags_reach_the_space() {
    let mut server = Server::new();
    server.add_view(String::from("a"), view(1, 0));
    server.add_view(String::from("a"), view(2, 200));
    server.handle_event(touch_down(1, 50, 50)).unwrap();
    server.set_touch_grabbed(true);
    assert!(server.touch_grabbed());
    assert_eq!(
        server.handle_event(RawEvent::TouchMotion { id: 1, location: Point { x: 250, y: 50 } }),
        Ok(Delivery::ToSpace {
            id: 0,
            routed: Routed::View {
                index: 0,
                surface: 1,
                enter: None,
                notify: Notify::TouchMotion { id: 1, at: Local { x: 250, y: 50 } },
            },
        })
    );
    server.set_touch_grabbed(false);
    server.set_pointer_grabbed(true);
    assert!(server.pointer_grabbed());
    assert!(matches!(
        server.handle_event(RawEvent::TouchMotion { id: 1, location: Point { x: 250, y: 50 } }),
        Ok(Delivery::ToSpace { id: 0, routed: Routed::View { index: 0, enter: None, .. } })
    ));
    server.set_pointer_grabbed(false);
    assert!(matches!(
        server.handle_event(RawEvent::TouchMotion { id: 1, location: Point { x: 250, y: 50 } }),
        Ok(Delivery::ToSpace { id: 0, routed: Routed::View { index: 1, enter: Some(_), .. } })
    ));
}

#[test]
fn space_mut_changes_the_space_in_place() {
    let mut server = Server::new();
    server.add_view(String::from("a"), view(1, 0));
    server.add_view(String::from("b"), view(2, 0));
    assert!(server.space_mut(2).is_none());
    let frame = server.space_mut(0).unwrap().render(1000, 10000);
    assert_eq!(frame.surfaces, vec![1]);
    assert_eq!(frame.strip, SpringStep::Advance);
    assert_eq!(server.space(0).unwrap().home_bar(), Some(HomeBar::new(1000, 10000)));
    assert_eq!(server.space(1).unwrap().home_bar(), None);
    assert_eq!(server.space_order(), &[0, 1]);
}

#[test]
fn strip_of_the_top_space_captures_through_the_manager() {
    let mut server = Server::new();
    server.add_view(String::from("a"), View::new(1, Area::new(0, 0, 1000, 10000)));
    server.space_mut(0).unwrap().render(1000, 10000);
    assert_eq!(
        server.handle_event(touch_down(3, 500, 9999)),
        Ok(Delivery::ToSpace {
            id: 0,
            routed: Routed::Strip { action: StripAction::Grab { y: 9999 } },
        })
    );
    assert_eq!(
        server.handle_event(RawEvent::TouchCancel { id: 3 }),
        Ok(Delivery::ToSpace { id: 0, routed: Routed::Strip { action: StripAction::Release } })
    );
    assert_eq!(
        Event::from_raw(RawEvent::TouchCancel { id: 3 }),
        Ok(Event::TouchCancel { id: 3 })
    );
}

#[test]
fn set_geometry_finds_the_owner() {
    let mut server = Server::new();
    server.add_view(String::from("a"), view(1, 0));
    server.add_view(String::from("b"), view(2, 0));
    assert!(server.set_geometry(2, None));
    assert!(!server.set_geometry(7, None));
    assert_eq!(server.space(1).unwrap().view_at(0), Some(View { shell: 2, geometry: None }));
    assert_eq!(server.space(0).unwrap().view_at(0), Some(view(1, 0)));
    assert_eq!(
        server.handle_event(touch_down(1, 50, 50)),
        Ok(Delivery::ToSpace { id: 1, routed: Routed::Dropped { leave: false, stale: false } })
    );
}

#[test]
fn capabilities_follow_the_devices() {
    let mut server = Server::new();
    assert_eq!(
        server.keyboard_added(),
        Capabilities { keyboard: true, pointer: false, touch: false }
    );
    assert_eq!(
        server.touch_added(),
        Capabilities { keyboard: true, pointer: false, touch: true }
    );
    assert_eq!(
        server.touch_added(),
        Capabilities { keyboard: true, pointer: false, touch: true }
    );
    assert_eq!(
        server.pointer_added(),
        Capabilities { keyboard: true, pointer: true, touch: true }
    );
    assert_eq!((server.keyboards(), server.pointers(), server.touches()), (1, 1, 2));
    assert_eq!(
        server.touch_removed(),
        Capabilities { keyboard: true, pointer: true, touch: true }
    );
    assert_eq!(
        server.touch_removed(),
        Capabilities { keyboard: true, pointer: true, touch: false }
    );
    assert_eq!(
        server.keyboard_removed(),
        Capabilities { keyboard: false, pointer: true, touch: false }
    );
    assert_eq!(
        server.pointer_removed(),
        Capabilities { keyboard: false, pointer: false, touch: false }
    );
    assert_eq!(server.capabilities(), Capabilities { keyboard: false, pointer: false, touch: false });
}

#[test]
fn frame_draws_the_spaces_back_to_front() {
    let mut server = Server::new();
    server.add_view(String::from("a"), view(1, 0));
    server.add_view(String::from("a"), view(2, 200));
    server.add_view(String::from("b"), view(3, 0));
    let frames = server.render(1000, 10000);
    assert_eq!(frames.len(), 2);
    assert_eq!(frames[0].id, 0);
    assert_eq!(frames[0].frame.surfaces, vec![2, 1]);
    assert_eq!(frames[0].frame.strip, SpringStep::Advance);
    assert_eq!(frames[1].id, 1);
    assert_eq!(frames[1].frame.surfaces, vec![3]);
    assert_eq!(frames[1].frame.strip, SpringStep::Advance);
    assert_eq!(server.space(0).unwrap().home_bar(), Some(HomeBar::new(1000, 10000)));
    assert_eq!(server.space(1).unwrap().home_bar(), Some(HomeBar::new(1000, 10000)));
    assert_eq!(server.space_order(), &[0, 1]);
}

#[test]
fn frame_pins_the_strip_that_is_held() {
    let mut server = Server::new();
    server.add_view(String::from("a"), view(1, 0));
    server.add_view(String::from("b"), view(2, 0));
    server.render(1000, 10000);
    server.handle_event(touch_down(3, 500, 9999)).unwrap();
    let frames = server.render(2000, 20000);
    assert_eq!(frames[0].id, 0);
    assert_eq!(frames[0].frame.strip, SpringStep::Advance);
    assert_eq!(frames[1].id, 1);
    assert_eq!(frames[1].frame.strip, SpringStep::Hold);
    assert!(server.space(1).unwrap().captured());
    assert!(!server.space(0).unwrap().captured());
    // The strips keep the screen they were made for.
    assert_eq!(server.space(0).unwrap().home_bar(), Some(HomeBar::new(1000, 10000)));
}

#[test]
fn frame_of_no_space_is_empty() {
    assert!(Server::new().render(1000, 10000).is_empty());
}
