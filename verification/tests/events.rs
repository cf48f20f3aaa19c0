use touch_shell::event::{AxisOrientation, AxisSource, Event, EventError, RawEvent};
use touch_shell::geometry::Point;

fn at(x: i32, y: i32) -> Point {
    Point { x, y }
}

fn every_event() -> Vec<Event> {
    vec![
        Event::PointerDown { button: 1 },
        Event::PointerUp { button: 1 },
        Event::PointerMotion { location: at(1, 2) },
        Event::PointerAxis {
            source: AxisSource::Wheel,
            orientation: AxisOrientation::Vertical,
            delta: 3,
        },
        Event::TouchDown { id: 4, location: at(5, 6) },
        Event::TouchMotion { id: 4, location: at(7, 8) },
        Event::TouchUp { id: 4 },
        Event::TouchCancel { id: 4 },
        Event::TabletProximityIn { location: at(9, 10) },
        Event::TabletProximityOut { location: at(11, 12) },
        Event::TabletTipDown { location: at(13, 14) },
        Event::TabletTipUp { location: at(15, 16) },
        Event::TabletButtonDown { button: 2 },
        Event::TabletButtonUp { button: 2 },
        Event::TabletAxis {
            location: at(17, 18),
            pressure: 1,
            distance: 2,
            tilt_x: 3,
            tilt_y: 4,
            slider: 5,
            wheel_delta: 6,
        },
        Event::KeyDown { code: 30 },
        Event::KeyUp { code: 30 },
    ]
}

#[test]
fn only_key_events_are_not_pointer_events() {
    let flags: Vec<bool> = every_event().iter().map(|e| e.is_pointer_event()).collect();
    assert_eq!(
        flags,
        vec![
            true, true, true, true, true, true, true, true, true, true, true, true, true, true,
            true, false, false
        ]
    );
}

#[test]
fn location_is_there_for_the_variants_that_carry_one() {
    let places: Vec<Option<Point>> = every_event().iter().map(|e| e.location()).collect();
    assert_eq!(
        places,
        vec![
            None,
            None,
            Some(at(1, 2)),
            None,
            Some(at(5, 6)),
            Some(at(7, 8)),
            None,
            None,
            Some(at(9, 10)),
            Some(at(11, 12)),
            Some(at(13, 14)),
            Some(at(15, 16)),
            None,
            None,
            Some(at(17, 18)),
            None,
            None
        ]
    );
}

#[test]
fn touch_id_is_there_for_touch_events() {
    let ids: Vec<Option<i32>> = every_event().iter().map(|e| e.touch_id()).collect();
    assert_eq!(
        ids,
        vec![
            None,
            None,
            None,
            None,
            Some(4),
            Some(4),
            Some(4),
            Some(4),
            None,
            None,
            None,
            None,
            None,
            None,
            None,
            None,
            None
        ]
    );
}

#[test]
fn location_mut_rewrites_in_place() {
    let mut event = Event::TouchDown { id: 9, location: at(1, 2) };
    match event.location_mut() {
        Some(place) => {
            place.x *= 10;
            place.y *= 100;
        }
        None => panic!("a touch-down has a location"),
    }
    assert_eq!(event, Event::TouchDown { id: 9, location: at(10, 200) });

    let mut axis = Event::TabletAxis {
        location: at(1, 1),
        pressure: 1,
        distance: 2,
        tilt_x: 3,
        tilt_y: 4,
        slider: 5,
        wheel_delta: 6,
    };
    *axis.location_mut().unwrap() = at(7, 7);
    assert_eq!(
        axis,
        Event::TabletAxis {
            location: at(7, 7),
            pressure: 1,
            distance: 2,
            tilt_x: 3,
            tilt_y: 4,
            slider: 5,
            wheel_delta: 6,
        }
    );
}

#[test]
fn location_mut_is_none_without_location() {
    let mut event = Event::TouchUp { id: 9 };
    assert!(event.location_mut().is_none());
    assert_eq!(event, Event::TouchUp { id: 9 });
    let mut key = Event::KeyDown { code: 1 };
    assert!(key.location_mut().is_none());
}

#[test]
fn touch_reports_convert_directly() {
    assert_eq!(
        Event::from_raw(RawEvent::TouchDown { id: 3, location: at(10, 20) }),
        Ok(Event::TouchDown { id: 3, location: at(10, 20) })
    );
    assert_eq!(
        Event::from_raw(RawEvent::TouchMotion { id: 3, location: at(11, 21) }),
        Ok(Event::TouchMotion { id: 3, location: at(11, 21) })
    );
    assert_eq!(Event::from_raw(RawEvent::TouchUp { id: 3 }), Ok(Event::TouchUp { id: 3 }));
    assert_eq!(
        Event::from_raw(RawEvent::TouchCancel { id: -3 }),
        Ok(Event::TouchCancel { id: -3 })
    );
}

#[test]
fn states_map_to_pairs() {
    assert_eq!(
        Event::from_raw(RawEvent::Key { code: 30, state: 1 }),
        Ok(Event::KeyDown { code: 30 })
    );
    assert_eq!(
        Event::from_raw(RawEvent::Key { code: 30, state: 0 }),
        Ok(Event::KeyUp { code: 30 })
    );
    assert_eq!(
        Event::from_raw(RawEvent::PointerButton { button: 272, state: 1 }),
        Ok(Event::PointerDown { button: 272 })
    );
    assert_eq!(
        Event::from_raw(RawEvent::PointerButton { button: 272, state: 0 }),
        Ok(Event::PointerUp { button: 272 })
    );
    assert_eq!(
        Event::from_raw(RawEvent::TabletProximity { location: at(1, 2), state: 1 }),
        Ok(Event::TabletProximityIn { location: at(1, 2) })
    );
    assert_eq!(
        Event::from_raw(RawEvent::TabletProximity { location: at(1, 2), state: 0 }),
        Ok(Event::TabletProximityOut { location: at(1, 2) })
    );
    assert_eq!(
        Event::from_raw(RawEvent::TabletTip { location: at(1, 2), state: 1 }),
        Ok(Event::TabletTipDown { location: at(1, 2) })
    );
    assert_eq!(
        Event::from_raw(RawEvent::TabletTip { location: at(1, 2), state: 0 }),
        Ok(Event::TabletTipUp { location: at(1, 2) })
    );
    assert_eq!(
        Event::from_raw(RawEvent::TabletButton { button: 7, state: 1 }),
        Ok(Event::TabletButtonDown { button: 7 })
    );
    assert_eq!(
        Event::from_raw(RawEvent::TabletButton { button: 7, state: 0 }),
        Ok(Event::TabletButtonUp { button: 7 })
    );
}

#[test]
fn unknown_state_is_an_error() {
    assert_eq!(
        Event::from_raw(RawEvent::Key { code: 30, state: 2 }),
        Err(EventError::UnknownState { state: 2 })
    );
    assert_eq!(
        Event::from_raw(RawEvent::PointerButton { button: 1, state: 7 }),
        Err(EventError::UnknownState { state: 7 })
    );
    assert_eq!(
        Event::from_raw(RawEvent::TabletProximity { location: at(0, 0), state: u32::MAX }),
        Err(EventError::UnknownState { state: u32::MAX })
    );
    assert_eq!(
        Event::from_raw(RawEvent::TabletTip { location: at(0, 0), state: 2 }),
        Err(EventError::UnknownState { state: 2 })
    );
    assert_eq!(
        Event::from_raw(RawEvent::TabletButton { button: 1, state: 3 }),
        Err(EventError::UnknownState { state: 3 })
    );
}

#[test]
fn relative_motion_has_no_mapping() {
    assert_eq!(
        Event::from_raw(RawEvent::PointerMotion { dx: 1, dy: 1 }),
        Err(EventError::NoMapping)
    );
}

#[test]
fn absolute_motion_becomes_pointer_motion() {
    assert_eq!(
        Event::from_raw(RawEvent::PointerAbsMotion { location: at(5, 6) }),
        Ok(Event::PointerMotion { location: at(5, 6) })
    );
}

#[test]
fn axis_codes_are_decoded() {
    assert_eq!(
        Event::from_raw(RawEvent::PointerAxis { source: 0, orientation: 0, delta: -15 }),
        Ok(Event::PointerAxis {
            source: AxisSource::Wheel,
            orientation: AxisOrientation::Vertical,
            delta: -15
        })
    );
    assert_eq!(
        Event::from_raw(RawEvent::PointerAxis { source: 1, orientation: 1, delta: 15 }),
        Ok(Event::PointerAxis {
            source: AxisSource::Finger,
            orientation: AxisOrientation::Horizontal,
            delta: 15
        })
    );
    assert_eq!(AxisSource::from_code(2), Some(AxisSource::Continuous));
    assert_eq!(AxisSource::from_code(3), Some(AxisSource::WheelTilt));
    assert_eq!(AxisSource::from_code(4), None);
    assert_eq!(AxisOrientation::from_code(2), None);
}

#[test]
fn unknown_axis_codes_are_errors_source_first() {
    assert_eq!(
        Event::from_raw(RawEvent::PointerAxis { source: 4, orientation: 0, delta: 0 }),
        Err(EventError::UnknownAxisSource { source: 4 })
    );
    assert_eq!(
        Event::from_raw(RawEvent::PointerAxis { source: 0, orientation: 2, delta: 0 }),
        Err(EventError::UnknownAxisOrientation { orientation: 2 })
    );
    assert_eq!(
        Event::from_raw(RawEvent::PointerAxis { source: 9, orientation: 9, delta: 0 }),
        Err(EventError::UnknownAxisSource { source: 9 })
    );
}

#[test]
fn tablet_axis_keeps_every_field() {
    assert_eq!(
        Event::from_raw(RawEvent::TabletAxis {
            location: at(1, 2),
            pressure: 3,
            distance: 4,
            tilt_x: 5,
            tilt_y: 6,
            slider: 7,
            wheel_delta: 8,
        }),
        Ok(Event::TabletAxis {
            location: at(1, 2),
            pressure: 3,
            distance: 4,
            tilt_x: 5,
            tilt_y: 6,
            slider: 7,
            wheel_delta: 8,
        })
    );
}
