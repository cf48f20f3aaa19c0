//! The unified event model.
//!
//! The backend reports pointer, touch, tablet and keyboard input in kinds of
//! its own. [`RawEvent`] holds what such a report carries as plain values,
//! and [`Event::from_raw`] turns it into the one closed set of variants that
//! routing works on.

use vstd::prelude::*;
use crate::geometry::{Fixed, Point};

verus! {

/// The identity the backend gives one finger contact. It ties a touch-down to
/// the motions, the up or the cancel that follow, and means nothing after
/// them: the backend may hand the same number out again.
pub type TouchId = i32;

/// What produced a scroll event.
#[derive(Clone, Copy, Debug, PartialEq, Eq, Structural)]
pub enum AxisSource {
    Wheel,
    Finger,
    Continuous,
    WheelTilt,
}

/// The direction of a scroll event.
#[derive(Clone, Copy, Debug, PartialEq, Eq, Structural)]
pub enum AxisOrientation {
    Vertical,
    Horizontal,
}

/// An input event, whatever device it came from.
#[derive(Clone, Copy, Debug, PartialEq, Eq, Structural)]
pub enum Event {
    PointerDown { button: u32 },
    PointerUp { button: u32 },
    PointerMotion { location: Point },
    PointerAxis { source: AxisSource, orientation: AxisOrientation, delta: Fixed },
    TouchDown { id: TouchId, location: Point },
    TouchMotion { id: TouchId, location: Point },
    TouchUp { id: TouchId },
    TouchCancel { id: TouchId },
    TabletProximityIn { location: Point },
    TabletProximityOut { location: Point },
    TabletTipDown { location: Point },
    TabletTipUp { location: Point },
    TabletButtonDown { button: u32 },
    TabletButtonUp { button: u32 },
    TabletAxis {
        location: Point,
        pressure: u32,
        distance: u32,
        tilt_x: Fixed,
        tilt_y: Fixed,
        slider: i32,
        wheel_delta: Fixed,
    },
    KeyDown { code: u32 },
    KeyUp { code: u32 },
}

/// An input report of the backend, by the backend's own kinds. A `state` is
/// the number the backend uses for it: `0` for released, up or out, `1` for
/// pressed, down or in.
#[derive(Clone, Copy, Debug, PartialEq, Eq, Structural)]
pub enum RawEvent {
    PointerButton { button: u32, state: u32 },
    /// A relative motion: a distance, not a place.
    PointerMotion { dx: Fixed, dy: Fixed },
    PointerAbsMotion { location: Point },
    PointerAxis { source: u32, orientation: u32, delta: Fixed },
    Key { code: u32, state: u32 },
    TouchDown { id: TouchId, location: Point },
    TouchUp { id: TouchId },
    TouchMotion { id: TouchId, location: Point },
    TouchCancel { id: TouchId },
    TabletAxis {
        location: Point,
        pressure: u32,
        distance: u32,
        tilt_x: Fixed,
        tilt_y: Fixed,
        slider: i32,
        wheel_delta: Fixed,
    },
    TabletProximity { location: Point, state: u32 },
    TabletTip { location: Point, state: u32 },
    TabletButton { button: u32, state: u32 },
}

/// Why a report of the backend has no unified event.
#[derive(Clone, Copy, Debug, PartialEq, Eq, Structural)]
pub enum EventError {
    /// The report's kind has no counterpart among the unified events.
    NoMapping,
    /// A button, key, tip or proximity state that is neither `0` nor `1`.
    UnknownState { state: u32 },
    /// A scroll source beyond the four known ones.
    UnknownAxisSource { source: u32 },
    /// A scroll orientation beyond the two known ones.
    UnknownAxisOrientation { orientation: u32 },
}

/// The backend's number for released, up and out.
pub const STATE_OFF: u32 = 0;

/// The backend's number for pressed, down and in.
pub const STATE_ON: u32 = 1;

impl AxisSource {
    pub open spec fn decode(source: u32) -> Option<AxisSource> {
        if source == 0 {
            Some(AxisSource::Wheel)
        } else if source == 1 {
            Some(AxisSource::Finger)
        } else if source == 2 {
            Some(AxisSource::Continuous)
        } else if source == 3 {
            Some(AxisSource::WheelTilt)
        } else {
            None
        }
    }

    /// Reads the backend's number for a scroll source.
    pub fn from_code(source: u32) -> (decoded: Option<AxisSource>)
        ensures
            decoded == AxisSource::decode(source),
    {
        if source == 0 {
            Some(AxisSource::Wheel)
        } else if source == 1 {
            Some(AxisSource::Finger)
        } else if source == 2 {
            Some(AxisSource::Continuous)
        } else if source == 3 {
            Some(AxisSource::WheelTilt)
        } else {
            None
        }
    }
}

impl AxisOrientation {
    pub open spec fn decode(orientation: u32) -> Option<AxisOrientation> {
        if orientation == 0 {
            Some(AxisOrientation::Vertical)
        } else if orientation == 1 {
            Some(AxisOrientation::Horizontal)
        } else {
            None
        }
    }

    /// Reads the backend's number for a scroll orientation.
    pub fn from_code(orientation: u32) -> (decoded: Option<AxisOrientation>)
        ensures
            decoded == AxisOrientation::decode(orientation),
    {
        if orientation == 0 {
            Some(AxisOrientation::Vertical)
        } else if orientation == 1 {
            Some(AxisOrientation::Horizontal)
        } else {
            None
        }
    }
}

/// Picks `on` or `off` by a two-valued state of the backend.
pub open spec fn by_state(state: u32, off: Event, on: Event) -> Result<Event, EventError> {
    if state == STATE_OFF {
        Ok(off)
    } else if state == STATE_ON {
        Ok(on)
    } else {
        Err(EventError::UnknownState { state })
    }
}

fn pick_by_state(state: u32, off: Event, on: Event) -> (picked: Result<Event, EventError>)
    ensures
        picked == by_state(state, off, on),
{
    if state == STATE_OFF {
        Ok(off)
    } else if state == STATE_ON {
        Ok(on)
    } else {
        Err(EventError::UnknownState { state })
    }
}

/// Every event that carries a location is a pointer event, and so is every
/// touch event.
pub proof fn located_events_are_pointer_events(event: Event)
    ensures
        event.place() is Some ==> event.pointer_class(),
        event.touch() is Some ==> event.pointer_class(),
{
}

/// Rewriting the location of an event changes its location and nothing
/// else; an event without a location is left as it is.
pub proof fn moving_changes_the_place_alone(event: Event, to: Point)
    ensures
        event.place() is Some ==> event.moved_to(to).place() == Some(to),
        event.place() is None ==> event.moved_to(to) == event,
        event.place() is Some ==> event.moved_to(to).moved_to(event.place().unwrap()) == event,
        event.moved_to(to).touch() == event.touch(),
        event.moved_to(to).pointer_class() == event.pointer_class(),
{
}

/// A report converts to an event of its own kind of device: only key
/// reports give key events, and a report's touch identity and location are
/// those of its event.
pub proof fn conversion_keeps_the_device(raw: RawEvent, event: Event)
    requires
        Event::of_raw(raw) == Ok::<Event, EventError>(event),
    ensures
        raw is Key <==> !event.pointer_class(),
        raw matches RawEvent::TouchDown { id, location } ==> event.touch() == Some(id)
            && event.place() == Some(location),
        raw matches RawEvent::TouchMotion { id, location } ==> event.touch() == Some(id)
            && event.place() == Some(location),
        raw matches RawEvent::TouchUp { id } ==> event == (Event::TouchUp { id }),
        raw matches RawEvent::TouchCancel { id } ==> event == (Event::TouchCancel { id }),
{
}

impl Event {
    /// Everything but a key event is a pointer event: it carries a location,
    /// or it belongs to a device that has one.
    pub open spec fn pointer_class(self) -> bool {
        !(self is KeyDown || self is KeyUp)
    }

    /// The location a variant carries, if it carries one.
    pub open spec fn place(self) -> Option<Point> {
        match self {
            Event::PointerMotion { location } => Some(location),
            Event::TouchDown { location, .. } => Some(location),
            Event::TouchMotion { location, .. } => Some(location),
            Event::TabletProximityIn { location } => Some(location),
            Event::TabletProximityOut { location } => Some(location),
            Event::TabletTipDown { location } => Some(location),
            Event::TabletTipUp { location } => Some(location),
            Event::TabletAxis { location, .. } => Some(location),
            _ => None,
        }
    }

    /// The same event at another location. An event without a location is
    /// left as it is.
    pub open spec fn moved_to(self, to: Point) -> Event {
        match self {
            Event::PointerMotion { .. } => Event::PointerMotion { location: to },
            Event::TouchDown { id, .. } => Event::TouchDown { id, location: to },
            Event::TouchMotion { id, .. } => Event::TouchMotion { id, location: to },
            Event::TabletProximityIn { .. } => Event::TabletProximityIn { location: to },
            Event::TabletProximityOut { .. } => Event::TabletProximityOut { location: to },
            Event::TabletTipDown { .. } => Event::TabletTipDown { location: to },
            Event::TabletTipUp { .. } => Event::TabletTipUp { location: to },
            Event::TabletAxis { pressure, distance, tilt_x, tilt_y, slider, wheel_delta, .. } =>
                Event::TabletAxis {
                    location: to,
                    pressure,
                    distance,
                    tilt_x,
                    tilt_y,
                    slider,
                    wheel_delta,
                },
            _ => self,
        }
    }

    /// The touch identity of a touch event.
    pub open spec fn touch(self) -> Option<TouchId> {
        match self {
            Event::TouchDown { id, .. } => Some(id),
            Event::TouchMotion { id, .. } => Some(id),
            Event::TouchUp { id } => Some(id),
            Event::TouchCancel { id } => Some(id),
            _ => None,
        }
    }

    /// The unified event of a report, or the reason it has none.
    ///
    /// A relative pointer motion has no unified event, because nothing here
    /// knows the place it started from. A state or axis code outside the
    /// known ones is an error and never guessed at; of an axis report the
    /// source is looked at before the orientation.
    pub open spec fn of_raw(raw: RawEvent) -> Result<Event, EventError> {
        match raw {
            RawEvent::PointerButton { button, state } => by_state(
                state,
                Event::PointerUp { button },
                Event::PointerDown { button },
            ),
            RawEvent::PointerMotion { .. } => Err(EventError::NoMapping),
            RawEvent::PointerAbsMotion { location } => Ok(Event::PointerMotion { location }),
            RawEvent::PointerAxis { source, orientation, delta } => match AxisSource::decode(
                source,
            ) {
                None => Err(EventError::UnknownAxisSource { source }),
                Some(axis_source) => match AxisOrientation::decode(orientation) {
                    None => Err(EventError::UnknownAxisOrientation { orientation }),
                    Some(axis_orientation) => Ok(
                        Event::PointerAxis {
                            source: axis_source,
                            orientation: axis_orientation,
                            delta,
                        },
                    ),
                },
            },
            RawEvent::Key { code, state } => by_state(
                state,
                Event::KeyUp { code },
                Event::KeyDown { code },
            ),
            RawEvent::TouchDown { id, location } => Ok(Event::TouchDown { id, location }),
            RawEvent::TouchUp { id } => Ok(Event::TouchUp { id }),
            RawEvent::TouchMotion { id, location } => Ok(Event::TouchMotion { id, location }),
            RawEvent::TouchCancel { id } => Ok(Event::TouchCancel { id }),
            RawEvent::TabletAxis {
                location,
                pressure,
                distance,
                tilt_x,
                tilt_y,
                slider,
                wheel_delta,
            } => Ok(
                Event::TabletAxis {
                    location,
                    pressure,
                    distance,
                    tilt_x,
                    tilt_y,
                    slider,
                    wheel_delta,
                },
            ),
            RawEvent::TabletProximity { location, state } => by_state(
                state,
                Event::TabletProximityOut { location },
                Event::TabletProximityIn { location },
            ),
            RawEvent::TabletTip { location, state } => by_state(
                state,
                Event::TabletTipUp { location },
                Event::TabletTipDown { location },
            ),
            RawEvent::TabletButton { button, state } => by_state(
                state,
                Event::TabletButtonUp { button },
                Event::TabletButtonDown { button },
            ),
        }
    }

    /// Whether seat-focus routing applies to the event.
    pub fn is_pointer_event(&self) -> (pointer: bool)
        ensures
            pointer == self.pointer_class(),
    {
        match self {
            Event::KeyDown { .. } | Event::KeyUp { .. } => false,
            _ => true,
        }
    }

    /// The location the event carries.
    pub fn location(&self) -> (location: Option<Point>)
        ensures
            location == self.place(),
    {
        match self {
            Event::PointerMotion { location }
            | Event::TouchDown { location, .. }
            | Event::TouchMotion { location, .. }
            | Event::TabletProximityIn { location }
            | Event::TabletProximityOut { location }
            | Event::TabletTipDown { location }
            | Event::TabletTipUp { location }
            | Event::TabletAxis { location, .. } => Some(*location),
            _ => None,
        }
    }

    /// The location the event carries, to rewrite it in place.
    pub fn location_mut(&mut self) -> (location: Option<&mut Point>)
        ensures
            match location {
                Some(point) => {
                    &&& old(self).place() == Some(*point)
                    &&& *final(self) == old(self).moved_to(*final(point))
                },
                None => old(self).place() is None && *final(self) == *old(self),
            },
    {
        match self {
            Event::PointerMotion { location } => Some(location),
            Event::TouchDown { location, .. } => Some(location),
            Event::TouchMotion { location, .. } => Some(location),
            Event::TabletProximityIn { location } => Some(location),
            Event::TabletProximityOut { location } => Some(location),
            Event::TabletTipDown { location } => Some(location),
            Event::TabletTipUp { location } => Some(location),
            Event::TabletAxis { location, .. } => Some(location),
            _ => None,
        }
    }

    /// The touch identity of a touch event.
    pub fn touch_id(&self) -> (id: Option<TouchId>)
        ensures
            id == self.touch(),
    {
        match self {
            Event::TouchDown { id, .. }
            | Event::TouchMotion { id, .. }
            | Event::TouchUp { id }
            | Event::TouchCancel { id } => Some(*id),
            _ => None,
        }
    }

    /// Converts a report of the backend.
    pub fn from_raw(raw: RawEvent) -> (converted: Result<Event, EventError>)
        ensures
            converted == Event::of_raw(raw),
    {
        match raw {
            RawEvent::PointerButton { button, state } => pick_by_state(
                state,
                Event::PointerUp { button },
                Event::PointerDown { button },
            ),
            RawEvent::PointerMotion { .. } => Err(EventError::NoMapping),
            RawEvent::PointerAbsMotion { location } => Ok(Event::PointerMotion { location }),
            RawEvent::PointerAxis { source, orientation, delta } => {
                match AxisSource::from_code(source) {
                    None => Err(EventError::UnknownAxisSource { source }),
                    Some(axis_source) => match AxisOrientation::from_code(orientation) {
                        None => Err(EventError::UnknownAxisOrientation { orientation }),
                        Some(axis_orientation) => Ok(
                            Event::PointerAxis {
                                source: axis_source,
                                orientation: axis_orientation,
                                delta,
                            },
                        ),
                    },
                }
            },
            RawEvent::Key { code, state } => pick_by_state(
                state,
                Event::KeyUp { code },
                Event::KeyDown { code },
            ),
            RawEvent::TouchDown { id, location } => Ok(Event::TouchDown { id, location }),
            RawEvent::TouchUp { id } => Ok(Event::TouchUp { id }),
            RawEvent::TouchMotion { id, location } => Ok(Event::TouchMotion { id, location }),
            RawEvent::TouchCancel { id } => Ok(Event::TouchCancel { id }),
            RawEvent::TabletAxis {
                location,
                pressure,
                distance,
                tilt_x,
                tilt_y,
                slider,
                wheel_delta,
            } => Ok(
                Event::TabletAxis {
                    location,
                    pressure,
                    distance,
                    tilt_x,
                    tilt_y,
                    slider,
                    wheel_delta,
                },
            ),
            RawEvent::TabletProximity { location, state } => pick_by_state(
                state,
                Event::TabletProximityOut { location },
                Event::TabletProximityIn { location },
            ),
            RawEvent::TabletTip { location, state } => pick_by_state(
                state,
                Event::TabletTipUp { location },
                Event::TabletTipDown { location },
            ),
            RawEvent::TabletButton { button, state } => pick_by_state(
                state,
                Event::TabletButtonUp { button },
                Event::TabletButtonDown { button },
            ),
        }
    }
}

} // verus!
