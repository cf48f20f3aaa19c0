//! The gesture capture strip at the bottom edge of the screen.
//!
//! The strip is idle until a touch goes down inside its capture zone. From
//! then on it owns that touch: every event with the same touch identity is
//! the strip's, until the touch goes up or is cancelled. What the strip
//! shows while it is dragged is the embedding's business; each event the
//! strip takes yields a [`StripAction`] that says what to do to the
//! animation.

use vstd::prelude::*;
use crate::event::{Event, TouchId};
use crate::geometry::Fixed;

verus! {

/// The height of the region at the bottom of the screen in which the
/// strip is drawn: 18 pixels.
pub const HOME_BAR_REGION_HEIGHT: Fixed = 4608;

/// The height of the indicator drawn in the strip: 3 pixels.
pub const INDICATOR_HEIGHT: Fixed = 768;

/// What an event that the strip took asks of the strip's animation.
#[derive(Clone, Copy, Debug, PartialEq, Eq, Structural)]
pub enum StripAction {
    /// A touch went down at height `y` and now holds the indicator.
    Grab { y: Fixed },
    /// The holding touch moved to height `y`.
    Drag { y: Fixed },
    /// The holding touch is gone; the indicator eases back to rest.
    Release,
    /// The event is none of the strip's.
    Ignored,
}

/// How to advance the indicator's animation in one frame.
#[derive(Clone, Copy, Debug, PartialEq, Eq, Structural)]
pub enum SpringStep {
    /// Nothing holds the indicator: integrate the time since the last frame.
    Advance,
    /// A touch pins the indicator: restart the clock and leave the value.
    Hold,
}

/// The strip: the screen it lies on, and the touch that holds it, if any.
#[derive(Clone, Copy, Debug, PartialEq, Eq, Structural)]
pub struct HomeBar {
    pub screen_width: Fixed,
    pub screen_height: Fixed,
    pub capture: Option<TouchId>,
}

impl HomeBar {
    /// `bound` is less than the screen's width times the square root of
    /// five. With a width above zero that is to say: the bound is negative,
    /// or its square is less than five times the square of the width.
    pub open spec fn below_width_root_five(self, bound: int) -> bool {
        bound < 0 || bound * bound < 5 * (self.screen_width * self.screen_width)
    }

    /// `x` lies strictly inside the band around the middle of the screen
    /// that is as wide as the screen's width divided by the cube of the
    /// golden ratio.
    ///
    /// The cube of the golden ratio is `2 + √5`, and one over it is
    /// `√5 - 2`. With `w` for the width, the band therefore reaches from
    /// `w (3 - √5) / 2` to `w (√5 - 1) / 2`, and `x` lies inside it exactly
    /// if both `3 w - 2 x` and `2 x + w` are less than `w √5`. Nothing is
    /// rounded. A screen without a width has no band.
    pub open spec fn in_band(self, x: Fixed) -> bool {
        &&& self.screen_width > 0
        &&& self.below_width_root_five(3 * self.screen_width - 2 * x)
        &&& self.below_width_root_five(2 * x + self.screen_width)
    }

    /// `y` is no higher above the bottom edge of the screen than two
    /// indicator heights. Whatever lies below the bottom edge is near it.
    pub open spec fn near_bottom(self, y: Fixed) -> bool {
        y >= self.screen_height - 2 * INDICATOR_HEIGHT
    }

    /// The capture zone.
    pub open spec fn in_zone(self, x: Fixed, y: Fixed) -> bool {
        self.near_bottom(y) && self.in_band(x)
    }

    pub open spec fn is_idle(self) -> bool {
        self.capture is None
    }

    /// Whether the strip takes `event` before any view may see it: while a
    /// touch holds the strip, every event of that touch; while it is idle, a
    /// touch-down inside the capture zone.
    pub open spec fn claims(self, event: Event) -> bool {
        match self.capture {
            Some(holder) => event.touch() == Some(holder),
            None => match event {
                Event::TouchDown { location, .. } => self.in_zone(location.x, location.y),
                _ => false,
            },
        }
    }

    /// The strip after `event`.
    pub open spec fn after(self, event: Event) -> HomeBar {
        match event {
            Event::TouchDown { id, location } => if self.capture is None && self.in_zone(
                location.x,
                location.y,
            ) {
                HomeBar { capture: Some(id), ..self }
            } else {
                self
            },
            Event::TouchUp { id } | Event::TouchCancel { id } => if self.capture == Some(id) {
                HomeBar { capture: None, ..self }
            } else {
                self
            },
            _ => self,
        }
    }

    /// What `event` asks of the animation; `Ignored` for an event that is
    /// none of the strip's.
    pub open spec fn action(self, event: Event) -> StripAction {
        match event {
            Event::TouchDown { id, location } => if self.claims(event) {
                StripAction::Grab { y: location.y }
            } else {
                StripAction::Ignored
            },
            Event::TouchMotion { id, location } => if self.capture == Some(id) {
                StripAction::Drag { y: location.y }
            } else {
                StripAction::Ignored
            },
            Event::TouchUp { id } | Event::TouchCancel { id } => if self.capture == Some(id) {
                StripAction::Release
            } else {
                StripAction::Ignored
            },
            _ => StripAction::Ignored,
        }
    }

    /// An idle strip on a screen of the given size.
    pub fn new(screen_width: Fixed, screen_height: Fixed) -> (bar: HomeBar)
        ensures
            bar == (HomeBar { screen_width, screen_height, capture: None }),
    {
        HomeBar { screen_width, screen_height, capture: None }
    }

    /// Whether a touch that goes down at `(x, y)` falls in the capture zone.
    pub fn should_capture_event(&self, x: Fixed, y: Fixed) -> (wanted: bool)
        ensures
            wanted == self.in_zone(x, y),
    {
        let top: i64 = self.screen_height as i64 - 2 * (INDICATOR_HEIGHT as i64);
        if (y as i64) < top {
            return false;
        }
        if self.screen_width <= 0 {
            return false;
        }
        let width: i128 = self.screen_width as i128;
        let reach: i128 = 2 * (x as i128);
        let low: i128 = 3 * width - reach;
        let high: i128 = reach + width;
        assert(width * width <= 0x8000_0000 * 0x8000_0000) by (nonlinear_arith)
            requires
                0 <= width <= 0x8000_0000,
        ;
        assert(low * low <= 0x4_0000_0000 * 0x4_0000_0000) by (nonlinear_arith)
            requires
                -0x4_0000_0000 <= low <= 0x4_0000_0000,
        ;
        assert(high * high <= 0x4_0000_0000 * 0x4_0000_0000) by (nonlinear_arith)
            requires
                -0x4_0000_0000 <= high <= 0x4_0000_0000,
        ;
        let limit: i128 = 5 * (width * width);
        (low < 0 || low * low < limit) && (high < 0 || high * high < limit)
    }

    /// Whether a touch holds the strip.
    pub fn is_capturing(&self) -> (held: bool)
        ensures
            held == !self.is_idle(),
    {
        self.capture.is_some()
    }

    /// Whether the strip takes `event` before any view may see it.
    pub fn wants_event(&self, event: &Event) -> (wanted: bool)
        ensures
            wanted == self.claims(*event),
    {
        match self.capture {
            Some(holder) => match event.touch_id() {
                Some(id) => id == holder,
                None => false,
            },
            None => match event {
                Event::TouchDown { location, .. } => self.should_capture_event(
                    location.x,
                    location.y,
                ),
                _ => false,
            },
        }
    }

    /// Takes one event.
    ///
    /// A touch that goes down inside the capture zone of an idle strip
    /// holds the strip from then on. A motion of the holding touch drags,
    /// its up or cancel releases and leaves the strip idle. Events of other
    /// touches and of other devices change nothing, and neither does a
    /// touch that goes down outside the zone.
    pub fn handle_event(&mut self, event: Event) -> (action: StripAction)
        ensures
            *final(self) == old(self).after(event),
            action == old(self).action(event),
    {
        match event {
            Event::TouchDown { id, location } => match self.capture {
                None => if self.should_capture_event(location.x, location.y) {
                    self.capture = Some(id);
                    StripAction::Grab { y: location.y }
                } else {
                    StripAction::Ignored
                },
                Some(holder) => if holder == id {
                    StripAction::Grab { y: location.y }
                } else {
                    StripAction::Ignored
                },
            },
            Event::TouchMotion { id, location } => match self.capture {
                Some(holder) => if holder == id {
                    StripAction::Drag { y: location.y }
                } else {
                    StripAction::Ignored
                },
                None => StripAction::Ignored,
            },
            Event::TouchUp { id } | Event::TouchCancel { id } => match self.capture {
                Some(holder) => if holder == id {
                    self.capture = None;
                    StripAction::Release
                } else {
                    StripAction::Ignored
                },
                None => StripAction::Ignored,
            },
            _ => StripAction::Ignored,
        }
    }

    /// What to do to the animation in this frame. While a touch pins the
    /// indicator the clock is restarted without advancing, so that no time
    /// piles up for the moment the touch lets go.
    pub fn render(&self) -> (step: SpringStep)
        ensures
            step == (if self.is_idle() { SpringStep::Advance } else { SpringStep::Hold }),
    {
        match self.capture {
            Some(_) => SpringStep::Hold,
            None => SpringStep::Advance,
        }
    }
}

/// The strip takes an event before the views exactly if the event asks
/// something of it, and only an event it takes changes it.
pub proof fn strip_takes_what_it_acts_on(bar: HomeBar, event: Event)
    ensures
        bar.claims(event) <==> bar.action(event) != StripAction::Ignored,
        !bar.claims(event) ==> bar.after(event) == bar,
{
}

/// The strip is idle, then held, then idle: it is held after an event
/// exactly if that event was a touch going down inside the zone of the idle
/// strip, or if it was held before and the event was not the end of the
/// holding touch.
pub proof fn strip_is_idle_or_held(bar: HomeBar, event: Event)
    ensures
        !bar.after(event).is_idle() <==> (if bar.is_idle() {
            event matches Event::TouchDown { location, .. } && bar.in_zone(location.x, location.y)
        } else {
            event != (Event::TouchUp { id: bar.capture.unwrap() }) && event != (Event::TouchCancel {
                id: bar.capture.unwrap(),
            })
        }),
        bar.after(event).screen_width == bar.screen_width,
        bar.after(event).screen_height == bar.screen_height,
        !bar.is_idle() && !bar.after(event).is_idle() ==> bar.after(event).capture == bar.capture,
{
}

/// The band lies around the middle of the screen: a place is inside it
/// exactly if its mirror image is.
pub proof fn band_is_centred(bar: HomeBar, x: Fixed, mirrored: Fixed)
    requires
        x + mirrored == bar.screen_width,
    ensures
        bar.in_band(x) == bar.in_band(mirrored),
{
}

/// The band lies inside the screen, and the edges of the screen lie
/// outside the band.
pub proof fn band_lies_inside_the_screen(bar: HomeBar, x: Fixed)
    requires
        bar.in_band(x),
    ensures
        0 < x < bar.screen_width,
{
    let w = bar.screen_width as int;
    let low = 3 * w - 2 * x;
    let high = 2 * x + w;
    if x <= 0 {
        assert(low * low >= 9 * (w * w)) by (nonlinear_arith)
            requires
                low >= 3 * w,
                w > 0,
        ;
    }
    if x >= w {
        assert(high * high >= 9 * (w * w)) by (nonlinear_arith)
            requires
                high >= 3 * w,
                w > 0,
        ;
    }
    assert(w * w > 0) by (nonlinear_arith)
        requires
            w > 0,
    ;
}

} // verus!
