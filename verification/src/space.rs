//! One stacked workspace: its views, its gesture strip, and the routing of
//! each event to one of them.
//!
//! Routing decides and records; it performs nothing. [`Space::handle_event`]
//! returns a [`Routed`] value that says which notifications the seat is owed,
//! and the caller sends them.

use vstd::prelude::*;
use crate::event::{AxisOrientation, AxisSource, Event, TouchId};
use crate::geometry::{Area, Fixed, Local, Point};
use crate::home_bar::{HomeBar, SpringStep, StripAction};
use crate::view;
use crate::view::SurfaceId;

verus! {

/// What the seat is told of an event that reached a view.
#[derive(Clone, Copy, Debug, PartialEq, Eq, Structural)]
pub enum Notify {
    Button { button: u32, pressed: bool },
    Axis { source: AxisSource, orientation: AxisOrientation, delta: Fixed },
    TouchDown { id: TouchId, at: Local },
    TouchMotion { id: TouchId, at: Local },
    TouchUp { id: TouchId },
    /// The seat has no notification for this kind of event. It is dropped,
    /// though it may have moved the focus.
    Unhandled,
}

/// Where an event went.
#[derive(Clone, Copy, Debug, PartialEq, Eq, Structural)]
pub enum Routed {
    /// The gesture strip took it; no view saw it.
    Strip { action: StripAction },
    /// It reached the view at `index`. If the focus moved to that view with
    /// this event, `enter` holds the surface-local place of the event, and
    /// the seat is told of the entry before it is told of the event.
    View { index: usize, surface: SurfaceId, enter: Option<Local>, notify: Notify },
    /// It reached nothing. `leave` says that the focus was on a view and is
    /// now on none; `stale` says that the event was owed to a view whose
    /// surface is gone.
    Dropped { leave: bool, stale: bool },
}

/// What to draw for one space in one frame: the surfaces in drawing order,
/// then the strip on top of them.
#[derive(Clone, Debug, PartialEq, Eq)]
pub struct Frame {
    pub surfaces: Vec<SurfaceId>,
    pub strip: SpringStep,
}

/// A space as contracts speak of it.
pub struct SpaceState {
    /// Back to front: the last view is the topmost.
    pub views: Seq<view::View>,
    pub home_bar: Option<HomeBar>,
    /// The index of the view that holds the pointer focus.
    pub pointer_target: Option<int>,
}

/// The index of the last view that holds `at`: the topmost one under it.
pub open spec fn topmost_at(views: Seq<view::View>, at: Point) -> Option<int>
    decreases views.len(),
{
    if views.len() == 0 {
        None
    } else if views.last().holds(at) {
        Some(views.len() - 1)
    } else {
        topmost_at(views.drop_last(), at)
    }
}

/// The index of the first view of `surface`.
pub open spec fn first_of_surface(views: Seq<view::View>, surface: SurfaceId) -> Option<int>
    decreases views.len(),
{
    if views.len() == 0 {
        None
    } else {
        match first_of_surface(views.drop_last(), surface) {
            Some(index) => Some(index),
            None => if views.last().shell == surface {
                Some(views.len() - 1)
            } else {
                None
            },
        }
    }
}

/// The names of the surfaces, in the order of the views.
pub open spec fn surfaces_of(views: Seq<view::View>) -> Seq<SurfaceId> {
    Seq::new(views.len(), |i: int| views[i].shell)
}

/// An index of the model as the index of a vector.
pub open spec fn as_index(index: int) -> usize {
    index as usize
}

impl SpaceState {
    pub open spec fn empty() -> SpaceState {
        SpaceState { views: Seq::empty(), home_bar: None, pointer_target: None }
    }

    /// The focus, if it is on a view, is on one that is there.
    pub open spec fn wf(self) -> bool {
        &&& self.views.len() <= usize::MAX
        &&& match self.pointer_target {
            Some(target) => 0 <= target < self.views.len(),
            None => true,
        }
    }

    pub open spec fn is_capturing(self) -> bool {
        match self.home_bar {
            Some(bar) => !bar.is_idle(),
            None => false,
        }
    }

    /// The strip takes the event, and no view sees it.
    pub open spec fn strip_claims(self, event: Event) -> bool {
        match self.home_bar {
            Some(bar) => bar.claims(event),
            None => false,
        }
    }

    /// The event goes to the view that has the focus, whatever lies under
    /// it: a pointer event during a grab, or one that has no location.
    pub open spec fn follows_focus(event: Event, grabbed: bool) -> bool {
        event.pointer_class() && (grabbed || event.place() is None)
    }

    /// The view the event is owed to, before asking whether its surface is
    /// still there.
    pub open spec fn candidate(self, event: Event, grabbed: bool) -> Option<int> {
        if Self::follows_focus(event, grabbed) && self.pointer_target is Some {
            self.pointer_target
        } else {
            match event.place() {
                Some(at) => topmost_at(self.views, at),
                None => None,
            }
        }
    }

    /// The view the event is delivered to.
    pub open spec fn target(self, event: Event, grabbed: bool) -> Option<int> {
        match self.candidate(event, grabbed) {
            Some(index) => if self.views[index].is_stale() {
                None
            } else {
                Some(index)
            },
            None => None,
        }
    }

    /// What the seat is told of `event` when it reaches a surface at `area`.
    pub open spec fn notification(area: Area, event: Event) -> Notify {
        match event {
            Event::PointerDown { button } => Notify::Button { button, pressed: true },
            Event::PointerUp { button } => Notify::Button { button, pressed: false },
            Event::PointerAxis { source, orientation, delta } => Notify::Axis {
                source,
                orientation,
                delta,
            },
            Event::TouchDown { id, location } => Notify::TouchDown {
                id,
                at: area.relative(location),
            },
            Event::TouchMotion { id, location } => Notify::TouchMotion {
                id,
                at: area.relative(location),
            },
            Event::TouchUp { id } => Notify::TouchUp { id },
            _ => Notify::Unhandled,
        }
    }

    /// The focus moves with this event: it carries a location, and what it
    /// resolves to is not what has the focus.
    pub open spec fn moves_focus(self, event: Event, grabbed: bool) -> bool {
        event.place() is Some && self.target(event, grabbed) != self.pointer_target
    }

    /// Where the event goes.
    pub open spec fn routed(self, event: Event, grabbed: bool) -> Routed {
        if self.strip_claims(event) {
            Routed::Strip { action: self.home_bar.unwrap().action(event) }
        } else {
            match self.target(event, grabbed) {
                Some(index) => {
                    let area = self.views[index].geometry.unwrap();
                    Routed::View {
                        index: as_index(index),
                        surface: self.views[index].shell,
                        enter: if self.moves_focus(event, grabbed) {
                            Some(area.relative(event.place().unwrap()))
                        } else {
                            None
                        },
                        notify: Self::notification(area, event),
                    }
                },
                None => Routed::Dropped {
                    leave: self.moves_focus(event, grabbed),
                    stale: self.candidate(event, grabbed) is Some,
                },
            }
        }
    }

    /// The space after the event.
    pub open spec fn after(self, event: Event, grabbed: bool) -> SpaceState {
        if self.strip_claims(event) {
            SpaceState { home_bar: Some(self.home_bar.unwrap().after(event)), ..self }
        } else if self.moves_focus(event, grabbed) {
            SpaceState { pointer_target: self.target(event, grabbed), ..self }
        } else {
            self
        }
    }

    pub open spec fn with_view(self, added: view::View) -> SpaceState {
        SpaceState { views: self.views.push(added), ..self }
    }

    /// The focus after the view at `removed` is taken out: gone with its
    /// view, and otherwise on the view it was on.
    pub open spec fn focus_without(self, removed: int) -> Option<int> {
        match self.pointer_target {
            Some(target) => if target == removed {
                None
            } else if target > removed {
                Some(target - 1)
            } else {
                Some(target)
            },
            None => None,
        }
    }

    /// The space without the first view of `surface`.
    pub open spec fn without_surface(self, surface: SurfaceId) -> SpaceState {
        match first_of_surface(self.views, surface) {
            Some(index) => SpaceState {
                views: self.views.remove(index),
                pointer_target: self.focus_without(index),
                ..self
            },
            None => self,
        }
    }

    /// The space with a new rectangle for the first view of `surface`.
    pub open spec fn with_geometry(self, surface: SurfaceId, geometry: Option<Area>) -> SpaceState {
        match first_of_surface(self.views, surface) {
            Some(index) => SpaceState {
                views: self.views.update(index, view::View { shell: surface, geometry }),
                ..self
            },
            None => self,
        }
    }

    /// The space after a frame on a screen of the given size: it has a
    /// strip, the one it had or a new one for this screen.
    pub open spec fn rendered(self, width: Fixed, height: Fixed) -> SpaceState {
        match self.home_bar {
            Some(_) => self,
            None => SpaceState {
                home_bar: Some(HomeBar { screen_width: width, screen_height: height, capture: None }),
                ..self
            },
        }
    }
}

/// `topmost_at` finds a view that holds the place and has none above it
/// that does; it finds nothing only where no view holds the place.
pub proof fn lemma_topmost_at(views: Seq<view::View>, at: Point)
    ensures
        match topmost_at(views, at) {
            Some(index) => {
                &&& 0 <= index < views.len()
                &&& views[index].holds(at)
                &&& forall|j: int| index < j < views.len() ==> !(#[trigger] views[j]).holds(at)
            },
            None => forall|j: int| 0 <= j < views.len() ==> !(#[trigger] views[j]).holds(at),
        },
    decreases views.len(),
{
    if views.len() > 0 && !views.last().holds(at) {
        let rest = views.drop_last();
        lemma_topmost_at(rest, at);
        assert forall|j: int| 0 <= j < rest.len() implies rest[j] == views[j] by {}
        match topmost_at(rest, at) {
            Some(index) => {
                assert forall|j: int| index < j < views.len() implies !(#[trigger] views[j]).holds(
                    at,
                ) by {
                    if j < rest.len() {
                        assert(rest[j] == views[j]);
                    }
                }
            },
            None => {
                assert forall|j: int| 0 <= j < views.len() implies !(#[trigger] views[j]).holds(
                    at,
                ) by {
                    if j < rest.len() {
                        assert(rest[j] == views[j]);
                    }
                }
            },
        }
    }
}

/// `first_of_surface` finds a view of the surface that has none of it
/// before; it finds nothing only where no view is of the surface.
pub proof fn lemma_first_of_surface(views: Seq<view::View>, surface: SurfaceId)
    ensures
        match first_of_surface(views, surface) {
            Some(index) => {
                &&& 0 <= index < views.len()
                &&& views[index].shell == surface
                &&& forall|j: int| 0 <= j < index ==> (#[trigger] views[j]).shell != surface
            },
            None => forall|j: int| 0 <= j < views.len() ==> (#[trigger] views[j]).shell != surface,
        },
    decreases views.len(),
{
    if views.len() > 0 {
        let rest = views.drop_last();
        lemma_first_of_surface(rest, surface);
        assert forall|j: int| 0 <= j < rest.len() implies rest[j] == views[j] by {}
        match first_of_surface(rest, surface) {
            Some(index) => {
                assert(rest[index] == views[index]);
                assert forall|j: int| 0 <= j < index implies (#[trigger] views[j]).shell
                    != surface by {
                    assert(rest[j] == views[j]);
                }
            },
            None => {
                assert forall|j: int| 0 <= j < views.len() - 1 implies (#[trigger] views[j]).shell
                    != surface by {
                    assert(rest[j] == views[j]);
                }
            },
        }
    }
}

/// No surface has two views.
pub open spec fn distinct_surfaces(views: Seq<view::View>) -> bool {
    forall|i: int, j: int|
        0 <= i < j < views.len() ==> (#[trigger] views[i]).shell != (#[trigger] views[j]).shell
}

/// Where no surface has two views, removing the view of a surface leaves
/// no view of it, and takes no view of another surface.
pub proof fn removal_forgets_the_surface(space: SpaceState, surface: SurfaceId)
    requires
        distinct_surfaces(space.views),
    ensures
        first_of_surface(space.without_surface(surface).views, surface) is None,
        distinct_surfaces(space.without_surface(surface).views),
        forall|other: SurfaceId|
            other != surface ==> (first_of_surface(space.without_surface(surface).views, other)
                is Some <==> #[trigger] first_of_surface(space.views, other) is Some),
{
    let now = space.without_surface(surface).views;
    lemma_first_of_surface(space.views, surface);
    lemma_first_of_surface(now, surface);
    match first_of_surface(space.views, surface) {
        Some(index) => {
            assert forall|k: int| 0 <= k < now.len() implies (#[trigger] now[k]).shell
                != surface by {
                if k < index {
                    assert(now[k] == space.views[k]);
                } else {
                    assert(now[k] == space.views[k + 1]);
                }
            }
            assert forall|i: int, j: int| 0 <= i < j < now.len() implies (#[trigger] now[i]).shell
                != (#[trigger] now[j]).shell by {
                let from_i = if i < index {
                    i
                } else {
                    i + 1
                };
                let from_j = if j < index {
                    j
                } else {
                    j + 1
                };
                assert(now[i] == space.views[from_i]);
                assert(now[j] == space.views[from_j]);
            }
            assert forall|other: SurfaceId| other != surface implies (first_of_surface(now, other)
                is Some <==> #[trigger] first_of_surface(space.views, other) is Some) by {
                lemma_first_of_surface(space.views, other);
                lemma_first_of_surface(now, other);
                match first_of_surface(space.views, other) {
                    Some(found) => {
                        let moved = if found < index {
                            found
                        } else {
                            found - 1
                        };
                        assert(now[moved] == space.views[found]);
                    },
                    None => {
                        match first_of_surface(now, other) {
                            Some(found) => {
                                let from = if found < index {
                                    found
                                } else {
                                    found + 1
                                };
                                assert(now[found] == space.views[from]);
                            },
                            None => {},
                        }
                    },
                }
            }
        },
        None => {
            assert forall|other: SurfaceId| other != surface implies (first_of_surface(now, other)
                is Some <==> #[trigger] first_of_surface(space.views, other) is Some) by {}
        },
    }
}

/// The topmost view under a place is the one view that holds it and has
/// none above it that does, wherever in the stack it lies.
pub proof fn topmost_is_front_most(views: Seq<view::View>, at: Point, index: int)
    requires
        0 <= index < views.len(),
        views[index].holds(at),
        forall|j: int| index < j < views.len() ==> !(#[trigger] views[j]).holds(at),
    ensures
        topmost_at(views, at) == Some(index),
{
    lemma_topmost_at(views, at);
}

/// Where exactly one view holds a place, the hit test finds that view,
/// however many views there are and wherever among them it lies.
pub proof fn only_holder_is_hit(views: Seq<view::View>, at: Point, index: int)
    requires
        0 <= index < views.len(),
        views[index].holds(at),
        forall|j: int| 0 <= j < views.len() && j != index ==> !(#[trigger] views[j]).holds(at),
    ensures
        topmost_at(views, at) == Some(index),
{
    topmost_is_front_most(views, at, index);
}

/// An event with a location that no grab holds and the strip does not
/// take reaches the topmost view under it.
pub proof fn located_event_reaches_topmost(space: SpaceState, event: Event, index: int)
    requires
        space.wf(),
        !space.strip_claims(event),
        event.place() is Some,
        0 <= index < space.views.len(),
        space.views[index].holds(event.place().unwrap()),
        forall|j: int|
            index < j < space.views.len() ==> !(#[trigger] space.views[j]).holds(
                event.place().unwrap(),
            ),
    ensures
        space.routed(event, false) matches Routed::View { index: reached, surface, .. }
            && reached == index && surface == space.views[index].shell,
{
    topmost_is_front_most(space.views, event.place().unwrap(), index);
}

/// Routing keeps a space well formed.
pub proof fn routing_keeps_wf(space: SpaceState, event: Event, grabbed: bool)
    requires
        space.wf(),
    ensures
        space.after(event, grabbed).wf(),
{
    match event.place() {
        Some(at) => lemma_topmost_at(space.views, at),
        None => {},
    }
}

/// After an event has reached a view, the focus is on that view. The seat
/// is told of an entry with the event exactly if the focus was elsewhere
/// before.
pub proof fn delivery_sets_focus(space: SpaceState, event: Event, grabbed: bool)
    requires
        space.wf(),
        space.routed(event, grabbed) is View,
    ensures
        space.after(event, grabbed).pointer_target == Some(
            space.routed(event, grabbed)->index as int,
        ),
        space.routed(event, grabbed)->enter is Some <==> space.pointer_target != Some(
            space.routed(event, grabbed)->index as int,
        ),
{
    match event.place() {
        Some(at) => lemma_topmost_at(space.views, at),
        None => {},
    }
}

/// The focus changes with an event exactly if the seat is told of an entry
/// or of a leave. The strip's events never change it.
pub proof fn focus_changes_with_notice(space: SpaceState, event: Event, grabbed: bool)
    requires
        space.wf(),
    ensures
        match space.routed(event, grabbed) {
            Routed::Strip { .. } => space.after(event, grabbed).pointer_target
                == space.pointer_target,
            Routed::View { enter, .. } => enter is Some <==> space.after(
                event,
                grabbed,
            ).pointer_target != space.pointer_target,
            Routed::Dropped { leave, .. } => {
                &&& leave <==> space.after(event, grabbed).pointer_target != space.pointer_target
                &&& leave ==> space.after(event, grabbed).pointer_target is None
            },
        },
{
    match event.place() {
        Some(at) => lemma_topmost_at(space.views, at),
        None => {},
    }
}

impl SpaceState {
    /// The space after a sequence of events, each with the grab state it
    /// arrived in.
    pub open spec fn after_all(self, events: Seq<Event>, grabs: Seq<bool>) -> SpaceState
        decreases events.len(),
    {
        if events.len() == 0 {
            self
        } else {
            self.after_all(events.drop_last(), grabs.drop_last()).after(
                events.last(),
                grabs.last(),
            )
        }
    }

    /// The space as the event at `position` finds it.
    pub open spec fn before(self, events: Seq<Event>, grabs: Seq<bool>, position: int) -> SpaceState {
        self.after_all(events.take(position), grabs.take(position))
    }

    /// Where the event at `position` goes.
    pub open spec fn routed_at(self, events: Seq<Event>, grabs: Seq<bool>, position: int) -> Routed {
        self.before(events, grabs, position).routed(events[position], grabs[position])
    }
}

/// The state an event finds is the state its predecessor left.
pub proof fn lemma_before_next(
    space: SpaceState,
    events: Seq<Event>,
    grabs: Seq<bool>,
    position: int,
)
    requires
        events.len() == grabs.len(),
        0 <= position < events.len(),
    ensures
        space.before(events, grabs, position + 1) == space.before(events, grabs, position).after(
            events[position],
            grabs[position],
        ),
        space.before(events, grabs, 0) == space,
        space.before(events, grabs, events.len() as int) == space.after_all(events, grabs),
{
    assert(events.take(position + 1).drop_last() =~= events.take(position));
    assert(grabs.take(position + 1).drop_last() =~= grabs.take(position));
    assert(events.take(0) =~= Seq::<Event>::empty());
    assert(events.take(events.len() as int) =~= events);
    assert(grabs.take(events.len() as int) =~= grabs);
}

/// Whatever a sequence of events does, it keeps a space well formed.
pub proof fn lemma_before_wf(space: SpaceState, events: Seq<Event>, grabs: Seq<bool>, position: int)
    requires
        space.wf(),
        events.len() == grabs.len(),
        0 <= position <= events.len(),
    ensures
        space.before(events, grabs, position).wf(),
    decreases position,
{
    if position == 0 {
        assert(events.take(0) =~= Seq::<Event>::empty());
    } else {
        lemma_before_wf(space, events, grabs, position - 1);
        lemma_before_next(space, events, grabs, position - 1);
        routing_keeps_wf(
            space.before(events, grabs, position - 1),
            events[position - 1],
            grabs[position - 1],
        );
    }
}

/// In a run of events that all reach the same view, the seat is told of an
/// entry with the first of them at most, and with none of the others.
pub proof fn enter_once_per_run(
    space: SpaceState,
    events: Seq<Event>,
    grabs: Seq<bool>,
    from: int,
    to: int,
    index: usize,
    position: int,
)
    requires
        space.wf(),
        events.len() == grabs.len(),
        0 <= from < position < to <= events.len(),
        forall|k: int|
            from <= k < to ==> (#[trigger] space.routed_at(events, grabs, k)) is View
                && space.routed_at(events, grabs, k)->index == index,
    ensures
        space.routed_at(events, grabs, position)->enter is None,
        space.before(events, grabs, position).pointer_target == Some(index as int),
{
    let earlier = space.before(events, grabs, position - 1);
    lemma_before_wf(space, events, grabs, position - 1);
    lemma_before_wf(space, events, grabs, position);
    lemma_before_next(space, events, grabs, position - 1);
    assert(space.routed_at(events, grabs, position - 1) is View);
    delivery_sets_focus(earlier, events[position - 1], grabs[position - 1]);
    assert(space.routed_at(events, grabs, position) is View);
    delivery_sets_focus(space.before(events, grabs, position), events[position], grabs[position]);
}

/// The event is the up or the cancel of the touch `id`.
pub open spec fn ends_touch(event: Event, id: TouchId) -> bool {
    event == (Event::TouchUp { id }) || event == (Event::TouchCancel { id })
}

/// `events` is one gesture on the strip, from its beginning to its end:
/// the first event is the touch `id` going down inside the idle strip's
/// capture zone, the last is the up or the cancel of that touch, and none
/// between them is. Events of other touches and of other devices may lie
/// between them.
pub open spec fn strip_gesture(space: SpaceState, id: TouchId, events: Seq<Event>) -> bool {
    &&& space.home_bar matches Some(bar)
    &&& bar.is_idle()
    &&& events.len() >= 2
    &&& events[0] matches Event::TouchDown { id: down, location }
    &&& down == id
    &&& bar.in_zone(location.x, location.y)
    &&& ends_touch(events.last(), id)
    &&& forall|k: int| 0 < k < events.len() - 1 ==> !ends_touch(#[trigger] events[k], id)
}

/// From the second event of a strip gesture to its last, the touch of the
/// gesture holds the strip.
pub proof fn lemma_gesture_holds_strip(
    space: SpaceState,
    id: TouchId,
    events: Seq<Event>,
    grabs: Seq<bool>,
    position: int,
)
    requires
        strip_gesture(space, id, events),
        events.len() == grabs.len(),
        0 < position < events.len(),
    ensures
        space.before(events, grabs, position).home_bar matches Some(bar) && bar.capture == Some(
            id,
        ),
    decreases position,
{
    lemma_before_next(space, events, grabs, position - 1);
    if position > 1 {
        lemma_gesture_holds_strip(space, id, events, grabs, position - 1);
    }
}

/// A gesture that begins in the capture zone stays with the strip: each of
/// its events, from the touch-down to the up or cancel that ends it, goes to
/// the strip and to no view. The strip is held from the touch-down on and
/// is idle again exactly when the gesture has ended; the views and the
/// focus are as they would be had the gesture's events never come.
pub proof fn captured_gesture_stays_with_strip(
    space: SpaceState,
    id: TouchId,
    events: Seq<Event>,
    grabs: Seq<bool>,
    position: int,
)
    requires
        strip_gesture(space, id, events),
        events.len() == grabs.len(),
        0 <= position < events.len(),
    ensures
        events[position].touch() == Some(id) ==> {
            &&& space.routed_at(events, grabs, position) matches Routed::Strip { action }
            &&& action == (match events[position] {
                Event::TouchDown { location, .. } => StripAction::Grab { y: location.y },
                Event::TouchMotion { location, .. } => StripAction::Drag { y: location.y },
                _ => StripAction::Release,
            })
            &&& space.before(events, grabs, position + 1).views == space.before(
                events,
                grabs,
                position,
            ).views
            &&& space.before(events, grabs, position + 1).pointer_target == space.before(
                events,
                grabs,
                position,
            ).pointer_target
        },
        position > 0 ==> space.before(events, grabs, position).is_capturing(),
        !space.after_all(events, grabs).is_capturing(),
{
    let last = events.len() - 1;
    lemma_before_next(space, events, grabs, position);
    lemma_before_next(space, events, grabs, last);
    lemma_gesture_holds_strip(space, id, events, grabs, last);
    if position > 0 {
        lemma_gesture_holds_strip(space, id, events, grabs, position);
    }
}

/// A view whose surface is gone receives nothing.
pub proof fn stale_views_receive_nothing(space: SpaceState, event: Event, grabbed: bool)
    requires
        space.wf(),
        space.routed(event, grabbed) is View,
    ensures
        0 <= space.routed(event, grabbed)->index < space.views.len(),
        !space.views[space.routed(event, grabbed)->index as int].is_stale(),
        space.routed(event, grabbed)->surface == space.views[space.routed(
            event,
            grabbed,
        )->index as int].shell,
        event.pointer_class(),
{
    match event.place() {
        Some(at) => lemma_topmost_at(space.views, at),
        None => {},
    }
}

/// A cancelled touch releases the strip exactly as a lifted one does, and
/// leaves the space exactly as a lifted one does.
pub proof fn cancel_releases_like_up(space: SpaceState, id: TouchId, grabbed: bool)
    ensures
        space.after(Event::TouchCancel { id }, grabbed) == space.after(
            Event::TouchUp { id },
            grabbed,
        ),
        space.routed(Event::TouchCancel { id }, grabbed) is Strip <==> space.routed(
            Event::TouchUp { id },
            grabbed,
        ) is Strip,
        space.routed(Event::TouchCancel { id }, grabbed) is Strip ==> space.routed(
            Event::TouchCancel { id },
            grabbed,
        ) == (Routed::Strip { action: StripAction::Release }) && space.routed(
            Event::TouchUp { id },
            grabbed,
        ) == (Routed::Strip { action: StripAction::Release }),
{
}

/// Nothing is remembered of a touch that is over: once a touch has gone up
/// or was cancelled, it does not hold the strip, whoever took the event.
/// The backend may use its identity again for a touch that is new.
pub proof fn finished_touch_is_forgotten(
    space: SpaceState,
    event: Event,
    grabbed: bool,
    id: TouchId,
)
    requires
        ends_touch(event, id),
    ensures
        match space.after(event, grabbed).home_bar {
            Some(bar) => bar.capture != Some(id),
            None => true,
        },
        space.after(event, grabbed).home_bar is Some <==> space.home_bar is Some,
{
}

/// A space.
#[derive(Debug)]
pub struct Space {
    views: Vec<view::View>,
    home_bar: Option<HomeBar>,
    pointer_target: Option<usize>,
}

impl vstd::view::View for Space {
    type V = SpaceState;

    closed spec fn view(&self) -> SpaceState {
        SpaceState {
            views: self.views@,
            home_bar: self.home_bar,
            pointer_target: match self.pointer_target {
                Some(target) => Some(target as int),
                None => None,
            },
        }
    }
}

impl Space {
    #[verifier::type_invariant]
    spec fn inv(self) -> bool {
        match self.pointer_target {
            Some(target) => target < self.views@.len(),
            None => true,
        }
    }

    /// An empty space: no view, no strip yet, no focus.
    pub fn new() -> (space: Space)
        ensures
            space@ == SpaceState::empty(),
    {
        Space { views: Vec::new(), home_bar: None, pointer_target: None }
    }

    /// Puts a view on top of the others.
    pub fn add_view(&mut self, added: view::View)
        ensures
            final(self)@ == old(self)@.with_view(added),
    {
        // The space is taken apart and put together again, so that no step
        // leaves it with a focus that points past its views.
        let mut taken = Space::new();
        core::mem::swap(self, &mut taken);
        proof {
            use_type_invariant(&taken);
        }
        let Space { mut views, home_bar, pointer_target } = taken;
        views.push(added);
        *self = Space { views, home_bar, pointer_target };
    }

    /// The number of views.
    pub fn view_count(&self) -> (count: usize)
        ensures
            count == self@.views.len(),
    {
        self.views.len()
    }

    /// The view at `index`, counted from the back.
    pub fn view_at(&self, index: usize) -> (found: Option<view::View>)
        ensures
            found == (if index < self@.views.len() {
                Some(self@.views[index as int])
            } else {
                None
            }),
    {
        if index < self.views.len() {
            Some(self.views[index])
        } else {
            None
        }
    }

    /// The strip, once a frame has made it.
    pub fn home_bar(&self) -> (bar: Option<HomeBar>)
        ensures
            bar == self@.home_bar,
    {
        self.home_bar
    }

    /// Whether a touch holds the strip of this space.
    pub fn captured(&self) -> (held: bool)
        ensures
            held == self@.is_capturing(),
    {
        match self.home_bar {
            Some(bar) => bar.is_capturing(),
            None => false,
        }
    }

    /// The index of the view that has the focus.
    pub fn pointer_target(&self) -> (target: Option<usize>)
        ensures
            match target {
                Some(index) => self@.pointer_target == Some(index as int),
                None => self@.pointer_target is None,
            },
            self@.wf(),
    {
        proof {
            use_type_invariant(self);
            assert(self.views@.len() == self.views.len());
        }
        self.pointer_target
    }

    /// The topmost view under `at`.
    pub fn hit_test(&self, at: Point) -> (hit: Option<usize>)
        ensures
            match hit {
                Some(index) => topmost_at(self@.views, at) == Some(index as int),
                None => topmost_at(self@.views, at) is None,
            },
    {
        let mut index: usize = self.views.len();
        while index > 0
            invariant
                index <= self.views.len(),
                forall|j: int| index <= j < self.views.len() ==> !(#[trigger] self.views@[j]).holds(at),
            decreases index,
        {
            index = index - 1;
            if self.views[index].contains_point(at) {
                proof {
                    lemma_topmost_at(self.views@, at);
                }
                return Some(index);
            }
        }
        proof {
            lemma_topmost_at(self.views@, at);
        }
        None
    }

    fn position_of(&self, surface: SurfaceId) -> (found: Option<usize>)
        ensures
            match found {
                Some(index) => {
                    &&& index < self@.views.len()
                    &&& first_of_surface(self@.views, surface) == Some(index as int)
                },
                None => first_of_surface(self@.views, surface) is None,
            },
    {
        let mut index: usize = 0;
        while index < self.views.len()
            invariant
                index <= self.views.len(),
                forall|j: int| 0 <= j < index ==> (#[trigger] self.views@[j]).shell != surface,
            decreases self.views.len() - index,
        {
            if self.views[index].shell == surface {
                proof {
                    lemma_first_of_surface(self.views@, surface);
                }
                return Some(index);
            }
            index = index + 1;
        }
        proof {
            lemma_first_of_surface(self.views@, surface);
        }
        None
    }

    /// Whether the space has a view of `surface`.
    pub fn contains_surface(&self, surface: SurfaceId) -> (found: bool)
        ensures
            found == (first_of_surface(self@.views, surface) is Some),
    {
        self.position_of(surface).is_some()
    }

    /// Takes out the first view of `surface` and says whether there was
    /// one. The focus stays on the view it was on; if that view is the one
    /// taken out, the focus is on none.
    pub fn remove_view_for_surface(&mut self, surface: SurfaceId) -> (removed: bool)
        ensures
            removed == (first_of_surface(old(self)@.views, surface) is Some),
            final(self)@ == old(self)@.without_surface(surface),
    {
        match self.position_of(surface) {
            Some(index) => {
                let mut taken = Space::new();
                core::mem::swap(self, &mut taken);
                proof {
                    use_type_invariant(&taken);
                }
                let Space { mut views, home_bar, pointer_target } = taken;
                let focus: Option<usize> = match pointer_target {
                    Some(target) => if target == index {
                        None
                    } else if target > index {
                        Some(target - 1)
                    } else {
                        Some(target)
                    },
                    None => None,
                };
                views.remove(index);
                *self = Space { views, home_bar, pointer_target: focus };
                true
            },
            None => false,
        }
    }

    /// Records the rectangle that `surface` reports now, or, with `None`,
    /// that it is gone. Says whether the space has a view of the surface.
    pub fn set_geometry(&mut self, surface: SurfaceId, geometry: Option<Area>) -> (found: bool)
        ensures
            found == (first_of_surface(old(self)@.views, surface) is Some),
            final(self)@ == old(self)@.with_geometry(surface, geometry),
    {
        proof {
            use_type_invariant(&*self);
        }
        match self.position_of(surface) {
            Some(index) => {
                self.views[index] = view::View { shell: surface, geometry };
                true
            },
            None => false,
        }
    }

    /// Prepares one frame. The first frame makes the strip, for the screen
    /// size it is given; later frames leave it alone. The surfaces are to be
    /// drawn in the order returned, the topmost view first, and the strip
    /// over them.
    pub fn render(&mut self, width: Fixed, height: Fixed) -> (frame: Frame)
        ensures
            final(self)@ == old(self)@.rendered(width, height),
            frame.surfaces@ == surfaces_of(old(self)@.views).reverse(),
            frame.strip == (if old(self)@.is_capturing() {
                SpringStep::Hold
            } else {
                SpringStep::Advance
            }),
    {
        proof {
            use_type_invariant(&*self);
        }
        let bar: HomeBar = match self.home_bar {
            Some(bar) => bar,
            None => HomeBar::new(width, height),
        };
        self.home_bar = Some(bar);
        let ghost names = surfaces_of(self.views@);
        let mut surfaces: Vec<SurfaceId> = Vec::new();
        let mut index: usize = self.views.len();
        while index > 0
            invariant
                index <= self.views.len(),
                names == surfaces_of(self.views@),
                surfaces@.len() == self.views.len() - index,
                forall|j: int| 0 <= j < surfaces@.len() ==> surfaces@[j] == names.reverse()[j],
            decreases index,
        {
            index = index - 1;
            surfaces.push(self.views[index].shell);
        }
        assert(surfaces@ =~= names.reverse());
        Frame { surfaces, strip: bar.render() }
    }

    /// Routes one event.
    ///
    /// `grabbed` says whether the backend reports a pointer or touch grab.
    /// The strip is asked first. An event it does not take goes to the view
    /// that has the focus, if the event has no location or a grab is on, and
    /// else to the topmost view under its location. A view whose surface is
    /// gone receives nothing. An event with a location moves the focus to
    /// where it went, be that another view or none.
    pub fn handle_event(&mut self, event: Event, grabbed: bool) -> (routed: Routed)
        ensures
            routed == old(self)@.routed(event, grabbed),
            final(self)@ == old(self)@.after(event, grabbed),
    {
        proof {
            use_type_invariant(&*self);
        }
        match self.home_bar {
            Some(bar) => {
                if bar.wants_event(&event) {
                    let mut held: HomeBar = bar;
                    let action = held.handle_event(event);
                    self.home_bar = Some(held);
                    return Routed::Strip { action };
                }
            },
            None => {},
        }
        let place: Option<Point> = event.location();
        let follows: bool = event.is_pointer_event() && (grabbed || place.is_none());
        let mut candidate: Option<usize> = None;
        if follows {
            candidate = self.pointer_target;
        }
        if candidate.is_none() {
            match place {
                Some(at) => {
                    candidate = self.hit_test(at);
                    proof {
                        lemma_topmost_at(self.views@, at);
                    }
                },
                None => {},
            }
        }
        let target: Option<(usize, Area)> = match candidate {
            Some(index) => match self.views[index].geometry {
                Some(area) => Some((index, area)),
                None => None,
            },
            None => None,
        };
        let had_focus: Option<usize> = self.pointer_target;
        match target {
            Some((index, area)) => {
                let on_target: bool = match had_focus {
                    Some(focus) => focus == index,
                    None => false,
                };
                let enter: Option<Local> = match place {
                    Some(at) => if on_target {
                        None
                    } else {
                        self.pointer_target = Some(index);
                        Some(area.map_point(at))
                    },
                    None => None,
                };
                let notify: Notify = match event {
                    Event::PointerDown { button } => Notify::Button { button, pressed: true },
                    Event::PointerUp { button } => Notify::Button { button, pressed: false },
                    Event::PointerAxis { source, orientation, delta } => Notify::Axis {
                        source,
                        orientation,
                        delta,
                    },
                    Event::TouchDown { id, location } => Notify::TouchDown {
                        id,
                        at: area.map_point(location),
                    },
                    Event::TouchMotion { id, location } => Notify::TouchMotion {
                        id,
                        at: area.map_point(location),
                    },
                    Event::TouchUp { id } => Notify::TouchUp { id },
                    _ => Notify::Unhandled,
                };
                Routed::View { index, surface: self.views[index].shell, enter, notify }
            },
            None => {
                let leave: bool = place.is_some() && had_focus.is_some();
                if leave {
                    self.pointer_target = None;
                }
                Routed::Dropped { leave, stale: candidate.is_some() }
            },
        }
    }
}

} // verus!
