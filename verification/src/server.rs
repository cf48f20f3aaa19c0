//! The workspace manager: the spaces, their order, and which application
//! lives in which.
//!
//! Spaces are made, never destroyed and never reordered: the space made
//! `n`-th has the identifier `n`, and the one made last is the topmost and
//! receives every event.

use vstd::prelude::*;
use vstd::hash_map::StringHashMap;
use crate::event::{Event, EventError, RawEvent};
use crate::geometry::{Area, Fixed};
use crate::home_bar::SpringStep;
use crate::space::{
    distinct_surfaces, first_of_surface, removal_forgets_the_surface, surfaces_of, Frame, Routed,
    Space, SpaceState,
};
use crate::view;
use crate::view::SurfaceId;

verus! {

pub type SpaceID = u64;

/// What the seat can offer, given the devices that are plugged in.
#[derive(Clone, Copy, Debug, PartialEq, Eq, Structural)]
pub struct Capabilities {
    pub keyboard: bool,
    pub pointer: bool,
    pub touch: bool,
}

/// Where the manager sent an event.
#[derive(Clone, Copy, Debug, PartialEq, Eq, Structural)]
pub enum Delivery {
    /// There is no space yet. The event is ignored.
    NoSpace,
    /// The topmost space routed it.
    ToSpace { id: SpaceID, routed: Routed },
}

/// What to draw for one space in one frame.
#[derive(Clone, Debug, PartialEq, Eq)]
pub struct SpaceFrame {
    pub id: SpaceID,
    pub frame: Frame,
}

/// The manager as contracts speak of it.
pub struct ServerState {
    /// The spaces, each at the index that is its identifier.
    pub spaces: Seq<SpaceState>,
    /// The identifiers from the bottom of the stack to its top.
    pub order: Seq<SpaceID>,
    /// The space of each application identity seen so far.
    pub mapping: Map<Seq<char>, SpaceID>,
    pub keyboards: usize,
    pub pointers: usize,
    pub touch: usize,
    pub pointer_grabbed: bool,
    pub touch_grabbed: bool,
}

impl ServerState {
    pub open spec fn empty() -> ServerState {
        ServerState {
            spaces: Seq::empty(),
            order: Seq::empty(),
            mapping: Map::empty(),
            keyboards: 0,
            pointers: 0,
            touch: 0,
            pointer_grabbed: false,
            touch_grabbed: false,
        }
    }

    /// The order lists every space once, in the order of creation, and
    /// every application identity leads to a space that is there.
    pub open spec fn wf(self) -> bool {
        &&& self.spaces.len() <= usize::MAX
        &&& self.order.len() == self.spaces.len()
        &&& forall|i: int| 0 <= i < self.order.len() ==> #[trigger] self.order[i] == i
        &&& forall|app_id: Seq<char>| #[trigger]
            self.mapping.contains_key(app_id) ==> self.mapping[app_id] < self.spaces.len()
    }

    pub open spec fn capabilities(self) -> Capabilities {
        Capabilities {
            keyboard: self.keyboards > 0,
            pointer: self.pointers > 0,
            touch: self.touch > 0,
        }
    }

    /// The manager with other numbers of plugged-in devices.
    pub open spec fn with_devices(self, keyboards: int, pointers: int, touch: int) -> ServerState {
        ServerState {
            keyboards: keyboards as usize,
            pointers: pointers as usize,
            touch: touch as usize,
            ..self
        }
    }

    pub open spec fn grabbed(self) -> bool {
        self.pointer_grabbed || self.touch_grabbed
    }

    /// The topmost space: the one made last.
    pub open spec fn top(self) -> Option<SpaceID> {
        if self.order.len() == 0 {
            None
        } else {
            Some(self.order.last())
        }
    }

    /// The space with that identifier.
    pub open spec fn space(self, id: SpaceID) -> Option<SpaceState> {
        if id < self.spaces.len() {
            Some(self.spaces[id as int])
        } else {
            None
        }
    }

    /// The space a view of `app_id` goes to: the one of the first view of
    /// that application, or else a new one.
    pub open spec fn space_for(self, app_id: Seq<char>) -> SpaceID {
        if self.mapping.contains_key(app_id) {
            self.mapping[app_id]
        } else {
            self.spaces.len() as SpaceID
        }
    }

    /// The manager with one more view.
    pub open spec fn with_view(self, app_id: Seq<char>, added: view::View) -> ServerState {
        if self.mapping.contains_key(app_id) {
            let id = self.mapping[app_id] as int;
            ServerState { spaces: self.spaces.update(id, self.spaces[id].with_view(added)), ..self }
        } else {
            ServerState {
                spaces: self.spaces.push(SpaceState::empty().with_view(added)),
                order: self.order.push(self.spaces.len() as SpaceID),
                mapping: self.mapping.insert(app_id, self.spaces.len() as SpaceID),
                ..self
            }
        }
    }

    /// The first space, in the order of creation, that has a view of
    /// `surface`.
    pub open spec fn owner_of(self, surface: SurfaceId) -> Option<int> {
        first_owner(self.spaces, surface)
    }

    /// The manager without the first view of `surface` in the first space
    /// that has one.
    pub open spec fn without_surface(self, surface: SurfaceId) -> ServerState {
        match self.owner_of(surface) {
            Some(id) => ServerState {
                spaces: self.spaces.update(id, self.spaces[id].without_surface(surface)),
                ..self
            },
            None => self,
        }
    }

    /// The manager with a new rectangle for the first view of `surface` in
    /// the first space that has one.
    pub open spec fn with_geometry(self, surface: SurfaceId, geometry: Option<Area>) -> ServerState {
        match self.owner_of(surface) {
            Some(id) => ServerState {
                spaces: self.spaces.update(id, self.spaces[id].with_geometry(surface, geometry)),
                ..self
            },
            None => self,
        }
    }

    /// The manager after a frame on a screen of the given size: every
    /// space has its strip.
    pub open spec fn rendered(self, width: Fixed, height: Fixed) -> ServerState {
        ServerState {
            spaces: Seq::new(self.spaces.len(), |id: int| self.spaces[id].rendered(width, height)),
            ..self
        }
    }

    /// What a frame draws for the space `id`.
    pub open spec fn draws(self, id: SpaceID, drawn: SpaceFrame) -> bool {
        &&& drawn.id == id
        &&& drawn.frame.surfaces@ == surfaces_of(self.spaces[id as int].views).reverse()
        &&& drawn.frame.strip == (if self.spaces[id as int].is_capturing() {
            SpringStep::Hold
        } else {
            SpringStep::Advance
        })
    }

    /// Where an event goes once it is converted: to the topmost space, and
    /// to no other.
    pub open spec fn delivered_event(self, event: Event) -> Delivery {
        match self.top() {
            Some(id) => Delivery::ToSpace {
                id,
                routed: self.spaces[id as int].routed(event, self.grabbed()),
            },
            None => Delivery::NoSpace,
        }
    }

    /// The manager after a converted event.
    pub open spec fn after_event(self, event: Event) -> ServerState {
        match self.top() {
            Some(id) => ServerState {
                spaces: self.spaces.update(
                    id as int,
                    self.spaces[id as int].after(event, self.grabbed()),
                ),
                ..self
            },
            None => self,
        }
    }

    /// Where a report of the backend goes, or why it has no event.
    pub open spec fn delivered(self, raw: RawEvent) -> Result<Delivery, EventError> {
        match Event::of_raw(raw) {
            Ok(event) => Ok(self.delivered_event(event)),
            Err(error) => Err(error),
        }
    }

    /// The manager after a report of the backend. A report that has no
    /// event changes nothing.
    pub open spec fn after(self, raw: RawEvent) -> ServerState {
        match Event::of_raw(raw) {
            Ok(event) => self.after_event(event),
            Err(_) => self,
        }
    }
}

/// The index of the first space that has a view of `surface`.
pub open spec fn first_owner(spaces: Seq<SpaceState>, surface: SurfaceId) -> Option<int>
    decreases spaces.len(),
{
    if spaces.len() == 0 {
        None
    } else {
        match first_owner(spaces.drop_last(), surface) {
            Some(id) => Some(id),
            None => if first_of_surface(spaces.last().views, surface) is Some {
                Some(spaces.len() - 1)
            } else {
                None
            },
        }
    }
}

/// `first_owner` finds a space that has a view of the surface, before
/// which no space has one; it finds nothing only where no space has one.
pub proof fn lemma_first_owner(spaces: Seq<SpaceState>, surface: SurfaceId)
    ensures
        match first_owner(spaces, surface) {
            Some(id) => {
                &&& 0 <= id < spaces.len()
                &&& first_of_surface(spaces[id].views, surface) is Some
                &&& forall|j: int|
                    0 <= j < id ==> first_of_surface((#[trigger] spaces[j]).views, surface) is None
            },
            None => forall|j: int|
                0 <= j < spaces.len() ==> first_of_surface(
                    (#[trigger] spaces[j]).views,
                    surface,
                ) is None,
        },
    decreases spaces.len(),
{
    if spaces.len() > 0 {
        let rest = spaces.drop_last();
        lemma_first_owner(rest, surface);
        assert forall|j: int| 0 <= j < rest.len() implies rest[j] == spaces[j] by {}
        match first_owner(rest, surface) {
            Some(id) => {
                assert(rest[id] == spaces[id]);
                assert forall|j: int| 0 <= j < id implies first_of_surface(
                    (#[trigger] spaces[j]).views,
                    surface,
                ) is None by {
                    assert(rest[j] == spaces[j]);
                }
            },
            None => {
                assert forall|j: int| 0 <= j < spaces.len() - 1 implies first_of_surface(
                    (#[trigger] spaces[j]).views,
                    surface,
                ) is None by {
                    assert(rest[j] == spaces[j]);
                }
            },
        }
    }
}

/// Adding a view keeps the manager well formed.
pub proof fn adding_keeps_wf(server: ServerState, app_id: Seq<char>, added: view::View)
    requires
        server.wf(),
        server.spaces.len() < usize::MAX,
    ensures
        server.with_view(app_id, added).wf(),
{
}

/// Two views of one application are in one space: the space of that
/// application, one after the other on top of what it held. The second
/// view makes no space and moves none.
pub proof fn same_application_same_space(
    server: ServerState,
    app_id: Seq<char>,
    first: view::View,
    second: view::View,
)
    requires
        server.wf(),
        server.spaces.len() < usize::MAX,
    ensures
        ({
            let id = server.space_for(app_id);
            let held = if server.mapping.contains_key(app_id) {
                server.spaces[id as int].views
            } else {
                Seq::empty()
            };
            let one = server.with_view(app_id, first);
            let two = one.with_view(app_id, second);
            &&& one.space_for(app_id) == id
            &&& two.space_for(app_id) == id
            &&& one.spaces[id as int].views == held.push(first)
            &&& two.spaces[id as int].views == held.push(first).push(second)
            &&& two.order == one.order
            &&& two.mapping == one.mapping
            &&& two.spaces.len() == one.spaces.len()
            &&& forall|other: int|
                0 <= other < two.spaces.len() && other != id ==> two.spaces[other]
                    == one.spaces[other]
        }),
{
}

/// Two applications that are both new get a space each, in the order in
/// which their views arrive, on top of the spaces that were there; those
/// are not touched.
pub proof fn new_applications_new_spaces(
    server: ServerState,
    first_app: Seq<char>,
    second_app: Seq<char>,
    first: view::View,
    second: view::View,
)
    requires
        server.wf(),
        server.spaces.len() + 1 < usize::MAX,
        first_app != second_app,
        !server.mapping.contains_key(first_app),
        !server.mapping.contains_key(second_app),
    ensures
        ({
            let count = server.spaces.len() as int;
            let two = server.with_view(first_app, first).with_view(second_app, second);
            &&& two.wf()
            &&& two.order == server.order.push(count as SpaceID).push((count + 1) as SpaceID)
            &&& two.spaces.len() == count + 2
            &&& two.spaces.take(count) == server.spaces
            &&& two.spaces[count] == SpaceState::empty().with_view(first)
            &&& two.spaces[count + 1] == SpaceState::empty().with_view(second)
            &&& two.mapping == server.mapping.insert(first_app, count as SpaceID).insert(
                second_app,
                (count + 1) as SpaceID,
            )
        }),
{
    let count = server.spaces.len() as int;
    let two = server.with_view(first_app, first).with_view(second_app, second);
    assert(two.spaces.take(count) =~= server.spaces);
}

/// Removing the view of a surface takes out that one view, from the
/// first space that has one, and nothing else: every other view stays where
/// it is, and so do the spaces, their order and the applications' places.
pub proof fn removal_takes_one_view(server: ServerState, surface: SurfaceId)
    requires
        server.wf(),
    ensures
        ({
            let now = server.without_surface(surface);
            &&& now.wf()
            &&& now.order == server.order
            &&& now.mapping == server.mapping
            &&& now.spaces.len() == server.spaces.len()
            &&& match server.owner_of(surface) {
                None => now == server,
                Some(id) => {
                    &&& 0 <= id < server.spaces.len()
                    &&& first_of_surface(server.spaces[id].views, surface) matches Some(index)
                    &&& 0 <= index < server.spaces[id].views.len()
                    &&& server.spaces[id].views[index].shell == surface
                    &&& now.spaces[id].views == server.spaces[id].views.remove(index)
                    &&& now.spaces[id].home_bar == server.spaces[id].home_bar
                    &&& forall|other: int|
                        0 <= other < server.spaces.len() && other != id ==> now.spaces[other]
                            == server.spaces[other]
                },
            }
        }),
{
    lemma_first_owner(server.spaces, surface);
    match server.owner_of(surface) {
        Some(id) => {
            crate::space::lemma_first_of_surface(server.spaces[id].views, surface);
        },
        None => {},
    }
}

/// Each surface has one view at most, in one space at most.
pub open spec fn surfaces_have_one_place(server: ServerState) -> bool {
    &&& forall|id: int|
        0 <= id < server.spaces.len() ==> distinct_surfaces((#[trigger] server.spaces[id]).views)
    &&& forall|surface: SurfaceId, one: int, other: int|
        0 <= one < other < server.spaces.len() ==> !(first_of_surface(
            (#[trigger] server.spaces[one]).views,
            surface,
        ) is Some && #[trigger] first_of_surface(server.spaces[other].views, surface) is Some)
}

/// Where each surface has one place, removing the view of a surface
/// leaves it no place at all, and every other surface the place it had.
pub proof fn removal_forgets_the_surface_everywhere(server: ServerState, surface: SurfaceId)
    requires
        server.wf(),
        surfaces_have_one_place(server),
    ensures
        server.without_surface(surface).owner_of(surface) is None,
        forall|other: SurfaceId|
            other != surface ==> #[trigger] server.without_surface(surface).owner_of(other)
                == server.owner_of(other),
{
    let now = server.without_surface(surface);
    lemma_first_owner(server.spaces, surface);
    lemma_first_owner(now.spaces, surface);
    match server.owner_of(surface) {
        Some(id) => {
            removal_forgets_the_surface(server.spaces[id], surface);
            assert forall|j: int| 0 <= j < now.spaces.len() implies first_of_surface(
                (#[trigger] now.spaces[j]).views,
                surface,
            ) is None by {
                if j > id {
                    assert(now.spaces[j] == server.spaces[j]);
                    assert(first_of_surface(server.spaces[id].views, surface) is Some);
                } else if j < id {
                    assert(now.spaces[j] == server.spaces[j]);
                }
            }
            assert forall|other: SurfaceId| other != surface implies #[trigger] now.owner_of(other)
                == server.owner_of(other) by {
                lemma_first_owner(server.spaces, other);
                lemma_first_owner(now.spaces, other);
                assert forall|j: int| 0 <= j < now.spaces.len() implies (first_of_surface(
                    (#[trigger] now.spaces[j]).views,
                    other,
                ) is Some <==> first_of_surface(server.spaces[j].views, other) is Some) by {
                    if j != id {
                        assert(now.spaces[j] == server.spaces[j]);
                    }
                }
                match server.owner_of(other) {
                    Some(owner) => {
                        assert(first_of_surface(now.spaces[owner].views, other) is Some);
                        match now.owner_of(other) {
                            Some(found) => {
                                if found < owner {
                                    assert(first_of_surface(server.spaces[found].views, other)
                                        is Some);
                                }
                            },
                            None => {},
                        }
                    },
                    None => {
                        match now.owner_of(other) {
                            Some(found) => {
                                assert(first_of_surface(server.spaces[found].views, other)
                                    is Some);
                            },
                            None => {},
                        }
                    },
                }
            }
        },
        None => {},
    }
}

/// Only the topmost space sees an event. Whatever a report of the backend
/// is, every space below the topmost is after it as it was before, and so
/// are the order and the applications' places; if the report is routed at
/// all, it is the topmost space that routed it.
pub proof fn only_top_space_sees_events(server: ServerState, raw: RawEvent, below: int)
    requires
        server.wf(),
        0 <= below < server.spaces.len() - 1,
    ensures
        server.after(raw).spaces[below] == server.spaces[below],
        server.after(raw).order == server.order,
        server.after(raw).mapping == server.mapping,
        server.after(raw).spaces.len() == server.spaces.len(),
        server.delivered(raw) matches Ok(Delivery::ToSpace { id, .. }) ==> id
            == server.spaces.len() - 1,
        server.delivered(raw) is Ok ==> server.delivered(raw) != Ok::<Delivery, EventError>(
            Delivery::NoSpace,
        ),
{
    assert(server.order[server.order.len() - 1] == server.order.len() - 1);
}

/// The spaces as contracts speak of them.
pub closed spec fn states_of(spaces: Seq<Space>) -> Seq<SpaceState> {
    spaces.map_values(|space: Space| space@)
}

proof fn lemma_states_of(spaces: Seq<Space>)
    ensures
        states_of(spaces).len() == spaces.len(),
        forall|i: int| 0 <= i < spaces.len() ==> (#[trigger] states_of(spaces)[i]) == spaces[i]@,
{
}

/// Replacing one space replaces its state and no other.
proof fn lemma_states_update(before: Seq<Space>, now: Seq<Space>, index: int)
    requires
        0 <= index < before.len(),
        now =~= before.update(index, now[index]),
    ensures
        states_of(now) == states_of(before).update(index, now[index]@),
{
    assert(states_of(now) =~= states_of(before).update(index, now[index]@));
}

/// The workspace manager.
pub struct Server {
    spaces: Vec<Space>,
    space_order: Vec<SpaceID>,
    app_id_mapping: StringHashMap<SpaceID>,
    keyboards: usize,
    pointers: usize,
    touch: usize,
    pointer_grabbed: bool,
    touch_grabbed: bool,
}

impl vstd::view::View for Server {
    type V = ServerState;

    closed spec fn view(&self) -> ServerState {
        ServerState {
            spaces: states_of(self.spaces@),
            order: self.space_order@,
            mapping: self.app_id_mapping@,
            keyboards: self.keyboards,
            pointers: self.pointers,
            touch: self.touch,
            pointer_grabbed: self.pointer_grabbed,
            touch_grabbed: self.touch_grabbed,
        }
    }
}

impl Server {
    #[verifier::type_invariant]
    spec fn inv(self) -> bool {
        &&& self.space_order@.len() == self.spaces@.len()
        &&& forall|i: int| 0 <= i < self.space_order@.len() ==> #[trigger] self.space_order@[i] == i
        &&& forall|app_id: Seq<char>| #[trigger]
            self.app_id_mapping@.contains_key(app_id) ==> self.app_id_mapping@[app_id]
                < self.spaces@.len()
    }

    /// A manager without spaces, devices or grabs.
    pub fn new() -> (server: Server)
        ensures
            server@ == ServerState::empty(),
    {
        let server = Server {
            spaces: Vec::new(),
            space_order: Vec::new(),
            app_id_mapping: StringHashMap::new(),
            keyboards: 0,
            pointers: 0,
            touch: 0,
            pointer_grabbed: false,
            touch_grabbed: false,
        };
        assert(server@.spaces =~= Seq::empty());
        server
    }

    /// What the seat can offer now.
    pub fn capabilities(&self) -> (caps: Capabilities)
        ensures
            caps == self@.capabilities(),
    {
        Capabilities {
            keyboard: self.keyboards > 0,
            pointer: self.pointers > 0,
            touch: self.touch > 0,
        }
    }

    /// The number of keyboards plugged in.
    pub fn keyboards(&self) -> (count: usize)
        ensures
            count == self@.keyboards,
    {
        self.keyboards
    }

    /// The number of pointers plugged in.
    pub fn pointers(&self) -> (count: usize)
        ensures
            count == self@.pointers,
    {
        self.pointers
    }

    /// The number of touch devices plugged in.
    pub fn touches(&self) -> (count: usize)
        ensures
            count == self@.touch,
    {
        self.touch
    }

    /// Counts a keyboard that was plugged in, and says what the seat can
    /// offer now.
    pub fn keyboard_added(&mut self) -> (caps: Capabilities)
        requires
            old(self)@.keyboards < usize::MAX,
        ensures
            final(self)@ == old(self)@.with_devices(
                old(self)@.keyboards + 1,
                old(self)@.pointers as int,
                old(self)@.touch as int,
            ),
            caps == final(self)@.capabilities(),
    {
        proof {
            use_type_invariant(&*self);
        }
        self.keyboards = self.keyboards + 1;
        self.capabilities()
    }

    /// Counts a keyboard that was unplugged.
    pub fn keyboard_removed(&mut self) -> (caps: Capabilities)
        requires
            old(self)@.keyboards > 0,
        ensures
            final(self)@ == old(self)@.with_devices(
                old(self)@.keyboards - 1,
                old(self)@.pointers as int,
                old(self)@.touch as int,
            ),
            caps == final(self)@.capabilities(),
    {
        proof {
            use_type_invariant(&*self);
        }
        self.keyboards = self.keyboards - 1;
        self.capabilities()
    }

    /// Counts a pointer that was plugged in.
    pub fn pointer_added(&mut self) -> (caps: Capabilities)
        requires
            old(self)@.pointers < usize::MAX,
        ensures
            final(self)@ == old(self)@.with_devices(
                old(self)@.keyboards as int,
                old(self)@.pointers + 1,
                old(self)@.touch as int,
            ),
            caps == final(self)@.capabilities(),
    {
        proof {
            use_type_invariant(&*self);
        }
        self.pointers = self.pointers + 1;
        self.capabilities()
    }

    /// Counts a pointer that was unplugged.
    pub fn pointer_removed(&mut self) -> (caps: Capabilities)
        requires
            old(self)@.pointers > 0,
        ensures
            final(self)@ == old(self)@.with_devices(
                old(self)@.keyboards as int,
                old(self)@.pointers - 1,
                old(self)@.touch as int,
            ),
            caps == final(self)@.capabilities(),
    {
        proof {
            use_type_invariant(&*self);
        }
        self.pointers = self.pointers - 1;
        self.capabilities()
    }

    /// Counts a touch device that was plugged in.
    pub fn touch_added(&mut self) -> (caps: Capabilities)
        requires
            old(self)@.touch < usize::MAX,
        ensures
            final(self)@ == old(self)@.with_devices(
                old(self)@.keyboards as int,
                old(self)@.pointers as int,
                old(self)@.touch + 1,
            ),
            caps == final(self)@.capabilities(),
    {
        proof {
            use_type_invariant(&*self);
        }
        self.touch = self.touch + 1;
        self.capabilities()
    }

    /// Counts a touch device that was unplugged.
    pub fn touch_removed(&mut self) -> (caps: Capabilities)
        requires
            old(self)@.touch > 0,
        ensures
            final(self)@ == old(self)@.with_devices(
                old(self)@.keyboards as int,
                old(self)@.pointers as int,
                old(self)@.touch - 1,
            ),
            caps == final(self)@.capabilities(),
    {
        proof {
            use_type_invariant(&*self);
        }
        self.touch = self.touch - 1;
        self.capabilities()
    }

    /// Whether the backend reports a pointer grab.
    pub fn pointer_grabbed(&self) -> (grabbed: bool)
        ensures
            grabbed == self@.pointer_grabbed,
    {
        self.pointer_grabbed
    }

    /// Whether the backend reports a touch grab.
    pub fn touch_grabbed(&self) -> (grabbed: bool)
        ensures
            grabbed == self@.touch_grabbed,
    {
        self.touch_grabbed
    }

    /// Records that a pointer grab began or ended.
    pub fn set_pointer_grabbed(&mut self, grabbed: bool)
        ensures
            final(self)@ == (ServerState { pointer_grabbed: grabbed, ..old(self)@ }),
    {
        proof {
            use_type_invariant(&*self);
        }
        self.pointer_grabbed = grabbed;
    }

    /// Records that a touch grab began or ended.
    pub fn set_touch_grabbed(&mut self, grabbed: bool)
        ensures
            final(self)@ == (ServerState { touch_grabbed: grabbed, ..old(self)@ }),
    {
        proof {
            use_type_invariant(&*self);
        }
        self.touch_grabbed = grabbed;
    }

    /// Puts a view into the space of its application. The first view of an
    /// application makes a new space, on top of all others.
    pub fn add_view(&mut self, app_id: String, added: view::View)
        ensures
            final(self)@ == old(self)@.with_view(app_id@, added),
    {
        proof {
            use_type_invariant(&*self);
        }
        let known: Option<SpaceID> = match self.app_id_mapping.get(app_id.as_str()) {
            Some(id) => Some(*id),
            None => None,
        };
        match known {
            Some(id) => {
                assert(id < self.spaces.len());
                let index: usize = id as usize;
                let mut space = Space::new();
                core::mem::swap(&mut self.spaces[index], &mut space);
                space.add_view(added);
                core::mem::swap(&mut self.spaces[index], &mut space);
                proof {
                    lemma_states_of(old(self).spaces@);
                    lemma_states_update(old(self).spaces@, self.spaces@, index as int);
                }
            },
            None => {
                let mut taken = Server::new();
                core::mem::swap(self, &mut taken);
                let Server {
                    mut spaces,
                    mut space_order,
                    mut app_id_mapping,
                    keyboards,
                    pointers,
                    touch,
                    pointer_grabbed,
                    touch_grabbed,
                } = taken;
                let id: SpaceID = spaces.len() as SpaceID;
                let mut space = Space::new();
                space.add_view(added);
                spaces.push(space);
                space_order.push(id);
                app_id_mapping.insert(app_id, id);
                *self = Server {
                    spaces,
                    space_order,
                    app_id_mapping,
                    keyboards,
                    pointers,
                    touch,
                    pointer_grabbed,
                    touch_grabbed,
                };
                proof {
                    lemma_states_of(old(self).spaces@);
                    lemma_states_of(self.spaces@);
                    assert(self@.spaces =~= old(self)@.with_view(app_id@, added).spaces);
                }
            },
        }
    }

    fn find_owner(&self, surface: SurfaceId) -> (found: Option<usize>)
        ensures
            match found {
                Some(index) => {
                    &&& index < self.spaces@.len()
                    &&& self@.owner_of(surface) == Some(index as int)
                },
                None => self@.owner_of(surface) is None,
            },
    {
        let mut index: usize = 0;
        while index < self.spaces.len()
            invariant
                index <= self.spaces.len(),
                forall|j: int|
                    0 <= j < index ==> first_of_surface(
                        (#[trigger] self@.spaces[j]).views,
                        surface,
                    ) is None,
            decreases self.spaces.len() - index,
        {
            proof {
                lemma_states_of(self.spaces@);
            }
            if self.spaces[index].contains_surface(surface) {
                proof {
                    lemma_first_owner(self@.spaces, surface);
                    assert(first_of_surface(self@.spaces[index as int].views, surface) is Some);
                }
                return Some(index);
            }
            index = index + 1;
        }
        proof {
            lemma_states_of(self.spaces@);
            lemma_first_owner(self@.spaces, surface);
        }
        None
    }

    /// Takes out the view of `surface` and says whether there was one.
    ///
    /// The spaces are searched in the order of their creation, and the
    /// search ends at the first view found: one call removes one view. No
    /// space is made or destroyed.
    pub fn remove_view_for_surface(&mut self, surface: SurfaceId) -> (removed: bool)
        ensures
            removed == (old(self)@.owner_of(surface) is Some),
            final(self)@ == old(self)@.without_surface(surface),
    {
        proof {
            use_type_invariant(&*self);
        }
        match self.find_owner(surface) {
            Some(index) => {
                let mut space = Space::new();
                core::mem::swap(&mut self.spaces[index], &mut space);
                space.remove_view_for_surface(surface);
                core::mem::swap(&mut self.spaces[index], &mut space);
                proof {
                    lemma_states_of(old(self).spaces@);
                    lemma_states_update(old(self).spaces@, self.spaces@, index as int);
                }
                true
            },
            None => false,
        }
    }

    /// Records the rectangle that `surface` reports now, or, with `None`,
    /// that it is gone. Says whether any space has a view of the surface.
    pub fn set_geometry(&mut self, surface: SurfaceId, geometry: Option<Area>) -> (found: bool)
        ensures
            found == (old(self)@.owner_of(surface) is Some),
            final(self)@ == old(self)@.with_geometry(surface, geometry),
    {
        proof {
            use_type_invariant(&*self);
        }
        match self.find_owner(surface) {
            Some(index) => {
                let mut space = Space::new();
                core::mem::swap(&mut self.spaces[index], &mut space);
                space.set_geometry(surface, geometry);
                core::mem::swap(&mut self.spaces[index], &mut space);
                proof {
                    lemma_states_of(old(self).spaces@);
                    lemma_states_update(old(self).spaces@, self.spaces@, index as int);
                }
                true
            },
            None => false,
        }
    }

    /// The space with that identifier.
    pub fn space(&self, id: SpaceID) -> (found: Option<&Space>)
        ensures
            match found {
                Some(space) => self@.space(id) == Some(space@),
                None => self@.space(id) is None,
            },
    {
        proof {
            lemma_states_of(self.spaces@);
        }
        if id < self.spaces.len() as u64 {
            Some(&self.spaces[id as usize])
        } else {
            None
        }
    }

    /// The space with that identifier, to change it in place.
    pub fn space_mut(&mut self, id: SpaceID) -> (found: Option<&mut Space>)
        ensures
            match found {
                Some(space) => {
                    &&& old(self)@.space(id) == Some(space@)
                    &&& final(self)@ == ServerState {
                        spaces: old(self)@.spaces.update(id as int, final(space)@),
                        ..old(self)@
                    }
                },
                None => old(self)@.space(id) is None && final(self)@ == old(self)@,
            },
    {
        proof {
            use_type_invariant(&*self);
            lemma_states_of(self.spaces@);
        }
        if id < self.spaces.len() as u64 {
            let index: usize = id as usize;
            proof {
                let before = self.spaces@;
                assert forall|now: Seq<Space>| now == before.update(index as int, now[index as int])
                    implies #[trigger] states_of(now) == states_of(before).update(
                    index as int,
                    now[index as int]@,
                ) by {
                    lemma_states_update(before, now, index as int);
                }
            }
            Some(&mut self.spaces[index])
        } else {
            None
        }
    }

    /// The identifiers of the spaces, from the bottom of the stack to its
    /// top.
    pub fn space_order(&self) -> (order: &[SpaceID])
        ensures
            order@ == self@.order,
            self@.wf(),
    {
        proof {
            use_type_invariant(self);
            lemma_states_of(self.spaces@);
            assert(self.spaces@.len() == self.spaces.len());
        }
        self.space_order.as_slice()
    }

    /// Prepares one frame of the whole stack.
    ///
    /// The spaces are drawn in the order returned, from the back of the
    /// stack to its front, each with its own surfaces in their drawing
    /// order and its strip over them. A space that had no strip yet gets
    /// one for this screen.
    pub fn render(&mut self, width: Fixed, height: Fixed) -> (frames: Vec<SpaceFrame>)
        ensures
            final(self)@ == old(self)@.rendered(width, height),
            frames@.len() == old(self)@.order.len(),
            forall|k: int|
                0 <= k < frames@.len() ==> old(self)@.draws(
                    old(self)@.order[k],
                    #[trigger] frames@[k],
                ),
    {
        proof {
            use_type_invariant(&*self);
            lemma_states_of(self.spaces@);
        }
        let ghost before = self@;
        let count: usize = self.spaces.len();
        let mut frames: Vec<SpaceFrame> = Vec::new();
        let mut index: usize = 0;
        while index < count
            invariant
                index <= count,
                count == before.spaces.len(),
                before.order.len() == count,
                forall|i: int| 0 <= i < count ==> #[trigger] before.order[i] == i,
                self.spaces@.len() == count,
                self@ == (ServerState { spaces: self@.spaces, ..before }),
                forall|id: int|
                    index <= id < count ==> (#[trigger] self@.spaces[id]) == before.spaces[id],
                forall|id: int|
                    0 <= id < index ==> (#[trigger] self@.spaces[id]) == before.spaces[id].rendered(
                        width,
                        height,
                    ),
                frames@.len() == index,
                forall|k: int|
                    0 <= k < frames@.len() ==> before.draws(before.order[k], #[trigger] frames@[k]),
            decreases count - index,
        {
            let ghost entering = self.spaces@;
            let ghost states = self@.spaces;
            proof {
                use_type_invariant(&*self);
                lemma_states_of(entering);
                assert(states[index as int] == before.spaces[index as int]);
            }
            let mut space = Space::new();
            core::mem::swap(&mut self.spaces[index], &mut space);
            let frame = space.render(width, height);
            core::mem::swap(&mut self.spaces[index], &mut space);
            proof {
                lemma_states_update(entering, self.spaces@, index as int);
                assert(self@.spaces == states.update(
                    index as int,
                    before.spaces[index as int].rendered(width, height),
                ));
                assert forall|id: int| 0 <= id <= index implies (#[trigger] self@.spaces[id])
                    == before.spaces[id].rendered(width, height) by {
                    if id < index {
                        assert(self@.spaces[id] == states[id]);
                    }
                }
                assert forall|id: int| index < id < count implies (#[trigger] self@.spaces[id])
                    == before.spaces[id] by {
                    assert(self@.spaces[id] == states[id]);
                }
                assert(before.order[index as int] == index);
            }
            frames.push(SpaceFrame { id: index as SpaceID, frame });
            index = index + 1;
        }
        proof {
            assert(self@.spaces =~= before.rendered(width, height).spaces);
        }
        frames
    }

    /// Routes one report of the backend.
    ///
    /// A report that has no unified event is an error, and nothing is
    /// routed. Every other goes to the topmost space and to no other;
    /// without any space it is ignored.
    pub fn handle_event(&mut self, raw: RawEvent) -> (delivery: Result<Delivery, EventError>)
        ensures
            delivery == old(self)@.delivered(raw),
            final(self)@ == old(self)@.after(raw),
    {
        proof {
            use_type_invariant(&*self);
            lemma_states_of(self.spaces@);
        }
        let event: Event = match Event::from_raw(raw) {
            Ok(event) => event,
            Err(error) => {
                return Err(error);
            },
        };
        let count: usize = self.space_order.len();
        if count == 0 {
            return Ok(Delivery::NoSpace);
        }
        let id: SpaceID = self.space_order[count - 1];
        let index: usize = count - 1;
        let grabbed: bool = self.pointer_grabbed || self.touch_grabbed;
        // The space is moved out for the call and moved back after it: while
        // it routes, the manager holds an empty space in its place.
        let mut space = Space::new();
        core::mem::swap(&mut self.spaces[index], &mut space);
        let routed = space.handle_event(event, grabbed);
        core::mem::swap(&mut self.spaces[index], &mut space);
        proof {
            lemma_states_update(old(self).spaces@, self.spaces@, index as int);
        }
        Ok(Delivery::ToSpace { id, routed })
    }
}

} // verus!
