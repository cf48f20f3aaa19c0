//! One application surface as the router sees it.

use vstd::prelude::*;
use crate::geometry::{Area, Local, Point};

verus! {

/// Names a surface of the backend. The router never looks inside it.
pub type SurfaceId = u64;

/// A handle to one surface: its name and the rectangle it last reported.
///
/// The rectangle is `None` once the backend has destroyed the surface. Such a
/// view is stale: it holds no point and maps no location, and stays in its
/// space only until the unmap notification removes it.
#[derive(Clone, Copy, Debug, PartialEq, Eq, Structural)]
pub struct View {
    pub shell: SurfaceId,
    pub geometry: Option<Area>,
}

impl View {
    pub open spec fn is_stale(self) -> bool {
        self.geometry is None
    }

    /// A stale view holds no point.
    pub open spec fn holds(self, point: Point) -> bool {
        match self.geometry {
            Some(area) => area.holds(point),
            None => false,
        }
    }

    /// `point` in surface-local coordinates; nothing for a stale view.
    pub open spec fn local(self, point: Point) -> Option<Local> {
        match self.geometry {
            Some(area) => Some(area.relative(point)),
            None => None,
        }
    }

    pub fn new(shell: SurfaceId, geometry: Area) -> (view: View)
        ensures
            view == (View { shell, geometry: Some(geometry) }),
    {
        View { shell, geometry: Some(geometry) }
    }

    /// Records the rectangle the surface reports now, or that it is gone.
    pub fn set_geometry(&mut self, geometry: Option<Area>)
        ensures
            *final(self) == (View { shell: old(self).shell, geometry }),
    {
        self.geometry = geometry;
    }

    /// The surface to act on, unless it is gone.
    pub fn with_surface(&self) -> (surface: Option<SurfaceId>)
        ensures
            surface == (if self.is_stale() { None } else { Some(self.shell) }),
    {
        match self.geometry {
            Some(_) => Some(self.shell),
            None => None,
        }
    }

    /// Hit test against the surface's rectangle.
    pub fn contains_point(&self, point: Point) -> (inside: bool)
        ensures
            inside == self.holds(point),
    {
        match self.geometry {
            Some(area) => area.contains_point(point),
            None => false,
        }
    }

    /// Maps a location of the space to the surface's own coordinates by
    /// subtracting the surface's origin.
    pub fn map_location(&self, point: Point) -> (local: Option<Local>)
        ensures
            local == self.local(point),
    {
        match self.geometry {
            Some(area) => Some(area.map_point(point)),
            None => None,
        }
    }
}

} // verus!
