//! A grid instance: a placement, a geometry and an occupant registry, and the resolution of
//! world points to the occupants of its cells.
use vstd::prelude::*;
use crate::geometry::{
    candidate_cell, cell_center, in_bounds, invertible, is_invertible, lemma_center_round_trip, locate,
    locate_at, locate_point, valid_geometry, world_center, CellCoord, GridGeometry, Placement,
    WorldPoint,
};
use crate::registry::{lemma_slot_in_range, slot_index, OccupantId, OccupantRegistry, OutOfBounds};

verus! {

/// Why a grid instance could not be created.
#[derive(Clone, Copy, Debug, PartialEq, Eq, Structural)]
pub enum ConfigError {
    /// The grid has no cells: its width or height is zero.
    EmptyGrid,
    /// A cell has zero width or zero height.
    EmptyCell,
    /// The placement's linear part is singular, so it cannot be inverted.
    DegeneratePlacement,
}

/// A cell that a point resolved to, with its occupant.
#[derive(Clone, Copy, Debug, PartialEq, Eq, Structural)]
pub struct TileHit {
    pub cell: CellCoord,
    pub occupant: OccupantId,
}

/// One grid placed in the world, with its occupants.
pub struct GridInstance {
    placement: Placement,
    geometry: GridGeometry,
    registry: OccupantRegistry,
}

impl GridInstance {
    pub closed spec fn place(&self) -> Placement {
        self.placement
    }

    pub closed spec fn geom(&self) -> GridGeometry {
        self.geometry
    }

    pub closed spec fn occupants(&self) -> OccupantRegistry {
        self.registry
    }

    /// The placement can be inverted, the geometry is positive, and the registry has one
    /// slot per cell.
    pub open spec fn wf(&self) -> bool {
        &&& invertible(self.place())
        &&& valid_geometry(self.geom())
        &&& self.occupants().wf()
        &&& self.occupants().width() == self.geom().width
        &&& self.occupants().height() == self.geom().height
    }

    /// The cell that `pt` falls in, if it falls in the grid.
    pub open spec fn locate_spec(&self, pt: WorldPoint) -> Option<(int, int)> {
        locate_point(self.geom(), self.place(), pt)
    }

    /// The occupant of the cell that `pt` falls in.
    pub open spec fn resolve_spec(&self, pt: WorldPoint) -> Option<OccupantId> {
        match self.locate_spec(pt) {
            Some(c) => self.occupants().occupant(c.0, c.1),
            None => None,
        }
    }

    /// The cell that `pt` falls in, with its occupant, if it has one.
    pub open spec fn tile_spec(&self, pt: WorldPoint) -> Option<TileHit> {
        match self.locate_spec(pt) {
            Some(c) => match self.occupants().occupant(c.0, c.1) {
                Some(id) => Some(TileHit { cell: CellCoord { x: c.0 as u16, y: c.1 as u16 }, occupant: id }),
                None => None,
            },
            None => None,
        }
    }

    /// `next` is `prev` with `id` registered at cell `(x, y)`, and nothing else changed.
    pub open spec fn is_set_of(prev: &GridInstance, next: &GridInstance, x: int, y: int, id: OccupantId) -> bool {
        &&& next.place() == prev.place()
        &&& next.geom() == prev.geom()
        &&& next.occupants().width() == prev.occupants().width()
        &&& next.occupants().height() == prev.occupants().height()
        &&& next.occupants()@ == prev.occupants()@.update(
            slot_index(prev.occupants().width(), x, y),
            Some(id),
        )
    }

    /// A grid with every cell empty. Fails if the grid or a cell is empty, or if the
    /// placement cannot be inverted; these are checked in that order.
    pub fn new(placement: Placement, geometry: GridGeometry) -> (r: Result<GridInstance, ConfigError>)
        ensures
            r == Err::<GridInstance, ConfigError>(ConfigError::EmptyGrid)
                <==> (geometry.width == 0 || geometry.height == 0),
            r == Err::<GridInstance, ConfigError>(ConfigError::EmptyCell)
                <==> (geometry.width > 0 && geometry.height > 0
                    && (geometry.cell_width == 0 || geometry.cell_height == 0)),
            r == Err::<GridInstance, ConfigError>(ConfigError::DegeneratePlacement)
                <==> (valid_geometry(geometry) && !invertible(placement)),
            r.is_ok() <==> (valid_geometry(geometry) && invertible(placement)),
            r matches Ok(g) ==> {
                &&& g.wf()
                &&& g.place() == placement
                &&& g.geom() == geometry
                &&& forall|x: int, y: int| in_bounds(geometry, x, y) ==> g.occupants().occupant(x, y).is_none()
            },
    {
        if geometry.width == 0 || geometry.height == 0 {
            return Err(ConfigError::EmptyGrid);
        }
        if geometry.cell_width == 0 || geometry.cell_height == 0 {
            return Err(ConfigError::EmptyCell);
        }
        if !is_invertible(&placement) {
            return Err(ConfigError::DegeneratePlacement);
        }
        let registry = OccupantRegistry::empty(geometry.width, geometry.height);
        let g = GridInstance { placement, geometry, registry };
        assert forall|x: int, y: int| in_bounds(geometry, x, y) implies g.occupants().occupant(x, y).is_none() by {
            assert(registry.contains(x, y));
        }
        Ok(g)
    }

    pub fn placement(&self) -> (r: Placement)
        ensures
            r == self.place(),
    {
        self.placement
    }

    pub fn geometry(&self) -> (r: GridGeometry)
        ensures
            r == self.geom(),
    {
        self.geometry
    }

    /// The cell of this grid that `pt` falls in, if any.
    pub fn locate(&self, pt: &WorldPoint) -> (r: Option<CellCoord>)
        requires
            self.wf(),
        ensures
            self.locate_spec(*pt) == match r {
                Some(c) => Some((c.x as int, c.y as int)),
                None => None::<(int, int)>,
            },
    {
        locate(&self.geometry, &self.placement, pt)
    }

    /// The occupant of the cell that `pt` falls in; `None` where `pt` is outside the grid or
    /// the cell is empty.
    pub fn resolve(&self, pt: &WorldPoint) -> (r: Option<OccupantId>)
        requires
            self.wf(),
        ensures
            r == self.resolve_spec(*pt),
    {
        match self.locate(pt) {
            Some(c) => self.registry.get(c),
            None => None,
        }
    }

    /// The cell that `pt` falls in together with its occupant, if it has one.
    pub fn tile_at(&self, pt: &WorldPoint) -> (r: Option<TileHit>)
        requires
            self.wf(),
        ensures
            r == self.tile_spec(*pt),
    {
        match self.locate(pt) {
            Some(c) => match self.registry.get(c) {
                Some(id) => Some(TileHit { cell: c, occupant: id }),
                None => None,
            },
            None => None,
        }
    }

    /// The world centre of cell `c`, in homogeneous coordinates.
    pub fn cell_center(&self, c: CellCoord) -> (r: WorldPoint)
        ensures
            (r.x as int, r.y as int, r.w as int) == world_center(self.geom(), self.place(), c.x as int, c.y as int),
    {
        cell_center(&self.geometry, &self.placement, c)
    }

    /// What is registered at `c`; `None` for an empty cell or one outside the grid.
    pub fn get(&self, c: CellCoord) -> (r: Option<OccupantId>)
        requires
            self.wf(),
        ensures
            r == if in_bounds(self.geom(), c.x as int, c.y as int) {
                self.occupants().occupant(c.x as int, c.y as int)
            } else {
                None
            },
    {
        self.registry.get(c)
    }

    /// Registers `id` at `c`, replacing any earlier occupant; fails if `c` is outside the grid.
    pub fn set(&mut self, c: CellCoord, id: OccupantId) -> (r: Result<(), OutOfBounds>)
        requires
            old(self).wf(),
        ensures
            final(self).wf(),
            r.is_ok() == in_bounds(old(self).geom(), c.x as int, c.y as int),
            r.is_ok() ==> GridInstance::is_set_of(old(self), final(self), c.x as int, c.y as int, id),
            r.is_err() ==> r == Err::<(), OutOfBounds>(OutOfBounds { x: c.x, y: c.y })
                && final(self).place() == old(self).place()
                && final(self).geom() == old(self).geom()
                && final(self).occupants()@ == old(self).occupants()@,
    {
        self.registry.set(c, id)
    }
}


/// The world centre of any cell of a grid resolves back to that cell, and to its occupant.
pub proof fn lemma_resolve_round_trip(g: &GridInstance, x: int, y: int)
    requires
        g.wf(),
        in_bounds(g.geom(), x, y),
    ensures
        ({
            let c = world_center(g.geom(), g.place(), x, y);
            &&& locate_at(g.geom(), g.place(), c.0, c.1, c.2) == Some((x, y))
            &&& c.2 != 0 && c.2 <= u32::MAX && i64::MIN <= c.0 <= i64::MAX && i64::MIN <= c.1 <= i64::MAX ==>
                g.resolve_spec(WorldPoint { x: c.0 as i64, y: c.1 as i64, w: c.2 as u32 })
                    == g.occupants().occupant(x, y)
        }),
{
    lemma_center_round_trip(g.geom(), g.place(), x, y);
}

/// A point whose cell lies outside the grid resolves to nothing: no coordinate is wrapped
/// or clamped into the grid.
pub proof fn lemma_out_of_range_resolves_to_none(g: &GridInstance, pt: WorldPoint)
    requires
        g.wf(),
    ensures
        ({
            let c = candidate_cell(g.geom(), g.place(), pt.x as int, pt.y as int, pt.w as int);
            !in_bounds(g.geom(), c.0, c.1) ==> g.resolve_spec(pt).is_none() && g.locate_spec(pt).is_none()
        }),
{
}

/// A point in an empty cell resolves to nothing; once an occupant is registered at that
/// cell, the same point resolves to it.
pub proof fn lemma_set_then_resolve(prev: &GridInstance, next: &GridInstance, pt: WorldPoint, x: int, y: int, id: OccupantId)
    requires
        prev.wf(),
        prev.locate_spec(pt) == Some((x, y)),
        GridInstance::is_set_of(prev, next, x, y, id),
    ensures
        prev.occupants().occupant(x, y).is_none() ==> prev.resolve_spec(pt).is_none(),
        next.resolve_spec(pt) == Some(id),
{
    lemma_slot_in_range(prev.geom().width as int, prev.geom().height as int, x, y);
}

/// Resolution depends on the grid's state alone: with the same placement, geometry and
/// occupants, every call gives the same answer.
pub proof fn lemma_resolve_is_repeatable(g1: &GridInstance, g2: &GridInstance, pt: WorldPoint)
    requires
        g1.wf(),
        g2.wf(),
        g1.place() == g2.place(),
        g1.geom() == g2.geom(),
        g1.occupants()@ == g2.occupants()@,
    ensures
        g1.resolve_spec(pt) == g2.resolve_spec(pt),
        g1.tile_spec(pt) == g2.tile_spec(pt),
{
}

} // verus!
