//! The pointer tracker: the latest world position of the cursor, and the per-tick query of
//! every grid at that position.
use vstd::prelude::*;
use crate::geometry::WorldPoint;
use crate::grid::{GridInstance, TileHit};

verus! {

/// The latest known world position of the cursor.
#[derive(Clone, Copy, Debug, PartialEq, Eq, Structural)]
pub struct CursorPos(pub WorldPoint);

impl Default for CursorPos {
    /// Far away from any grid, until the cursor first moves.
    fn default() -> (r: CursorPos)
        ensures
            r.0.x == -1000 && r.0.y == -1000 && r.0.w == 1,
    {
        CursorPos(WorldPoint::new(-1000, -1000))
    }
}

/// The position after a run of projection attempts in arrival order: the last one that
/// succeeded, or `prev` if none did.
pub open spec fn last_projected(attempts: Seq<Option<WorldPoint>>, prev: WorldPoint) -> WorldPoint
    decreases attempts.len(),
{
    if attempts.len() == 0 {
        prev
    } else {
        match attempts.last() {
            Some(p) => p,
            None => last_projected(attempts.drop_last(), prev),
        }
    }
}

impl CursorPos {
    /// A tracker that starts at `sentinel`.
    pub fn new(sentinel: WorldPoint) -> (r: CursorPos)
        ensures
            r.0 == sentinel,
    {
        CursorPos(sentinel)
    }

    /// The latest position.
    pub fn current(&self) -> (r: WorldPoint)
        ensures
            r == self.0,
    {
        self.0
    }

    /// Takes the outcome of projecting one cursor event into the world: a position replaces
    /// the current one; `None` (the event was outside the viewport) leaves it as it was.
    pub fn update(&mut self, projected: Option<WorldPoint>)
        ensures
            final(self).0 == match projected {
                Some(p) => p,
                None => old(self).0,
            },
    {
        if let Some(p) = projected {
            self.0 = p;
        }
    }
}

/// Applies the projections of this tick's cursor events in arrival order; the last that
/// succeeded wins.
pub fn update_cursor_pos(cursor_pos: &mut CursorPos, projected: &Vec<Option<WorldPoint>>)
    ensures
        final(cursor_pos).0 == last_projected(projected@, old(cursor_pos).0),
{
    let ghost start = cursor_pos.0;
    let mut i: usize = 0;
    while i < projected.len()
        invariant
            i <= projected@.len(),
            cursor_pos.0 == last_projected(projected@.take(i as int), start),
        decreases projected@.len() - i,
    {
        cursor_pos.update(projected[i]);
        proof {
            assert(projected@.take(i + 1).drop_last() =~= projected@.take(i as int));
            assert(projected@.take(i + 1).last() == projected@[i as int]);
        }
        i = i + 1;
    }
    assert(projected@.take(i as int) =~= projected@);
}

/// Resolves the cursor against each grid, in order: for each, the cell under the cursor and
/// its occupant, or `None` where the cursor is outside that grid or its cell is empty.
pub fn get_tile_on_mouse_position(cursor_pos: &CursorPos, grids: &Vec<GridInstance>) -> (r: Vec<Option<TileHit>>)
    requires
        forall|i: int| 0 <= i < grids@.len() ==> grids@[i].wf(),
    ensures
        r@.len() == grids@.len(),
        forall|i: int| 0 <= i < grids@.len() ==> r@[i] == grids@[i].tile_spec(cursor_pos.0),
{
    let mut hits: Vec<Option<TileHit>> = Vec::new();
    let mut i: usize = 0;
    while i < grids.len()
        invariant
            i <= grids@.len(),
            hits@.len() == i,
            forall|k: int| 0 <= k < grids@.len() ==> grids@[k].wf(),
            forall|k: int| 0 <= k < i ==> hits@[k] == grids@[k].tile_spec(cursor_pos.0),
        decreases grids@.len() - i,
    {
        hits.push(grids[i].tile_at(&cursor_pos.0));
        i = i + 1;
    }
    hits
}

} // verus!
