//! A dense occupant registry: one slot per cell, laid out row by row.
use vstd::prelude::*;
use crate::geometry::CellCoord;

verus! {

/// The identifier stored for an occupied cell.
pub type OccupantId = u64;

/// The cell named in a registry write lies outside the grid.
#[derive(Clone, Copy, Debug, PartialEq, Eq, Structural)]
pub struct OutOfBounds {
    pub x: u16,
    pub y: u16,
}

/// One slot per cell of a `width` by `height` grid; the slot of `(x, y)` is at
/// `y * width + x`.
pub struct OccupantRegistry {
    width: u16,
    height: u16,
    slots: Vec<Option<OccupantId>>,
}

impl View for OccupantRegistry {
    type V = Seq<Option<OccupantId>>;

    closed spec fn view(&self) -> Seq<Option<OccupantId>> {
        self.slots@
    }
}

pub open spec fn slot_index(width: int, x: int, y: int) -> int {
    y * width + x
}

impl OccupantRegistry {
    pub closed spec fn width(&self) -> int {
        self.width as int
    }

    pub closed spec fn height(&self) -> int {
        self.height as int
    }

    /// Every cell of the grid has exactly one slot.
    pub open spec fn wf(&self) -> bool {
        self@.len() == self.width() * self.height()
    }

    pub open spec fn contains(&self, x: int, y: int) -> bool {
        0 <= x < self.width() && 0 <= y < self.height()
    }

    /// What is registered at `(x, y)`, for a cell of the grid.
    pub open spec fn occupant(&self, x: int, y: int) -> Option<OccupantId> {
        self@[slot_index(self.width(), x, y)]
    }

    /// A registry for a `width` by `height` grid with every slot empty.
    pub fn empty(width: u16, height: u16) -> (r: OccupantRegistry)
        ensures
            r.wf(),
            r.width() == width,
            r.height() == height,
            forall|x: int, y: int| r.contains(x, y) ==> r.occupant(x, y).is_none(),
    {
        proof {
            assert(width * height <= 0xffff * 0xffff) by (nonlinear_arith)
                requires 0 <= width <= 0xffff, 0 <= height <= 0xffff;
        }
        let n: usize = (width as u64 * height as u64) as usize;
        let mut slots: Vec<Option<OccupantId>> = Vec::new();
        let mut i: usize = 0;
        while i < n
            invariant
                i <= n,
                n == width * height,
                slots@.len() == i,
                forall|k: int| 0 <= k < i ==> slots@[k].is_none(),
            decreases n - i,
        {
            slots.push(None);
            i = i + 1;
        }
        let r = OccupantRegistry { width, height, slots };
        assert forall|x: int, y: int| r.contains(x, y) implies r.occupant(x, y).is_none() by {
            lemma_slot_in_range(width as int, height as int, x, y);
        }
        r
    }

    /// Where the cell `c` is in the slots, if it is a cell of the grid.
    fn index_of(&self, c: CellCoord) -> (r: Option<usize>)
        requires
            self.wf(),
        ensures
            r.is_some() == self.contains(c.x as int, c.y as int),
            r.is_some() ==> r.unwrap() == slot_index(self.width(), c.x as int, c.y as int)
                && r.unwrap() < self@.len(),
    {
        if c.x < self.width && c.y < self.height {
            proof {
                lemma_slot_in_range(self.width as int, self.height as int, c.x as int, c.y as int);
            }
            Some((c.y as u64 * self.width as u64 + c.x as u64) as usize)
        } else {
            None
        }
    }

    /// What is registered at `c`; `None` for an empty slot or a cell outside the grid.
    pub fn get(&self, c: CellCoord) -> (r: Option<OccupantId>)
        requires
            self.wf(),
        ensures
            r == if self.contains(c.x as int, c.y as int) {
                self.occupant(c.x as int, c.y as int)
            } else {
                None
            },
    {
        match self.index_of(c) {
            Some(i) => self.slots[i],
            None => None,
        }
    }

    /// Registers `id` at `c`, replacing what was there; fails if `c` is outside the grid.
    pub fn set(&mut self, c: CellCoord, id: OccupantId) -> (r: Result<(), OutOfBounds>)
        requires
            old(self).wf(),
        ensures
            final(self).wf(),
            final(self).width() == old(self).width(),
            final(self).height() == old(self).height(),
            r.is_ok() == old(self).contains(c.x as int, c.y as int),
            r.is_ok() ==> final(self)@ == old(self)@.update(
                slot_index(old(self).width(), c.x as int, c.y as int),
                Some(id),
            ),
            r.is_err() ==> r == Err::<(), OutOfBounds>(OutOfBounds { x: c.x, y: c.y })
                && final(self)@ == old(self)@,
    {
        match self.index_of(c) {
            Some(i) => {
                self.slots.set(i, Some(id));
                Ok(())
            },
            None => Err(OutOfBounds { x: c.x, y: c.y }),
        }
    }
}

/// The slot of a cell of the grid lies within the slots, and fits in 32 bits.
pub proof fn lemma_slot_in_range(width: int, height: int, x: int, y: int)
    requires
        0 <= x < width <= 0xffff,
        0 <= y < height <= 0xffff,
    ensures
        0 <= slot_index(width, x, y) < width * height,
        width * height <= 0xffff * 0xffff,
{
    assert(0 <= y * width + x < width * height) by (nonlinear_arith)
        requires 0 <= x < width, 0 <= y < height;
    assert(width * height <= 0xffff * 0xffff) by (nonlinear_arith)
        requires 0 <= width <= 0xffff, 0 <= height <= 0xffff;
}

} // verus!
