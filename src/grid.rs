use vstd::prelude::*;
use crate::heap::HeapEntry;

verus! {

/// Largest width or height of a playfield. It keeps every coordinate that a
/// piece can reach, and every cell index, far inside the integer types used.
pub const MAX_DIM: i16 = 1024;

/// Dimensions of the playfield, in cells.
#[derive(Clone, Copy, Debug, PartialEq, Eq, Structural)]
pub struct GridSize {
    pub width: i16,
    pub height: i16,
}

/// Another name for [`GridSize`].
pub type Matrix = GridSize;

impl GridSize {
    pub open spec fn wf(self) -> bool {
        1 <= self.width <= MAX_DIM && 1 <= self.height <= MAX_DIM
    }

    /// Number of cells inside the visible playfield.
    pub open spec fn cell_count(self) -> int {
        self.width * self.height
    }
}

/// A cell coordinate. `x` grows to the right and `y` grows upwards; row 0 is
/// the floor of the playfield.
#[derive(Clone, Copy, Debug, PartialEq, Eq, Structural)]
pub struct GridPos {
    pub x: i16,
    pub y: i16,
}

/// Another name for [`GridPos`].
pub type MatrixPosition = GridPos;

impl GridPos {
    /// The position moved by `(dx, dy)`.
    pub open spec fn shift(self, dx: int, dy: int) -> GridPos {
        GridPos { x: (self.x + dx) as i16, y: (self.y + dy) as i16 }
    }

    pub fn add(self, rhs: (i16, i16)) -> (r: GridPos)
        requires
            i16::MIN <= self.x + rhs.0 <= i16::MAX,
            i16::MIN <= self.y + rhs.1 <= i16::MAX,
        ensures
            r.x == self.x + rhs.0,
            r.y == self.y + rhs.1,
    {
        GridPos { x: self.x + rhs.0, y: self.y + rhs.1 }
    }

    pub fn add_assign(&mut self, rhs: (i16, i16))
        requires
            i16::MIN <= old(self).x + rhs.0 <= i16::MAX,
            i16::MIN <= old(self).y + rhs.1 <= i16::MAX,
        ensures
            final(self).x == old(self).x + rhs.0,
            final(self).y == old(self).y + rhs.1,
    {
        self.x = self.x + rhs.0;
        self.y = self.y + rhs.1;
    }
}

/// Cell `(x, y)` can hold a block: it lies within the side walls and above
/// the floor, and is not occupied. Cells above the visible playfield have no
/// entry and are always vacant.
pub open spec fn free_at(width: int, cells: Seq<HeapEntry>, x: int, y: int) -> bool {
    &&& 0 <= x < width
    &&& 0 <= y
    &&& (x + y * width >= cells.len() || cells[x + y * width] == HeapEntry::Vacant)
}

/// The blocks, each moved by `(dx, dy)`.
pub open spec fn shifted(blocks: Seq<GridPos>, dx: int, dy: int) -> Seq<GridPos> {
    blocks.map_values(|p: GridPos| p.shift(dx, dy))
}

/// Every block moved by `(dx, dy)` lands on a free cell.
pub open spec fn fits(width: int, cells: Seq<HeapEntry>, blocks: Seq<GridPos>, dx: int, dy: int) -> bool {
    forall|i: int| 0 <= i < blocks.len() ==> #[trigger] free_at(width, cells, blocks[i].x + dx, blocks[i].y + dy)
}

/// Moving the blocks first and then testing them moved again is the same
/// as testing them moved by the sum.
pub proof fn lemma_fits_shifted(width: int, cells: Seq<HeapEntry>, blocks: Seq<GridPos>, dx: int, dy: int, ex: int, ey: int)
    requires
        forall|i: int| #![trigger blocks[i]] 0 <= i < blocks.len() ==> i16::MIN <= blocks[i].x + dx <= i16::MAX && i16::MIN <= blocks[i].y + dy <= i16::MAX,
    ensures
        fits(width, cells, shifted(blocks, dx, dy), ex, ey) == fits(width, cells, blocks, dx + ex, dy + ey),
{
    let s = shifted(blocks, dx, dy);
    if fits(width, cells, s, ex, ey) {
        assert forall|i: int| 0 <= i < blocks.len() implies #[trigger] free_at(width, cells, blocks[i].x + (dx + ex), blocks[i].y + (dy + ey)) by {
            assert(free_at(width, cells, s[i].x + ex, s[i].y + ey));
        }
    }
    if fits(width, cells, blocks, dx + ex, dy + ey) {
        assert forall|i: int| 0 <= i < s.len() implies #[trigger] free_at(width, cells, s[i].x + ex, s[i].y + ey) by {
            assert(free_at(width, cells, blocks[i].x + (dx + ex), blocks[i].y + (dy + ey)));
        }
    }
}

/// Two moves in a row are one move by the sum.
pub proof fn lemma_shifted_twice(blocks: Seq<GridPos>, dx: int, dy: int, ex: int, ey: int)
    requires
        forall|i: int| 0 <= i < blocks.len() ==> i16::MIN <= #[trigger] blocks[i].x + dx <= i16::MAX && i16::MIN <= blocks[i].y + dy <= i16::MAX,
    ensures
        shifted(shifted(blocks, dx, dy), ex, ey) =~= shifted(blocks, dx + ex, dy + ey),
{
}

} // verus!
