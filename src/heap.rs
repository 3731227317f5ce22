use vstd::prelude::*;
use crate::game::{Game, GameView};
use crate::grid::{fits, free_at, GridPos, GridSize, MAX_DIM};
use crate::movement::can_move;
use crate::movement_types::MoveY;
use crate::piece::PieceView;
use crate::timer::Timers;

verus! {

/// State of one cell of the playfield.
#[derive(Clone, Copy, Debug, PartialEq, Eq, Structural)]
pub enum HeapEntry {
    Vacant,
    Occupied,
}

/// The locked blocks: one entry per cell of the visible playfield, row by
/// row from the floor up, the cell `(x, y)` at index `x + y * width`.
pub struct Heap {
    pub blocks: Vec<HeapEntry>,
}

/// Index of the cell `(x, y)`, where it has one.
pub open spec fn cell_index(width: int, cells: Seq<HeapEntry>, p: GridPos) -> Option<int> {
    let i = p.x + p.y * width;
    if 0 <= p.x < width && 0 <= p.y && i < cells.len() {
        Some(i)
    } else {
        None
    }
}

/// The cells with each block written in as occupied; a block above the
/// visible playfield leaves no mark.
pub open spec fn placed(width: int, cells: Seq<HeapEntry>, blocks: Seq<GridPos>) -> Seq<HeapEntry>
    decreases blocks.len(),
{
    if blocks.len() == 0 {
        cells
    } else {
        let c = placed(width, cells, blocks.drop_last());
        match cell_index(width, c, blocks.last()) {
            Some(i) => c.update(i, HeapEntry::Occupied),
            None => c,
        }
    }
}

pub proof fn lemma_placed_len(width: int, cells: Seq<HeapEntry>, blocks: Seq<GridPos>)
    ensures
        placed(width, cells, blocks).len() == cells.len(),
    decreases blocks.len(),
{
    if blocks.len() > 0 {
        lemma_placed_len(width, cells, blocks.drop_last());
    }
}

impl Heap {
    /// Marks the cell of `pos` as occupied, where the playfield has one.
    pub fn occupy(&mut self, width: i16, pos: GridPos)
        requires
            1 <= width <= MAX_DIM,
        ensures
            final(self).blocks@ == match cell_index(width as int, old(self).blocks@, pos) {
                Some(i) => old(self).blocks@.update(i, HeapEntry::Occupied),
                None => old(self).blocks@,
            },
    {
        if pos.x < 0 || pos.x >= width || pos.y < 0 {
            return;
        }
        proof {
            assert(0 <= pos.y * width <= 32767 * 1024) by (nonlinear_arith)
                requires 0 <= pos.y <= 32767, 1 <= width <= 1024;
        }
        let idx: usize = (pos.x as usize) + (pos.y as usize) * (width as usize);
        if idx < self.blocks.len() {
            self.blocks.set(idx, HeapEntry::Occupied);
        }
    }

    /// An empty playfield of the given size.
    pub fn new(size: GridSize) -> (r: Heap)
        requires
            size.wf(),
        ensures
            r.blocks@.len() == size.cell_count(),
            forall|i: int| 0 <= i < r.blocks@.len() ==> r.blocks@[i] == HeapEntry::Vacant,
    {
        proof {
            assert(0 <= size.width * size.height <= 1024 * 1024) by (nonlinear_arith)
                requires 1 <= size.width <= 1024, 1 <= size.height <= 1024;
        }
        let n: usize = (size.width as usize) * (size.height as usize);
        let mut blocks: Vec<HeapEntry> = Vec::new();
        let mut i: usize = 0;
        while i < n
            invariant
                i <= n,
                n == size.cell_count(),
                blocks@.len() == i,
                forall|j: int| 0 <= j < i ==> blocks@[j] == HeapEntry::Vacant,
            decreases n - i,
        {
            blocks.push(HeapEntry::Vacant);
            i = i + 1;
        }
        Heap { blocks }
    }

    /// Whether the cell `(x, y)`, moved by nothing, can hold a block.
    pub fn is_free(&self, width: i16, x: i32, y: i32) -> (r: bool)
        requires
            1 <= width <= MAX_DIM,
            -65536 <= x <= 65536,
            -65536 <= y <= 65536,
        ensures
            r == free_at(width as int, self.blocks@, x as int, y as int),
    {
        if x < 0 || x >= width as i32 || y < 0 {
            return false;
        }
        proof {
            assert(0 <= y * width <= 65536 * 1024) by (nonlinear_arith)
                requires 0 <= y <= 65536, 1 <= width <= 1024;
        }
        let idx: usize = (x as usize) + (y as usize) * (width as usize);
        if idx >= self.blocks.len() {
            true
        } else {
            match self.blocks[idx] {
                HeapEntry::Vacant => true,
                HeapEntry::Occupied => false,
            }
        }
    }
}

/// Some block lies in one of the two top rows of the playfield, or above.
pub open spec fn tops_out(blocks: Seq<GridPos>, height: int) -> bool {
    exists|i: int| 0 <= i < blocks.len() && #[trigger] blocks[i].y >= height - 2
}

/// The game after the piece `p` locks: its blocks are written into the
/// heap, no piece is under control, and the game is lost when a block
/// reached the two top rows.
pub open spec fn locked(g: GameView, p: PieceView) -> GameView {
    GameView {
        cells: placed(g.width(), g.cells, p.blocks),
        piece: None,
        hard_drop: false,
        lost: tops_out(p.blocks, g.size.height as int),
        ..g
    }
}

/// The game with its lock delay replaced by `t`.
pub open spec fn with_lock_delay(g: GameView, t: crate::timer::Countdown) -> GameView {
    GameView { timers: Timers { lock_delay: t, ..g.timers }, ..g }
}

/// The game after the lock part of a step of `elapsed` microseconds, and
/// whether the piece locked. A hard-dropped piece locks at once. A piece
/// that can still fall, or that moved or turned during this step, has its
/// lock delay restarted. Otherwise the lock delay runs, and the piece locks
/// when it fires.
pub open spec fn lock_result(g: GameView, elapsed: u64) -> (GameView, bool) {
    match g.piece {
        None => (g, false),
        Some(p) => {
            if g.hard_drop {
                (locked(g, p), true)
            } else if fits(g.width(), g.cells, p.blocks, 0, -1) || g.reset_lock_delay {
                (with_lock_delay(g, g.timers.lock_delay.restarted()), false)
            } else {
                let (t, fired) = g.timers.lock_delay.ticked(elapsed);
                if fired {
                    (locked(with_lock_delay(g, t), p), true)
                } else {
                    (with_lock_delay(g, t), false)
                }
            }
        },
    }
}

/// The lock part of a step keeps a well-formed game well-formed.
pub proof fn lemma_lock_wf(g: GameView, elapsed: u64)
    requires
        g.wf(),
    ensures
        lock_result(g, elapsed).0.wf(),
{
    if let Some(p) = g.piece {
        lemma_placed_len(g.width(), g.cells, p.blocks);
    }
}

/// Locks the piece into the heap when a hard drop happened or its lock delay
/// ran out; returns whether it locked.
pub fn lock(game: &mut Game, elapsed: u64) -> (r: bool)
    requires
        old(game)@.wf(),
    ensures
        (final(game)@, r) == lock_result(old(game)@, elapsed),
        final(game)@.wf(),
{
    let piece = match game.piece {
        Some(p) => p,
        None => return false,
    };
    let grid_width = game.size.width;
    if !game.hard_drop.get() {
        if can_move(&piece.blocks, grid_width, MoveY::Down1, &game.heap) || game.reset_lock_delay.get() {
            game.timers.lock_delay.reset();
            return false;
        }
        if !game.timers.lock_delay.tick(elapsed) {
            return false;
        }
    }
    let ghost before = game@;
    let ghost blocks = piece@.blocks;

    // mark the piece's cells in the heap as occupied
    let mut i: usize = 0;
    while i < 4
        invariant
            0 <= i <= 4,
            1 <= grid_width <= MAX_DIM,
            grid_width == game.size.width,
            blocks == piece@.blocks,
            blocks.len() == 4,
            game@ == (GameView { cells: placed(grid_width as int, before.cells, blocks.subrange(0, i as int)), ..before }),
        decreases 4 - i,
    {
        game.heap.occupy(grid_width, piece.blocks[i]);
        proof {
            let s = blocks.subrange(0, i + 1);
            assert(s.drop_last() =~= blocks.subrange(0, i as int));
            assert(s.last() == blocks[i as int]);
        }
        i = i + 1;
    }
    assert(blocks.subrange(0, 4) =~= blocks);
    proof {
        lemma_placed_len(grid_width as int, before.cells, blocks);
    }
    game.piece = None;
    game.hard_drop.reset();

    // a block in the two top rows loses the game
    let mut top = false;
    let mut j: usize = 0;
    while j < 4
        invariant
            0 <= j <= 4,
            blocks == piece@.blocks,
            blocks.len() == 4,
            1 <= game.size.height <= MAX_DIM,
            top == exists|k: int| 0 <= k < j && #[trigger] blocks[k].y >= game.size.height - 2,
        decreases 4 - j,
    {
        if piece.blocks[j].y >= game.size.height - 2 {
            top = true;
        }
        j = j + 1;
    }
    game.lost = top;
    true
}

} // verus!
