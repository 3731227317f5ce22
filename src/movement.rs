use vstd::prelude::*;
use crate::game::{Game, GameView};
use crate::grid::{fits, free_at, lemma_fits_shifted, GridPos, MAX_DIM};
use crate::heap::{Heap, HeapEntry};
use crate::input::{Input, Inputs};
use crate::movement_types::{MoveOffset, MoveX, MoveY};
use crate::piece::{coords_small, lemma_moved_twice, lemma_moved_wf, lemma_wf_coords_small, PieceView};
use crate::timer::Timers;

verus! {

/// Whether every block of the piece, moved as `movement` asks, lands on a
/// free cell: inside the side walls, on or above the floor, and not
/// occupied. A position outside the playfield is never looked up in the heap.
pub fn can_move<M: MoveOffset>(block_pos: &[GridPos; 4], grid_width: i16, movement: M, heap: &Heap) -> (r: bool)
    requires
        1 <= grid_width <= MAX_DIM,
    ensures
        r == fits(grid_width as int, heap.blocks@, block_pos@, movement.offset().0, movement.offset().1),
{
    let offset = movement.to_offset();
    let ghost dx = movement.offset().0;
    let ghost dy = movement.offset().1;
    let mut i: usize = 0;
    while i < 4
        invariant
            i <= 4,
            block_pos@.len() == 4,
            1 <= grid_width <= MAX_DIM,
            dx == movement.offset().0,
            dy == movement.offset().1,
            offset.0 as int == dx,
            offset.1 as int == dy,
            -2 <= offset.0 <= 2,
            -2 <= offset.1 <= 2,
            forall|j: int| 0 <= j < i ==> #[trigger] free_at(grid_width as int, heap.blocks@, block_pos@[j].x + dx, block_pos@[j].y + dy),
        decreases 4 - i,
    {
        let pos = block_pos[i];
        let x: i32 = pos.x as i32 + offset.0 as i32;
        let y: i32 = pos.y as i32 + offset.1 as i32;
        if !heap.is_free(grid_width, x, y) {
            assert(!free_at(grid_width as int, heap.blocks@, block_pos@[i as int].x + dx, block_pos@[i as int].y + dy));
            return false;
        }
        i = i + 1;
    }
    true
}

/// The sideways move that the held keys ask for: none when both or neither
/// of left and right are held.
pub open spec fn lateral_intent(inputs: Inputs) -> MoveX {
    let left = inputs.has(Input::LeftPressed);
    let right = inputs.has(Input::RightPressed);
    if left && !right {
        MoveX::Left
    } else if right && !left {
        MoveX::Right
    } else {
        MoveX::Neutral
    }
}

/// The downward move that a held soft drop asks for.
pub open spec fn soft_drop_intent(inputs: Inputs) -> MoveY {
    if inputs.has(Input::SoftDropPressed) {
        MoveY::Down1
    } else {
        MoveY::Neutral
    }
}

/// The sideways move if the blocks fit after it, else none.
pub open spec fn checked_lateral(width: int, cells: Seq<HeapEntry>, blocks: Seq<GridPos>, m: MoveX) -> MoveX {
    if fits(width, cells, blocks, m.offset().0, m.offset().1) {
        m
    } else {
        MoveX::Neutral
    }
}

/// The downward move if the blocks fit after it; else one row less, if they
/// fit after that; else none.
pub open spec fn checked_drop(width: int, cells: Seq<HeapEntry>, blocks: Seq<GridPos>, m: MoveY) -> MoveY {
    if fits(width, cells, blocks, m.offset().0, m.offset().1) {
        m
    } else if m.raised() == MoveY::Down1 && fits(width, cells, blocks, 0, -1) {
        MoveY::Down1
    } else {
        MoveY::Neutral
    }
}

/// How many rows the blocks, already `k` rows down, can still fall one row
/// at a time, added to `k`.
pub open spec fn drop_from(width: int, cells: Seq<HeapEntry>, blocks: Seq<GridPos>, k: int) -> int
    decreases blocks[0].y - k,
{
    if 0 < blocks.len() && k < blocks[0].y && fits(width, cells, blocks, 0, -(k + 1)) {
        drop_from(width, cells, blocks, k + 1)
    } else {
        k
    }
}

/// How many rows a hard drop moves the blocks down.
pub open spec fn drop_distance(width: int, cells: Seq<HeapEntry>, blocks: Seq<GridPos>) -> int {
    drop_from(width, cells, blocks, 0)
}

/// The translation `(dx, dy)` that the movement part of a step without a
/// hard drop applies to the piece `p`. The sideways and soft-drop repeat
/// countdowns and gravity run; a held move counts only on a step where its
/// countdown fires, and gravity adds a row when it fires. The sideways and
/// the downward move are each checked alone against the piece where it
/// stands.
pub open spec fn movement_offset(g: GameView, p: PieceView, elapsed: u64, inputs: Inputs) -> (int, int) {
    let fired_x = g.timers.move_x.ticked(elapsed).1;
    let fired_y = g.timers.move_y.ticked(elapsed).1;
    let fired_gravity = g.timers.gravity.ticked(elapsed).1;
    let mx = if fired_x { lateral_intent(inputs) } else { MoveX::Neutral };
    let my0 = if fired_y { soft_drop_intent(inputs) } else { MoveY::Neutral };
    let my = if fired_gravity { my0.lowered() } else { my0 };
    (checked_lateral(g.width(), g.cells, p.blocks, mx).offset().0, checked_drop(g.width(), g.cells, p.blocks, my).offset().1)
}

/// The game after the movement part of a step of `elapsed` microseconds.
/// A hard drop moves the piece straight down as far as it fits and marks
/// that the piece must lock now; the timers do not run. Otherwise the
/// countdowns run and the piece moves by [`movement_offset`].
pub open spec fn movement_result(g: GameView, elapsed: u64, inputs: Inputs) -> GameView {
    match g.piece {
        None => g,
        Some(p) => {
            if inputs.has(Input::HardDropJustPressed) {
                let d = drop_distance(g.width(), g.cells, p.blocks);
                GameView { piece: Some(p.moved(0, -d)), hard_drop: true, reset_lock_delay: d > 0, ..g }
            } else {
                let (dx, dy) = movement_offset(g, p, elapsed, inputs);
                GameView {
                    piece: Some(p.moved(dx, dy)),
                    timers: Timers {
                        gravity: g.timers.gravity.ticked(elapsed).0,
                        move_x: g.timers.move_x.ticked(elapsed).0,
                        move_y: g.timers.move_y.ticked(elapsed).0,
                        lock_delay: g.timers.lock_delay,
                    },
                    reset_lock_delay: dx != 0 || dy != 0,
                    ..g
                }
            }
        },
    }
}

/// A hard drop stops on the first row where the blocks would no longer fit
/// one row further down, and every row on the way fits.
pub proof fn lemma_drop_from(width: int, cells: Seq<HeapEntry>, blocks: Seq<GridPos>, k: int)
    requires
        0 < blocks.len(),
        0 <= k,
    ensures
        k <= drop_from(width, cells, blocks, k),
        !fits(width, cells, blocks, 0, -(drop_from(width, cells, blocks, k) + 1)),
        forall|j: int| k < j <= drop_from(width, cells, blocks, k) ==> #[trigger] fits(width, cells, blocks, 0, -j),
    decreases blocks[0].y - k,
{
    if k < blocks[0].y && fits(width, cells, blocks, 0, -(k + 1)) {
        lemma_drop_from(width, cells, blocks, k + 1);
    } else if !(k < blocks[0].y) {
        assert(!free_at(width, cells, blocks[0].x + 0, blocks[0].y + -(k + 1)));
    }
}

/// A hard drop moves the blocks down by a number of rows that fit one by
/// one, and the row below the last one does not fit.
pub proof fn lemma_drop_distance(width: int, cells: Seq<HeapEntry>, blocks: Seq<GridPos>)
    requires
        0 < blocks.len(),
    ensures
        0 <= drop_distance(width, cells, blocks),
        !fits(width, cells, blocks, 0, -(drop_distance(width, cells, blocks) + 1)),
        forall|j: int| 0 < j <= drop_distance(width, cells, blocks) ==> #[trigger] fits(width, cells, blocks, 0, -j),
{
    lemma_drop_from(width, cells, blocks, 0);
}

/// The movement part of a step keeps a well-formed game well-formed.
pub proof fn lemma_movement_wf(g: GameView, elapsed: u64, inputs: Inputs)
    requires
        g.wf(),
    ensures
        movement_result(g, elapsed, inputs).wf(),
{
    if let Some(p) = g.piece {
        let w = g.width();
        lemma_wf_coords_small(p, g.size);
        if inputs.has(Input::HardDropJustPressed) {
            let d = drop_distance(w, g.cells, p.blocks);
            lemma_drop_distance(w, g.cells, p.blocks);
            assert forall|i: int| #![trigger p.blocks[i]] 0 <= i < p.blocks.len() implies 0 <= p.blocks[i].x + 0 < g.size.width && 0 <= p.blocks[i].y + -d by {
                assert(0 <= p.blocks[i].x < g.size.width && 0 <= p.blocks[i].y);
                if d > 0 {
                    assert(fits(w, g.cells, p.blocks, 0, -d));
                    assert(free_at(w, g.cells, p.blocks[i].x + 0, p.blocks[i].y + -d));
                }
            }
            lemma_moved_wf(p, g.size, 0, -d);
        } else {
            let (dx, dy) = movement_offset(g, p, elapsed, inputs);
            assert forall|i: int| #![trigger p.blocks[i]] 0 <= i < p.blocks.len() implies 0 <= p.blocks[i].x + dx < g.size.width && 0 <= p.blocks[i].y + dy by {
                assert(0 <= p.blocks[i].x < g.size.width && 0 <= p.blocks[i].y);
                if dx != 0 {
                    assert(free_at(w, g.cells, p.blocks[i].x + dx, p.blocks[i].y + 0));
                }
                if dy != 0 {
                    assert(free_at(w, g.cells, p.blocks[i].x + 0, p.blocks[i].y + dy));
                }
            }
            lemma_moved_wf(p, g.size, dx, dy);
        }
    }
}

/// Moves the piece as the player's actions, the repeat countdowns and
/// gravity ask, where it fits.
pub fn movement(game: &mut Game, elapsed: u64, inputs: &Inputs)
    requires
        old(game)@.wf(),
    ensures
        final(game)@ == movement_result(old(game)@, elapsed, *inputs),
        final(game)@.wf(),
{
    let mut piece = match game.piece {
        Some(p) => p,
        None => return,
    };
    let grid_width = game.size.width;
    let ghost start = piece@;
    let ghost cells = game.heap.blocks@;
    proof {
        lemma_wf_coords_small(start, game.size);
    }

    // hard drop
    if inputs.get_action_state(Input::HardDropJustPressed) {
        let ghost mut k: int = 0;
        let mut dropped = false;
        assert(start.moved(0, 0).blocks =~= start.blocks);
        while can_move(&piece.blocks, grid_width, MoveY::Down1, &game.heap)
            invariant
                old(game)@.wf(),
                game@ == old(game)@,
                grid_width == game.size.width,
                cells == game.heap.blocks@,
                0 <= k,
                dropped == (k > 0),
                piece@ == start.moved(0, -k),
                piece@.wf(game.size),
                start.blocks.len() == 4,
                forall|i: int| 0 <= i < 4 ==> 0 <= #[trigger] start.blocks[i].y - k,
                drop_from(grid_width as int, cells, start.blocks, k) == drop_distance(grid_width as int, cells, start.blocks),
                coords_small(start),
            decreases start.blocks[0].y - k,
        {
            proof {
                lemma_fits_shifted(grid_width as int, cells, start.blocks, 0, -k, 0, -1);
                assert(fits(grid_width as int, cells, start.blocks, 0, -(k + 1)));
                assert(free_at(grid_width as int, cells, start.blocks[0].x + 0, start.blocks[0].y + -(k + 1)));
                assert(drop_from(grid_width as int, cells, start.blocks, k) == drop_from(grid_width as int, cells, start.blocks, k + 1));
                assert forall|i: int| 0 <= i < 4 implies 0 <= #[trigger] start.blocks[i].y - (k + 1) by {
                    assert(free_at(grid_width as int, cells, start.blocks[i].x + 0, start.blocks[i].y + -(k + 1)));
                }
                assert forall|i: int| #![trigger piece@.blocks[i]] 0 <= i < 4 implies 0 <= piece@.blocks[i].x + 0 < grid_width && 0 <= piece@.blocks[i].y + -1 by {
                    assert(0 <= piece@.blocks[i].x < grid_width);
                    assert(piece@.blocks[i].y == start.blocks[i].y - k);
                }
                lemma_wf_coords_small(piece@, game.size);
                lemma_moved_wf(piece@, game.size, 0, -1);
                lemma_moved_twice(start, 0, -k, 0, -1);
            }
            piece.translate(0, -1);
            dropped = true;
            proof {
                k = k + 1;
            }
        }
        proof {
            lemma_fits_shifted(grid_width as int, cells, start.blocks, 0, -k, 0, -1);
            assert(!fits(grid_width as int, cells, start.blocks, 0, -(k + 1)));
            assert(drop_from(grid_width as int, cells, start.blocks, k) == k);
        }
        game.piece = Some(piece);
        game.hard_drop.set();
        game.reset_lock_delay.set_to(dropped);
        return;
    }

    // the moves that the held keys ask for
    let left = inputs.get_action_state(Input::LeftPressed);
    let right = inputs.get_action_state(Input::RightPressed);
    let mut move_x = if left && !right {
        MoveX::Left
    } else if right && !left {
        MoveX::Right
    } else {
        MoveX::Neutral
    };
    let mut move_y = if inputs.get_action_state(Input::SoftDropPressed) {
        MoveY::Down1
    } else {
        MoveY::Neutral
    };

    // a held move repeats only every so often
    if !game.timers.move_x.tick(elapsed) {
        move_x.set_neutral();
    }
    if !game.timers.move_y.tick(elapsed) {
        move_y.set_neutral();
    }

    // gravity
    if game.timers.gravity.tick(elapsed) {
        move_y.move_down();
    }

    // keep only the moves that are legal
    if !can_move(&piece.blocks, grid_width, move_x, &game.heap) {
        move_x.set_neutral();
    }
    if !can_move(&piece.blocks, grid_width, move_y, &game.heap) {
        move_y.move_up();
        if move_y == MoveY::Down1 && !can_move(&piece.blocks, grid_width, MoveY::Down1, &game.heap) {
            move_y.set_neutral();
        }
    }

    let offset = (move_x, move_y).to_offset();
    proof {
        lemma_movement_wf(old(game)@, elapsed, *inputs);
    }
    piece.translate(offset.0, offset.1);
    game.piece = Some(piece);
    let moved = !(move_x, move_y).is_neutral();
    game.reset_lock_delay.set_to(moved);
}

} // verus!
