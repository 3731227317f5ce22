use vstd::prelude::*;
use crate::game::{step_result, GameView};
use crate::grid::{fits, free_at, lemma_fits_shifted, GridSize, MAX_DIM};
use crate::heap::{lemma_lock_wf, lock_result, placed, tops_out, HeapEntry};
use crate::input::{Input, Inputs};
use crate::movement::{drop_distance, lemma_drop_distance, lemma_movement_wf, movement_offset, movement_result};
use crate::piece::{coords_small, lemma_spawn_wf, lemma_wf_coords_small, PieceView, Shape};
use crate::rotation::{
    first_kick, lemma_first_kick_fits, lemma_rotation_step_wf, lemma_turned_near_pivot, rotated_pos, rotation_result,
    rotation_step, turned, wall_kicks, Rotate,
};

verus! {

/// Every block of the piece stays within the side walls and on or above
/// the floor: a step keeps a well-formed game well-formed, and a
/// well-formed game's piece lies in bounds.
pub proof fn lemma_step_in_bounds(g: GameView, elapsed: u64, inputs: Inputs, next: Shape)
    requires
        g.wf(),
    ensures
        step_result(g, elapsed, inputs, next).0.wf(),
        step_result(g, elapsed, inputs, next).0.piece matches Some(p) ==> p.in_bounds(g.size),
{
    if !g.lost {
        let g1 = if g.piece is Some {
            let m = movement_result(g, elapsed, inputs);
            lemma_movement_wf(g, elapsed, inputs);
            lemma_rotation_step_wf(m, inputs);
            lemma_lock_wf(rotation_step(m, inputs), elapsed);
            crate::heap::lock_result(rotation_step(m, inputs), elapsed).0
        } else {
            g
        };
        if g1.piece is None && !g1.lost {
            lemma_spawn_wf(g1, next);
        }
    }
}

/// A lock that is due, of a piece with a block in the two top rows, loses
/// the game: the piece is written into the heap and gone, and from then on
/// neither a lock nor a whole step changes anything or signals again.
pub proof fn lemma_top_out_loses_once(g: GameView, elapsed: u64, later: u64, inputs: Inputs, next: Shape)
    requires
        g.wf(),
        g.piece is Some,
        tops_out(g.piece->0.blocks, g.size.height as int),
        g.hard_drop || ({
            &&& !fits(g.width(), g.cells, g.piece->0.blocks, 0, -1)
            &&& !g.reset_lock_delay
            &&& elapsed >= g.timers.lock_delay.remaining
        }),
    ensures
        lock_result(g, elapsed).1,
        lock_result(g, elapsed).0.lost,
        lock_result(g, elapsed).0.piece is None,
        lock_result(g, elapsed).0.cells == placed(g.width(), g.cells, g.piece->0.blocks),
        lock_result(lock_result(g, elapsed).0, later) == (lock_result(g, elapsed).0, false),
        step_result(lock_result(g, elapsed).0, later, inputs, next) == (lock_result(g, elapsed).0, false),
{
}

/// A turn that fits needs no kick and leaves the pivot where it is.
proof fn lemma_unkicked(width: int, cells: Seq<HeapEntry>, piece: PieceView, rotate: Rotate)
    requires
        piece.near_pivot(),
        coords_small(piece),
        fits(width, cells, turned(piece, rotate).blocks, 0, 0),
    ensures
        rotation_result(width, cells, piece, rotate) == (turned(piece, rotate), true),
{
    let t = turned(piece, rotate);
    lemma_turned_near_pivot(piece, rotate);
    assert(wall_kicks()[0] == (0int, 0int));
    assert(first_kick(width, cells, t.blocks, 0) == Some(0int));
    assert(t.moved(0, 0).blocks =~= t.blocks);
}

/// Turning a piece clockwise and then counter-clockwise brings it back to
/// where it was, when it fits where it stands and the clockwise turn fits
/// without a kick.
pub proof fn lemma_rotation_round_trip(size: GridSize, cells: Seq<HeapEntry>, piece: PieceView)
    requires
        size.wf(),
        piece.wf(size),
        fits(size.width as int, cells, piece.blocks, 0, 0),
        fits(size.width as int, cells, turned(piece, Rotate::Clockwise).blocks, 0, 0),
    ensures
        rotation_result(size.width as int, cells, piece, Rotate::Clockwise).1,
        rotation_result(
            size.width as int,
            cells,
            rotation_result(size.width as int, cells, piece, Rotate::Clockwise).0,
            Rotate::Counterclockwise,
        ) == (piece, true),
{
    let w = size.width as int;
    lemma_wf_coords_small(piece, size);
    lemma_unkicked(w, cells, piece, Rotate::Clockwise);
    let q = turned(piece, Rotate::Clockwise);
    lemma_turned_near_pivot(piece, Rotate::Clockwise);
    let back = turned(q, Rotate::Counterclockwise);
    assert forall|i: int| 0 <= i < piece.blocks.len() implies #[trigger] back.blocks[i] == piece.blocks[i] by {
        let b = piece.blocks[i];
        assert(-10 <= b.x <= MAX_DIM + 10 && -10 <= b.y <= MAX_DIM + 10);
        let lo: int = if piece.origin.mode == crate::piece::OriginMode::PointCentered { -2 } else { -1 };
        assert(lo <= b.x - piece.origin.pos.x <= 1 && lo <= b.y - piece.origin.pos.y <= 1);
        assert(q.blocks[i] == rotated_pos(b, piece.origin, Rotate::Clockwise));
    }
    assert(back.blocks =~= piece.blocks);
    lemma_unkicked(w, cells, q, Rotate::Counterclockwise);
}

/// A hard drop leaves the piece on the lowest row it can reach by falling
/// straight down, and locks it there in the same step, however long the
/// step lasted: every row on the way fits, the row below does not, and the
/// heap then holds the piece's blocks on that row.
pub proof fn lemma_hard_drop(g: GameView, elapsed: u64, inputs: Inputs, next: Shape)
    requires
        g.wf(),
        g.piece is Some,
        inputs.has(Input::HardDropJustPressed),
    ensures
        ({
            let p = g.piece->0;
            let d = drop_distance(g.width(), g.cells, p.blocks);
            &&& 0 <= d
            &&& forall|j: int| 0 < j <= d ==> #[trigger] fits(g.width(), g.cells, p.blocks, 0, -j)
            &&& !fits(g.width(), g.cells, p.blocks, 0, -(d + 1))
            &&& step_result(g, elapsed, inputs, next).0.cells == placed(g.width(), g.cells, p.moved(0, -d).blocks)
        }),
{
    let p = g.piece->0;
    lemma_drop_distance(g.width(), g.cells, p.blocks);
}

/// No block of the piece lies on an occupied cell.
pub open spec fn no_overlap(g: GameView) -> bool {
    g.piece matches Some(p) ==> fits(g.width(), g.cells, p.blocks, 0, 0)
}

/// The sideways and the downward move of a step, each checked alone, also
/// fit when made together. A step where they do not would carry the piece
/// diagonally onto an occupied cell.
pub open spec fn moves_fit_together(g: GameView, elapsed: u64, inputs: Inputs) -> bool {
    g.piece matches Some(p) ==> (inputs.has(Input::HardDropJustPressed) || {
        let (dx, dy) = movement_offset(g, p, elapsed, inputs);
        dx == 0 || dy == 0 || fits(g.width(), g.cells, p.blocks, dx, dy)
    })
}

proof fn lemma_movement_no_overlap(g: GameView, elapsed: u64, inputs: Inputs)
    requires
        g.wf(),
        no_overlap(g),
        moves_fit_together(g, elapsed, inputs),
    ensures
        no_overlap(movement_result(g, elapsed, inputs)),
{
    if let Some(p) = g.piece {
        let w = g.width();
        lemma_wf_coords_small(p, g.size);
        if inputs.has(Input::HardDropJustPressed) {
            let d = drop_distance(w, g.cells, p.blocks);
            lemma_drop_distance(w, g.cells, p.blocks);
            assert(fits(w, g.cells, p.blocks, 0, -d));
            assert forall|i: int| #![trigger p.blocks[i]] 0 <= i < p.blocks.len() implies i16::MIN <= p.blocks[i].x + 0 <= i16::MAX && i16::MIN <= p.blocks[i].y + -d <= i16::MAX by {
                assert(free_at(w, g.cells, p.blocks[i].x + 0, p.blocks[i].y + -d));
            }
            lemma_fits_shifted(w, g.cells, p.blocks, 0, -d, 0, 0);
        } else {
            let (dx, dy) = movement_offset(g, p, elapsed, inputs);
            assert(fits(w, g.cells, p.blocks, dx, dy)) by {
                if dx == 0 && dy != 0 {
                    assert(fits(w, g.cells, p.blocks, 0, dy));
                } else if dx != 0 && dy == 0 {
                    assert(fits(w, g.cells, p.blocks, dx, 0));
                }
            }
            lemma_fits_shifted(w, g.cells, p.blocks, dx, dy, 0, 0);
        }
    }
}

proof fn lemma_rotation_no_overlap(g: GameView, inputs: Inputs)
    requires
        g.wf(),
        no_overlap(g),
    ensures
        no_overlap(rotation_step(g, inputs)),
{
    if let (Some(p), Some(rotate)) = (g.piece, crate::rotation::rotate_request(inputs)) {
        let w = g.width();
        let t = turned(p, rotate);
        lemma_wf_coords_small(p, g.size);
        lemma_turned_near_pivot(p, rotate);
        if first_kick(w, g.cells, t.blocks, 0) is Some {
            lemma_first_kick_fits(w, g.cells, t.blocks, 0);
            let j = first_kick(w, g.cells, t.blocks, 0)->0;
            lemma_fits_shifted(w, g.cells, t.blocks, wall_kicks()[j].0, wall_kicks()[j].1, 0, 0);
        }
    }
}

/// No block of the piece ever lies on an occupied cell at the end of a
/// step, on every step whose sideways and downward moves fit together.
pub proof fn lemma_step_no_overlap(g: GameView, elapsed: u64, inputs: Inputs, next: Shape)
    requires
        g.wf(),
        no_overlap(g),
        moves_fit_together(g, elapsed, inputs),
    ensures
        no_overlap(step_result(g, elapsed, inputs, next).0),
{
    if !g.lost && g.piece is Some {
        let m = movement_result(g, elapsed, inputs);
        lemma_movement_wf(g, elapsed, inputs);
        lemma_movement_no_overlap(g, elapsed, inputs);
        lemma_rotation_no_overlap(m, inputs);
    }
}

/// No action signalled.
pub open spec fn idle(inputs: Inputs) -> bool {
    forall|a: Input| !inputs.has(a)
}

/// The piece cannot fall one more row.
pub open spec fn grounded(g: GameView) -> bool {
    g.piece matches Some(p) && !fits(g.width(), g.cells, p.blocks, 0, -1)
}

/// The sum of the step lengths.
pub open spec fn total(steps: Seq<u64>) -> int
    decreases steps.len(),
{
    if steps.len() == 0 {
        0
    } else {
        total(steps.drop_last()) + steps.last()
    }
}

/// The game after steps of the given lengths, one after the other, all with
/// the same actions and the same next shape.
pub open spec fn run(g: GameView, steps: Seq<u64>, inputs: Inputs, next: Shape) -> GameView
    decreases steps.len(),
{
    if steps.len() == 0 {
        g
    } else {
        step_result(run(g, steps.drop_last(), inputs, next), steps.last(), inputs, next).0
    }
}

/// `h` is `g` with its grounded piece `p` still in place, `left`
/// microseconds of lock delay to go.
spec fn waiting(h: GameView, g: GameView, p: PieceView, left: int) -> bool {
    &&& h.wf()
    &&& h.size == g.size
    &&& h.cells == g.cells
    &&& h.piece == Some(p)
    &&& !h.hard_drop
    &&& !h.lost
    &&& h.timers.lock_delay.remaining == left
}

proof fn lemma_idle_step(h: GameView, g: GameView, p: PieceView, left: int, elapsed: u64, inputs: Inputs, next: Shape)
    requires
        waiting(h, g, p, left),
        !fits(g.width(), g.cells, p.blocks, 0, -1),
        idle(inputs),
    ensures
        elapsed < left ==> waiting(step_result(h, elapsed, inputs, next).0, g, p, left - elapsed),
        elapsed >= left ==> step_result(h, elapsed, inputs, next).0.cells == placed(g.width(), g.cells, p.blocks),
{
    let w = h.width();
    assert(!inputs.has(Input::HardDropJustPressed));
    assert(!inputs.has(Input::LeftPressed) && !inputs.has(Input::RightPressed) && !inputs.has(Input::SoftDropPressed));
    assert(!inputs.has(Input::ClkwJustPressed) && !inputs.has(Input::CclwJustPressed));
    lemma_wf_coords_small(p, h.size);
    assert(p.moved(0, 0).blocks =~= p.blocks);
    assert(p.moved(0, 0) == p);
    let (dx, dy) = movement_offset(h, p, elapsed, inputs);
    assert(dx == 0 && dy == 0);
    lemma_movement_wf(h, elapsed, inputs);
    let m = movement_result(h, elapsed, inputs);
    assert(m.piece == Some(p));
    assert(!m.reset_lock_delay);
    assert(rotation_step(m, inputs) == m);
}

/// `run` over one more step is one more step.
proof fn lemma_run_take(g: GameView, steps: Seq<u64>, inputs: Inputs, next: Shape, k: int)
    requires
        0 <= k < steps.len(),
    ensures
        run(g, steps.take(k + 1), inputs, next) == step_result(run(g, steps.take(k), inputs, next), steps[k], inputs, next).0,
        total(steps.take(k + 1)) == total(steps.take(k)) + steps[k],
{
    assert(steps.take(k + 1).drop_last() =~= steps.take(k));
}

proof fn lemma_still_waiting(g: GameView, steps: Seq<u64>, inputs: Inputs, next: Shape, k: int)
    requires
        g.wf(),
        grounded(g),
        !g.hard_drop,
        idle(inputs),
        0 <= k <= steps.len(),
        total(steps.take(k)) < g.timers.lock_delay.remaining,
    ensures
        waiting(run(g, steps.take(k), inputs, next), g, g.piece->0, g.timers.lock_delay.remaining - total(steps.take(k))),
    decreases k,
{
    let p = g.piece->0;
    if k == 0 {
        assert(steps.take(0) =~= Seq::<u64>::empty());
    } else {
        lemma_run_take(g, steps, inputs, next, k - 1);
        lemma_still_waiting(g, steps, inputs, next, k - 1);
        let left = g.timers.lock_delay.remaining - total(steps.take(k - 1));
        lemma_idle_step(run(g, steps.take(k - 1), inputs, next), g, p, left, steps[k - 1], inputs, next);
    }
}

/// Once the piece is grounded and its lock delay has just started, with no
/// action from the player, it locks on the step during which the lock delay
/// has run out and not before: while the steps so far add up to less than
/// the lock delay, the piece stays where it is and the heap is unchanged;
/// the step that brings the total to the lock delay or beyond writes the
/// piece into the heap.
pub proof fn lemma_lock_delay(g: GameView, steps: Seq<u64>, inputs: Inputs, next: Shape, n: int)
    requires
        g.wf(),
        grounded(g),
        !g.hard_drop,
        g.timers.lock_delay.remaining == g.timers.lock_delay.duration,
        idle(inputs),
        0 <= n < steps.len(),
    ensures
        total(steps.take(n)) < g.timers.lock_delay.duration ==> {
            &&& run(g, steps.take(n), inputs, next).piece == g.piece
            &&& run(g, steps.take(n), inputs, next).cells == g.cells
        },
        total(steps.take(n)) < g.timers.lock_delay.duration <= total(steps.take(n + 1))
            ==> run(g, steps.take(n + 1), inputs, next).cells == placed(g.width(), g.cells, g.piece->0.blocks),
{
    if total(steps.take(n)) < g.timers.lock_delay.duration {
        let p = g.piece->0;
        lemma_still_waiting(g, steps, inputs, next, n);
        lemma_run_take(g, steps, inputs, next, n);
        let left = g.timers.lock_delay.remaining - total(steps.take(n));
        lemma_idle_step(run(g, steps.take(n), inputs, next), g, p, left, steps[n], inputs, next);
    }
}

} // verus!
