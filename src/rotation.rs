use vstd::prelude::*;
use crate::grid::{fits, free_at, lemma_fits_shifted, GridPos, GridSize, MAX_DIM};
use crate::heap::{Heap, HeapEntry};
use crate::movement::can_move;
use crate::movement_types::MoveNeutral;
use crate::game::{Game, GameView};
use crate::input::{Input, Inputs};
use crate::piece::{coords_small, gp, lemma_moved_wf, lemma_wf_coords_small, ActivePiece, Origin, OriginMode, PieceView};

verus! {

/// A quarter turn.
#[derive(Clone, Copy, Debug, PartialEq, Eq, Structural)]
pub enum Rotate {
    Clockwise,
    Counterclockwise,
}

/// The block at `p` turned a quarter about the pivot. Relative to the pivot,
/// a clockwise turn takes `(x, y)` to `(y, -x)` and a counter-clockwise one
/// takes it to `(-y, x)`. For a point pivot the cell is first named by the
/// corner that the turn carries onto its bottom left corner.
pub open spec fn rotated_pos(p: GridPos, origin: Origin, rotate: Rotate) -> GridPos {
    let o = origin.pos;
    let corner: int = if origin.mode == OriginMode::PointCentered { 1 } else { 0 };
    match rotate {
        Rotate::Clockwise => {
            let nx = p.x - o.x + corner;
            let ny = p.y - o.y;
            gp(o.x + ny, o.y - nx)
        },
        Rotate::Counterclockwise => {
            let nx = p.x - o.x;
            let ny = p.y - o.y + corner;
            gp(o.x - ny, o.y + nx)
        },
    }
}

/// The piece turned a quarter about its pivot, with no kick.
pub open spec fn turned(piece: PieceView, rotate: Rotate) -> PieceView {
    PieceView {
        blocks: piece.blocks.map_values(|p: GridPos| rotated_pos(p, piece.origin, rotate)),
        origin: piece.origin,
        shape: piece.shape,
    }
}

/// The translations tried, in this order, on a turned piece: first none,
/// then the wall kicks one and two columns right, one and two columns left,
/// and one column left with two rows down.
pub open spec fn wall_kicks() -> Seq<(int, int)> {
    seq![(0, 0), (1, 0), (2, 0), (-1, 0), (-2, 0), (-1, -2)]
}

/// The first entry of [`wall_kicks`], from entry `k` on, whose translation
/// makes the blocks fit.
pub open spec fn first_kick(width: int, cells: Seq<HeapEntry>, blocks: Seq<GridPos>, k: int) -> Option<int>
    decreases 6 - k,
{
    if k < 0 || k >= 6 {
        None
    } else if fits(width, cells, blocks, wall_kicks()[k].0, wall_kicks()[k].1) {
        Some(k)
    } else {
        first_kick(width, cells, blocks, k + 1)
    }
}

/// The piece after a rotation attempt, and whether the rotation happened:
/// the turned piece moved by the first wall kick that makes it fit, or the
/// piece unchanged when none does.
pub open spec fn rotation_result(width: int, cells: Seq<HeapEntry>, piece: PieceView, rotate: Rotate) -> (PieceView, bool) {
    let t = turned(piece, rotate);
    match first_kick(width, cells, t.blocks, 0) {
        Some(k) => (t.moved(wall_kicks()[k].0, wall_kicks()[k].1), true),
        None => (piece, false),
    }
}

/// A turn keeps every block as close to the pivot as before.
pub proof fn lemma_turned_near_pivot(piece: PieceView, rotate: Rotate)
    requires
        piece.near_pivot(),
        coords_small(piece),
    ensures
        turned(piece, rotate).near_pivot(),
        coords_small(turned(piece, rotate)),
{
    let t = turned(piece, rotate);
    let o = piece.origin.pos;
    assert forall|i: int| 0 <= i < t.blocks.len() implies {
        let lo: int = if piece.origin.mode == OriginMode::PointCentered { -2 } else { -1 };
        &&& lo <= #[trigger] t.blocks[i].x - o.x <= 1
        &&& lo <= t.blocks[i].y - o.y <= 1
        &&& -10 <= t.blocks[i].x <= MAX_DIM + 10
        &&& -10 <= t.blocks[i].y <= MAX_DIM + 10
    } by {
        let b = piece.blocks[i];
        assert(t.blocks[i] == rotated_pos(b, piece.origin, rotate));
        let lo: int = if piece.origin.mode == OriginMode::PointCentered { -2 } else { -1 };
        assert(lo <= b.x - o.x <= 1 && lo <= b.y - o.y <= 1);
        let corner: int = if piece.origin.mode == OriginMode::PointCentered { 1 } else { 0 };
        match rotate {
            Rotate::Clockwise => {
                let nx = b.x - o.x + corner;
                let ny = b.y - o.y;
                assert(t.blocks[i].x == o.x + ny);
                assert(t.blocks[i].y == o.y - nx);
            },
            Rotate::Counterclockwise => {
                let nx = b.x - o.x;
                let ny = b.y - o.y + corner;
                assert(t.blocks[i].x == o.x - ny);
                assert(t.blocks[i].y == o.y + nx);
            },
        }
    }
}

/// `v` is a value of `i16`.
pub open spec fn in_i16(v: int) -> bool {
    i16::MIN <= v <= i16::MAX
}

/// Turning the block at `p` about the pivot computes only values of `i16`:
/// its offsets from the pivot, the corner-adjusted offsets, and the turned
/// position.
pub open spec fn rotation_in_range(p: GridPos, origin: Origin, rotate: Rotate) -> bool {
    let o = origin.pos;
    let corner: int = if origin.mode == OriginMode::PointCentered { 1 } else { 0 };
    let dx = p.x - o.x;
    let dy = p.y - o.y;
    &&& in_i16(dx)
    &&& in_i16(dy)
    &&& in_i16(dx + corner)
    &&& in_i16(dy + corner)
    &&& match rotate {
        Rotate::Clockwise => in_i16(o.x + dy) && in_i16(o.y - (dx + corner)),
        Rotate::Counterclockwise => in_i16(o.x - (dy + corner)) && in_i16(o.y + dx),
    }
}

/// Turns each block a quarter about the pivot.
pub fn basic_rotation(block_pos: &mut [GridPos; 4], rotate: Rotate, origin: Origin)
    requires
        forall|j: int| 0 <= j < 4 ==> rotation_in_range(#[trigger] old(block_pos)@[j], origin, rotate),
    ensures
        final(block_pos)@ == old(block_pos)@.map_values(|p: GridPos| rotated_pos(p, origin, rotate)),
{
    let ghost start = *block_pos;
    let origin_x = origin.pos.x;
    let origin_y = origin.pos.y;
    let mut i: usize = 0;
    while i < 4
        invariant
            0 <= i <= 4,
            origin_x == origin.pos.x,
            origin_y == origin.pos.y,
            forall|j: int| 0 <= j < 4 ==> rotation_in_range(#[trigger] start@[j], origin, rotate),
            forall|j: int| 0 <= j < i ==> block_pos@[j] == rotated_pos(#[trigger] start@[j], origin, rotate),
            forall|j: int| i <= j < 4 ==> block_pos@[j] == #[trigger] start@[j],
        decreases 4 - i,
    {
        let pos = block_pos[i];
        assert(pos == start@[i as int]);
        let new_pos = match rotate {
            Rotate::Clockwise => {
                let (norm_x, norm_y) = match origin.mode {
                    OriginMode::BlockCentered => (pos.x - origin_x, pos.y - origin_y),
                    // name the cell by its bottom right corner, which the
                    // turn carries onto the bottom left one
                    OriginMode::PointCentered => (pos.x - origin_x + 1, pos.y - origin_y),
                };
                GridPos { x: origin_x + norm_y, y: origin_y - norm_x }
            },
            Rotate::Counterclockwise => {
                let (norm_x, norm_y) = match origin.mode {
                    OriginMode::BlockCentered => (pos.x - origin_x, pos.y - origin_y),
                    // name the cell by its top left corner, which the turn
                    // carries onto the bottom left one
                    OriginMode::PointCentered => (pos.x - origin_x, pos.y - origin_y + 1),
                };
                GridPos { x: origin_x - norm_y, y: origin_y + norm_x }
            },
        };
        block_pos[i] = new_pos;
        i = i + 1;
    }
    assert(block_pos@ =~= start@.map_values(|p: GridPos| rotated_pos(p, origin, rotate)));
}

/// The translation of entry `k` of [`wall_kicks`].
fn wall_kick(k: usize) -> (r: (i16, i16))
    requires
        k < 6,
    ensures
        r.0 as int == wall_kicks()[k as int].0,
        r.1 as int == wall_kicks()[k as int].1,
{
    match k {
        0 => (0, 0),
        1 => (1, 0),
        2 => (2, 0),
        3 => (-1, 0),
        4 => (-2, 0),
        _ => (-1, -2),
    }
}

/// Turns the piece a quarter, trying the wall kicks in order, and keeps it
/// as it was when none makes it fit. Returns whether it turned.
pub fn rotate_piece(piece: &mut ActivePiece, rotate: Rotate, grid_width: i16, heap: &Heap) -> (r: bool)
    requires
        1 <= grid_width <= MAX_DIM,
        old(piece)@.near_pivot(),
        coords_small(old(piece)@),
    ensures
        (final(piece)@, r) == rotation_result(grid_width as int, heap.blocks@, old(piece)@, rotate),
{
    let prev = *piece;
    proof {
        lemma_turned_near_pivot(prev@, rotate);
        assert forall|j: int| 0 <= j < 4 implies rotation_in_range(#[trigger] prev@.blocks[j], prev.origin, rotate) by {
            assert(-10 <= prev@.blocks[j].x <= MAX_DIM + 10 && -10 <= prev@.blocks[j].y <= MAX_DIM + 10);
        }
    }
    basic_rotation(&mut piece.blocks, rotate, piece.origin);
    let turned_piece = *piece;
    assert(turned_piece@ == turned(prev@, rotate));
    let ghost cells = heap.blocks@;
    let ghost tb = turned_piece@.blocks;
    let mut k: usize = 0;
    while k < 6
        invariant
            k <= 6,
            1 <= grid_width <= MAX_DIM,
            cells == heap.blocks@,
            tb == turned_piece@.blocks,
            prev@ == old(piece)@,
            turned_piece@ == turned(prev@, rotate),
            coords_small(turned_piece@),
            first_kick(grid_width as int, cells, tb, 0) == first_kick(grid_width as int, cells, tb, k as int),
        decreases 6 - k,
    {
        let (dx, dy) = wall_kick(k);
        let mut candidate = turned_piece;
        candidate.translate(dx, dy);
        proof {
            lemma_fits_shifted(grid_width as int, cells, tb, dx as int, dy as int, 0, 0);
        }
        if can_move(&candidate.blocks, grid_width, MoveNeutral, heap) {
            *piece = candidate;
            return true;
        }
        k = k + 1;
    }
    *piece = prev;
    false
}

/// An entry that [`first_kick`] picks makes the blocks fit.
pub proof fn lemma_first_kick_fits(width: int, cells: Seq<HeapEntry>, blocks: Seq<GridPos>, k: int)
    requires
        first_kick(width, cells, blocks, k) is Some,
    ensures
        ({
            let j = first_kick(width, cells, blocks, k)->0;
            &&& k <= j < 6
            &&& fits(width, cells, blocks, wall_kicks()[j].0, wall_kicks()[j].1)
        }),
    decreases 6 - k,
{
    if 0 <= k < 6 && !fits(width, cells, blocks, wall_kicks()[k].0, wall_kicks()[k].1) {
        lemma_first_kick_fits(width, cells, blocks, k + 1);
    }
}

/// A rotation attempt keeps a well-formed piece well-formed.
pub proof fn lemma_rotation_wf(piece: PieceView, size: GridSize, cells: Seq<HeapEntry>, rotate: Rotate)
    requires
        size.wf(),
        piece.wf(size),
    ensures
        rotation_result(size.width as int, cells, piece, rotate).0.wf(size),
{
    let w = size.width as int;
    let t = turned(piece, rotate);
    lemma_wf_coords_small(piece, size);
    lemma_turned_near_pivot(piece, rotate);
    if first_kick(w, cells, t.blocks, 0) is Some {
        lemma_first_kick_fits(w, cells, t.blocks, 0);
        let j = first_kick(w, cells, t.blocks, 0)->0;
        let dx = wall_kicks()[j].0;
        let dy = wall_kicks()[j].1;
        assert forall|i: int| #![trigger t.blocks[i]] 0 <= i < t.blocks.len() implies 0 <= t.blocks[i].x + dx < size.width && 0 <= t.blocks[i].y + dy by {
            assert(free_at(w, cells, t.blocks[i].x + dx, t.blocks[i].y + dy));
        }
        lemma_moved_wf(t, size, dx, dy);
    }
}

/// The rotation that the keys pressed during this step ask for: none when
/// both or neither of the two rotation keys went down.
pub open spec fn rotate_request(inputs: Inputs) -> Option<Rotate> {
    let clkw = inputs.has(Input::ClkwJustPressed);
    let cclw = inputs.has(Input::CclwJustPressed);
    if clkw && !cclw {
        Some(Rotate::Clockwise)
    } else if cclw && !clkw {
        Some(Rotate::Counterclockwise)
    } else {
        None
    }
}

/// The game after the rotation part of a step. Nothing turns on a step with
/// a hard drop, which locks the piece where it fell; a rotation that
/// happens restarts the lock delay like a move.
pub open spec fn rotation_step(g: GameView, inputs: Inputs) -> GameView {
    match (g.piece, rotate_request(inputs)) {
        (Some(p), Some(rotate)) => {
            if g.hard_drop {
                g
            } else {
                let (q, turned) = rotation_result(g.width(), g.cells, p, rotate);
                GameView { piece: Some(q), reset_lock_delay: g.reset_lock_delay || turned, ..g }
            }
        },
        _ => g,
    }
}

/// The rotation part of a step keeps a well-formed game well-formed.
pub proof fn lemma_rotation_step_wf(g: GameView, inputs: Inputs)
    requires
        g.wf(),
    ensures
        rotation_step(g, inputs).wf(),
{
    if let (Some(p), Some(rotate)) = (g.piece, rotate_request(inputs)) {
        lemma_rotation_wf(p, g.size, g.cells, rotate);
    }
}

/// Turns the piece as the rotation keys ask, with wall kicks where needed.
pub fn rotation(game: &mut Game, inputs: &Inputs)
    requires
        old(game)@.wf(),
    ensures
        final(game)@ == rotation_step(old(game)@, *inputs),
        final(game)@.wf(),
{
    let clkw = inputs.get_action_state(Input::ClkwJustPressed);
    let cclw = inputs.get_action_state(Input::CclwJustPressed);
    let rotate = if clkw && !cclw {
        Rotate::Clockwise
    } else if cclw && !clkw {
        Rotate::Counterclockwise
    } else {
        return;
    };
    if game.hard_drop.get() {
        return;
    }
    let mut piece = match game.piece {
        Some(p) => p,
        None => return,
    };
    proof {
        lemma_wf_coords_small(piece@, game.size);
        lemma_rotation_wf(piece@, game.size, game.heap.blocks@, rotate);
    }
    let turned = rotate_piece(&mut piece, rotate, game.size.width, &game.heap);
    game.piece = Some(piece);
    if turned {
        game.reset_lock_delay.set_to(true);
    }
}

} // verus!
