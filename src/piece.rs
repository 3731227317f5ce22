use vstd::prelude::*;
use rand::Rng;
use crate::game::{Game, GameView};
use crate::grid::{fits, shifted, GridPos, GridSize, MAX_DIM};
use crate::movement::can_move;
use crate::movement_types::MoveNeutral;

verus! {

/// The seven tetromino shapes.
#[derive(Clone, Copy, Debug, PartialEq, Eq, Structural)]
pub enum Shape {
    I,
    O,
    T,
    S,
    Z,
    L,
    J,
}

/// Where a piece's rotation pivot lies.
#[derive(Clone, Copy, Debug, PartialEq, Eq, Structural)]
pub enum OriginMode {
    /// The pivot is a grid-line crossing: the bottom left corner of the
    /// cell given by the position. The I and O shapes turn this way.
    PointCentered,
    /// The pivot is the centre of the cell given by the position.
    BlockCentered,
}

/// A piece's rotation pivot.
#[derive(Clone, Copy, Debug, PartialEq, Eq, Structural)]
pub struct Origin {
    pub pos: GridPos,
    pub mode: OriginMode,
}

/// The piece under the player's control.
#[derive(Clone, Copy, Debug)]
pub struct ActivePiece {
    pub blocks: [GridPos; 4],
    pub origin: Origin,
    pub shape: Shape,
}

/// A piece as a sequence of block positions with its pivot and shape.
pub struct PieceView {
    pub blocks: Seq<GridPos>,
    pub origin: Origin,
    pub shape: Shape,
}

impl View for ActivePiece {
    type V = PieceView;

    open spec fn view(&self) -> PieceView {
        PieceView { blocks: self.blocks@, origin: self.origin, shape: self.shape }
    }
}

/// The position `(x, y)`.
pub open spec fn gp(x: int, y: int) -> GridPos {
    GridPos { x: x as i16, y: y as i16 }
}

impl Shape {
    /// The block positions of the shape as it enters the playfield, before
    /// it is moved to the spawn point. The lowest row of every shape is
    /// row 0, so that all shapes spawn with their lowest rows level.
    pub open spec fn cells(self) -> Seq<GridPos> {
        match self {
            Shape::I => seq![gp(0, 0), gp(1, 0), gp(2, 0), gp(3, 0)],
            Shape::O => seq![gp(0, 0), gp(0, 1), gp(1, 0), gp(1, 1)],
            Shape::T => seq![gp(0, 0), gp(1, 0), gp(2, 0), gp(1, 1)],
            Shape::S => seq![gp(2, 1), gp(1, 1), gp(1, 0), gp(0, 0)],
            Shape::Z => seq![gp(0, 1), gp(1, 1), gp(1, 0), gp(2, 0)],
            Shape::L => seq![gp(0, 0), gp(0, 1), gp(1, 0), gp(2, 0)],
            Shape::J => seq![gp(0, 0), gp(1, 0), gp(2, 0), gp(2, 1)],
        }
    }

    /// The rotation pivot that goes with [`Shape::cells`].
    pub open spec fn pivot(self) -> Origin {
        match self {
            Shape::I => Origin { pos: gp(2, 0), mode: OriginMode::PointCentered },
            Shape::O => Origin { pos: gp(1, 1), mode: OriginMode::PointCentered },
            _ => Origin { pos: gp(1, 0), mode: OriginMode::BlockCentered },
        }
    }

    pub open spec fn index(self) -> u16 {
        match self {
            Shape::I => 0,
            Shape::O => 1,
            Shape::T => 2,
            Shape::S => 3,
            Shape::Z => 4,
            Shape::L => 5,
            Shape::J => 6,
        }
    }

    /// The shape numbered `idx`, in the order I, O, T, S, Z, L, J.
    pub fn from_index(idx: u16) -> (r: Shape)
        requires
            idx < 7,
        ensures
            r.index() == idx,
    {
        match idx {
            0 => Shape::I,
            1 => Shape::O,
            2 => Shape::T,
            3 => Shape::S,
            4 => Shape::Z,
            5 => Shape::L,
            _ => Shape::J,
        }
    }

    /// The shape's blocks and pivot before they are moved to the spawn point.
    pub fn layout(self) -> (r: ([GridPos; 4], Origin))
        ensures
            r.0@ == self.cells(),
            r.1 == self.pivot(),
    {
        let p = |x: i16, y: i16| -> (r: GridPos)
            ensures
                r == gp(x as int, y as int),
            { GridPos { x, y } };
        let r = match self {
            Shape::I => ([p(0, 0), p(1, 0), p(2, 0), p(3, 0)], Origin { pos: p(2, 0), mode: OriginMode::PointCentered }),
            Shape::O => ([p(0, 0), p(0, 1), p(1, 0), p(1, 1)], Origin { pos: p(1, 1), mode: OriginMode::PointCentered }),
            Shape::T => ([p(0, 0), p(1, 0), p(2, 0), p(1, 1)], Origin { pos: p(1, 0), mode: OriginMode::BlockCentered }),
            Shape::S => ([p(2, 1), p(1, 1), p(1, 0), p(0, 0)], Origin { pos: p(1, 0), mode: OriginMode::BlockCentered }),
            Shape::Z => ([p(0, 1), p(1, 1), p(1, 0), p(2, 0)], Origin { pos: p(1, 0), mode: OriginMode::BlockCentered }),
            Shape::L => ([p(0, 0), p(0, 1), p(1, 0), p(2, 0)], Origin { pos: p(1, 0), mode: OriginMode::BlockCentered }),
            Shape::J => ([p(0, 0), p(1, 0), p(2, 0), p(2, 1)], Origin { pos: p(1, 0), mode: OriginMode::BlockCentered }),
        };
        assert(r.0@ =~= self.cells());
        r
    }
}

/// Relies on rand::thread_rng and rand::Rng::gen_range: a number drawn from
/// `0..n`, which the range's non-emptiness keeps from panicking.
#[verifier::external_body]
fn random_below(n: u16) -> (r: u16)
    requires
        n > 0,
    ensures
        r < n,
{
    rand::thread_rng().gen_range(0..n)
}

/// A shape drawn uniformly at random.
pub fn random_shape() -> Shape {
    let idx = random_below(7);
    Shape::from_index(idx)
}

/// Column added to a shape's layout when it spawns.
pub open spec fn spawn_shift_x(size: GridSize) -> int {
    size.width / 2 - 1
}

/// Row added to a shape's layout when it spawns: the lowest row of every
/// shape lands two rows below the top of the playfield.
pub open spec fn spawn_shift_y(size: GridSize) -> int {
    size.height - 2
}

impl PieceView {
    /// The piece with its blocks and pivot moved by `(dx, dy)`.
    pub open spec fn moved(self, dx: int, dy: int) -> PieceView {
        PieceView {
            blocks: shifted(self.blocks, dx, dy),
            origin: Origin { pos: self.origin.pos.shift(dx, dy), mode: self.origin.mode },
            shape: self.shape,
        }
    }

    /// Every block lies within the side walls and on or above the floor.
    pub open spec fn in_bounds(self, size: GridSize) -> bool {
        forall|i: int| 0 <= i < self.blocks.len() ==> 0 <= #[trigger] self.blocks[i].x < size.width && 0 <= self.blocks[i].y
    }

    /// Every block lies close to the pivot: within two cells below or to the
    /// left of it and one above or to the right for a point pivot, and
    /// within one cell of it for a cell pivot.
    pub open spec fn near_pivot(self) -> bool {
        let o = self.origin.pos;
        let lo: int = if self.origin.mode == OriginMode::PointCentered { -2 } else { -1 };
        forall|i: int| 0 <= i < self.blocks.len() ==> lo <= #[trigger] self.blocks[i].x - o.x <= 1 && lo <= self.blocks[i].y - o.y <= 1
    }

    pub open spec fn wf(self, size: GridSize) -> bool {
        &&& self.blocks.len() == 4
        &&& self.in_bounds(size)
        &&& self.near_pivot()
        &&& self.origin.pos.y <= MAX_DIM
    }
}

/// Every coordinate of the piece is small enough to move and turn without
/// leaving `i16`.
pub open spec fn coords_small(piece: PieceView) -> bool {
    &&& forall|i: int| 0 <= i < piece.blocks.len() ==> -10 <= #[trigger] piece.blocks[i].x <= MAX_DIM + 10 && -10 <= piece.blocks[i].y <= MAX_DIM + 10
    &&& -5 <= piece.origin.pos.x <= MAX_DIM + 5
    &&& -5 <= piece.origin.pos.y <= MAX_DIM + 5
}

pub proof fn lemma_wf_coords_small(piece: PieceView, size: GridSize)
    requires
        size.wf(),
        piece.wf(size),
    ensures
        coords_small(piece),
        -2 <= piece.origin.pos.x <= size.width + 1,
        -1 <= piece.origin.pos.y,
{
    let b0 = piece.blocks[0];
    assert(0 <= b0.x < size.width && 0 <= b0.y);
    assert(-2 <= b0.x - piece.origin.pos.x <= 1 && -2 <= b0.y - piece.origin.pos.y <= 1);
    assert forall|i: int| 0 <= i < piece.blocks.len() implies -10 <= #[trigger] piece.blocks[i].x <= MAX_DIM + 10 && -10 <= piece.blocks[i].y <= MAX_DIM + 10 by {
        assert(0 <= piece.blocks[i].x < size.width && 0 <= piece.blocks[i].y);
        assert(piece.blocks[i].y - piece.origin.pos.y <= 1);
    }
}

/// A piece close to its pivot, moved down or sideways onto positions
/// within the walls and above the floor, is well-formed.
pub proof fn lemma_moved_wf(piece: PieceView, size: GridSize, dx: int, dy: int)
    requires
        size.wf(),
        piece.blocks.len() == 4,
        piece.near_pivot(),
        coords_small(piece),
        piece.origin.pos.y <= MAX_DIM,
        -2 <= dx <= 2,
        dy <= 0,
        forall|i: int| #![trigger piece.blocks[i]] 0 <= i < piece.blocks.len() ==> 0 <= piece.blocks[i].x + dx < size.width && 0 <= piece.blocks[i].y + dy,
    ensures
        piece.moved(dx, dy).wf(size),
{
    let m = piece.moved(dx, dy);
    let o = piece.origin.pos;
    let b0 = piece.blocks[0];
    assert(0 <= b0.x + dx < size.width && 0 <= b0.y + dy);
    assert(-2 <= b0.y - o.y <= 1);
    assert forall|i: int| 0 <= i < m.blocks.len() implies 0 <= #[trigger] m.blocks[i].x < size.width && 0 <= m.blocks[i].y by {
        assert(0 <= piece.blocks[i].x + dx < size.width && 0 <= piece.blocks[i].y + dy);
    }
    assert forall|i: int| 0 <= i < m.blocks.len() implies {
        let lo: int = if m.origin.mode == OriginMode::PointCentered { -2 } else { -1 };
        lo <= #[trigger] m.blocks[i].x - m.origin.pos.x <= 1 && lo <= m.blocks[i].y - m.origin.pos.y <= 1
    } by {
        let b = piece.blocks[i];
        assert(-10 <= b.x <= MAX_DIM + 10 && -10 <= b.y <= MAX_DIM + 10);
        assert(0 <= b.x + dx < size.width && 0 <= b.y + dy);
    }
}

/// Two moves of a piece in a row are one move by the sum.
pub proof fn lemma_moved_twice(piece: PieceView, dx: int, dy: int, ex: int, ey: int)
    requires
        forall|i: int| 0 <= i < piece.blocks.len() ==> i16::MIN <= #[trigger] piece.blocks[i].x + dx <= i16::MAX && i16::MIN <= piece.blocks[i].y + dy <= i16::MAX,
        i16::MIN <= piece.origin.pos.x + dx <= i16::MAX,
        i16::MIN <= piece.origin.pos.y + dy <= i16::MAX,
    ensures
        piece.moved(dx, dy).moved(ex, ey) == piece.moved(dx + ex, dy + ey),
{
    crate::grid::lemma_shifted_twice(piece.blocks, dx, dy, ex, ey);
}

/// A piece that fits where it is lies within the walls and above the floor.
pub proof fn lemma_fits_in_bounds(piece: PieceView, size: GridSize, cells: Seq<crate::heap::HeapEntry>)
    requires
        fits(size.width as int, cells, piece.blocks, 0, 0),
    ensures
        piece.in_bounds(size),
{
    assert forall|i: int| 0 <= i < piece.blocks.len() implies 0 <= #[trigger] piece.blocks[i].x < size.width && 0 <= piece.blocks[i].y by {
        assert(crate::grid::free_at(size.width as int, cells, piece.blocks[i].x + 0, piece.blocks[i].y + 0));
    }
}

/// The piece of shape `shape` as it enters a playfield of size `size`.
pub open spec fn spawned(size: GridSize, shape: Shape) -> PieceView {
    PieceView {
        blocks: shape.cells(),
        origin: shape.pivot(),
        shape,
    }.moved(spawn_shift_x(size), spawn_shift_y(size))
}

impl ActivePiece {
    /// The piece of shape `shape` at the spawn point of the playfield.
    pub fn spawned(size: GridSize, shape: Shape) -> (r: ActivePiece)
        requires
            size.wf(),
        ensures
            r@ == spawned(size, shape),
            r@.near_pivot(),
            r.origin.pos.y <= size.height - 1,
    {
        let (cells, pivot) = shape.layout();
        let shift_x: i16 = size.width / 2 - 1;
        let shift_y: i16 = size.height - 2;
        let mut blocks = cells;
        let mut i: usize = 0;
        while i < 4
            invariant
                0 <= i <= 4,
                blocks@.len() == 4,
                cells@ == shape.cells(),
                shift_x == spawn_shift_x(size),
                shift_y == spawn_shift_y(size),
                size.wf(),
                forall|j: int| 0 <= j < i ==> blocks@[j] == #[trigger] cells@[j].shift(shift_x as int, shift_y as int),
                forall|j: int| i <= j < 4 ==> blocks@[j] == #[trigger] cells@[j],
            decreases 4 - i,
        {
            let c = blocks[i];
            blocks[i] = GridPos { x: c.x + shift_x, y: c.y + shift_y };
            i = i + 1;
        }
        let origin = Origin {
            pos: GridPos { x: pivot.pos.x + shift_x, y: pivot.pos.y + shift_y },
            mode: pivot.mode,
        };
        let r = ActivePiece { blocks, origin, shape };
        assert(r@.blocks =~= shifted(shape.cells(), shift_x as int, shift_y as int));
        r
    }

    /// Moves the blocks and the pivot by `(dx, dy)`.
    pub fn translate(&mut self, dx: i16, dy: i16)
        requires
            forall|i: int| #![trigger old(self).blocks@[i]] 0 <= i < 4 ==> i16::MIN <= old(self).blocks@[i].x + dx <= i16::MAX && i16::MIN <= old(self).blocks@[i].y + dy <= i16::MAX,
            i16::MIN <= old(self).origin.pos.x + dx <= i16::MAX,
            i16::MIN <= old(self).origin.pos.y + dy <= i16::MAX,
        ensures
            final(self)@ == old(self)@.moved(dx as int, dy as int),
    {
        let ghost start = *self;
        let mut i: usize = 0;
        while i < 4
            invariant
                0 <= i <= 4,
                self.origin == start.origin,
                self.shape == start.shape,
                forall|j: int| #![trigger start.blocks@[j]] 0 <= j < 4 ==> i16::MIN <= start.blocks@[j].x + dx <= i16::MAX && i16::MIN <= start.blocks@[j].y + dy <= i16::MAX,
                forall|j: int| 0 <= j < i ==> self.blocks@[j] == #[trigger] start.blocks@[j].shift(dx as int, dy as int),
                forall|j: int| i <= j < 4 ==> self.blocks@[j] == #[trigger] start.blocks@[j],
            decreases 4 - i,
        {
            let b = self.blocks[i];
            assert(b == start.blocks@[i as int]);
            self.blocks[i] = GridPos { x: b.x + dx, y: b.y + dy };
            i = i + 1;
        }
        self.origin.pos = GridPos { x: self.origin.pos.x + dx, y: self.origin.pos.y + dy };
        assert(self@.blocks =~= shifted(start@.blocks, dx as int, dy as int));
    }
}

/// The game after the next piece, of shape `shape`, enters the playfield:
/// the piece with its lock delay restarted, or, where its cells are not
/// free, no piece and the game lost. A game that is lost, or that still has
/// a piece, is left as it is.
pub open spec fn spawn_result(g: GameView, shape: Shape) -> GameView {
    let p = spawned(g.size, shape);
    if g.lost || g.piece is Some {
        g
    } else if fits(g.width(), g.cells, p.blocks, 0, 0) {
        GameView {
            piece: Some(p),
            timers: crate::timer::Timers { lock_delay: g.timers.lock_delay.restarted(), ..g.timers },
            ..g
        }
    } else {
        GameView { piece: None, lost: true, ..g }
    }
}

/// A freshly spawned piece lies close to its pivot, below the top row.
pub proof fn lemma_spawned_shape(size: GridSize, shape: Shape)
    requires
        size.wf(),
    ensures
        spawned(size, shape).blocks.len() == 4,
        spawned(size, shape).near_pivot(),
        spawned(size, shape).origin.pos.y <= size.height - 1,
        coords_small(spawned(size, shape)),
{
    let p = spawned(size, shape);
    let sx = spawn_shift_x(size);
    let sy = spawn_shift_y(size);
    assert(-1 <= sx <= MAX_DIM && -1 <= sy <= MAX_DIM);
    assert forall|i: int| 0 <= i < 4 implies {
        let lo: int = if p.origin.mode == OriginMode::PointCentered { -2 } else { -1 };
        &&& lo <= #[trigger] p.blocks[i].x - p.origin.pos.x <= 1
        &&& lo <= p.blocks[i].y - p.origin.pos.y <= 1
        &&& -10 <= p.blocks[i].x <= MAX_DIM + 10
        &&& -10 <= p.blocks[i].y <= MAX_DIM + 10
    } by {
        let c = shape.cells()[i];
        assert(p.blocks[i] == c.shift(sx, sy));
        assert(0 <= c.x <= 3 && 0 <= c.y <= 1);
    }
}

/// Spawning keeps a well-formed game well-formed.
pub proof fn lemma_spawn_wf(g: GameView, shape: Shape)
    requires
        g.wf(),
    ensures
        spawn_result(g, shape).wf(),
{
    lemma_spawned_shape(g.size, shape);
    let p = spawned(g.size, shape);
    if fits(g.width(), g.cells, p.blocks, 0, 0) {
        lemma_fits_in_bounds(p, g.size, g.cells);
    }
}

/// Every shape spawns with its lowest row two rows below the top of the
/// playfield: no block lies lower, and some block lies on that row.
pub proof fn lemma_spawn_rows_aligned(size: GridSize, shape: Shape)
    requires
        size.wf(),
    ensures
        forall|i: int| 0 <= i < 4 ==> size.height - 2 <= #[trigger] spawned(size, shape).blocks[i].y <= size.height - 1,
        exists|i: int| 0 <= i < 4 && #[trigger] spawned(size, shape).blocks[i].y == size.height - 2,
{
    let p = spawned(size, shape);
    let sx = spawn_shift_x(size);
    let sy = spawn_shift_y(size);
    assert forall|i: int| 0 <= i < 4 implies size.height - 2 <= #[trigger] p.blocks[i].y <= size.height - 1 by {
        let c = shape.cells()[i];
        assert(p.blocks[i] == c.shift(sx, sy));
        assert(0 <= c.y <= 1);
    }
    let w: int = if shape == Shape::S || shape == Shape::Z { 2 } else { 0 };
    assert(p.blocks[w] == shape.cells()[w].shift(sx, sy));
    assert(p.blocks[w].y == size.height - 2);
}

/// Brings the next piece, of shape `shape`, into a game that has none.
/// Returns whether the game is lost. A game that is lost, or that still has
/// a piece, is left as it is.
pub fn spawn(game: &mut Game, shape: Shape) -> (lost: bool)
    requires
        old(game)@.wf(),
    ensures
        final(game)@ == spawn_result(old(game)@, shape),
        final(game)@.wf(),
        lost == final(game)@.lost,
        old(game)@.lost || old(game)@.piece is Some ==> final(game)@ == old(game)@,
{
    if game.lost || game.piece.is_some() {
        return game.lost;
    }
    let piece = ActivePiece::spawned(game.size, shape);
    if can_move(&piece.blocks, game.size.width, MoveNeutral, &game.heap) {
        proof {
            lemma_fits_in_bounds(piece@, game.size, game.heap.blocks@);
        }
        game.piece = Some(piece);
        game.timers.lock_delay.reset();
        false
    } else {
        game.lost = true;
        true
    }
}

} // verus!
