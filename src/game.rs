use vstd::prelude::*;
use crate::grid::GridSize;
use crate::heap::{lock, lock_result, Heap, HeapEntry};
use crate::input::Inputs;
use crate::movement::{movement, movement_result};
use crate::movement_types::{HardDropOccurred, ResetLockDelay};
use crate::piece::{spawn, spawn_result, ActivePiece, PieceView, Shape};
use crate::rotation::{rotation, rotation_step};
use crate::timer::Timers;

verus! {

/// The whole state of a game between two steps.
pub struct Game {
    pub size: GridSize,
    pub heap: Heap,
    /// The piece under the player's control; none once the game is lost,
    /// and none between a lock and the next spawn.
    pub piece: Option<ActivePiece>,
    pub timers: Timers,
    pub reset_lock_delay: ResetLockDelay,
    pub hard_drop: HardDropOccurred,
    pub lost: bool,
}

/// A game as plain values.
pub struct GameView {
    pub size: GridSize,
    pub cells: Seq<HeapEntry>,
    pub piece: Option<PieceView>,
    pub timers: Timers,
    pub reset_lock_delay: bool,
    pub hard_drop: bool,
    pub lost: bool,
}

impl View for Game {
    type V = GameView;

    open spec fn view(&self) -> GameView {
        GameView {
            size: self.size,
            cells: self.heap.blocks@,
            piece: match self.piece {
                Some(p) => Some(p@),
                None => None,
            },
            timers: self.timers,
            reset_lock_delay: self.reset_lock_delay.0,
            hard_drop: self.hard_drop.0,
            lost: self.lost,
        }
    }
}

impl GameView {
    pub open spec fn wf(self) -> bool {
        &&& self.size.wf()
        &&& self.cells.len() == self.size.cell_count()
        &&& self.timers.wf()
        &&& (self.lost ==> self.piece is None)
        &&& (self.piece matches Some(p) ==> p.wf(self.size))
    }

    pub open spec fn width(self) -> int {
        self.size.width as int
    }
}

/// A game on an empty playfield of size `size`, before its first piece.
pub open spec fn empty_game(size: GridSize, timers: Timers) -> GameView {
    GameView {
        size,
        cells: Seq::new(size.cell_count() as nat, |i: int| HeapEntry::Vacant),
        piece: None,
        timers,
        reset_lock_delay: false,
        hard_drop: false,
        lost: false,
    }
}

/// The game after one step of `elapsed` microseconds with the actions
/// `inputs`, and whether the game was lost during it. A lost game does not
/// change. Otherwise the piece moves, turns and maybe locks, in this order;
/// a game without a piece then gets one of shape `next`.
pub open spec fn step_result(g: GameView, elapsed: u64, inputs: Inputs, next: Shape) -> (GameView, bool) {
    if g.lost {
        (g, false)
    } else {
        let g1 = if g.piece is Some {
            lock_result(rotation_step(movement_result(g, elapsed, inputs), inputs), elapsed).0
        } else {
            g
        };
        let g2 = if g1.piece is None && !g1.lost {
            spawn_result(g1, next)
        } else {
            g1
        };
        (g2, g2.lost)
    }
}

impl Game {
    /// Runs one step of `elapsed` microseconds with the actions `inputs`;
    /// `next` is the shape of the piece that spawns if one is needed.
    /// Returns `true` on the one step during which the game is lost.
    pub fn step(&mut self, elapsed: u64, inputs: &Inputs, next: Shape) -> (lost_now: bool)
        requires
            old(self)@.wf(),
        ensures
            (final(self)@, lost_now) == step_result(old(self)@, elapsed, *inputs, next),
            final(self)@.wf(),
            final(self)@.piece matches Some(p) ==> p.in_bounds(final(self)@.size),
            lost_now == (!old(self)@.lost && final(self)@.lost),
            old(self)@.lost ==> final(self)@ == old(self)@,
    {
        if self.lost {
            return false;
        }
        if self.piece.is_some() {
            movement(self, elapsed, inputs);
            rotation(self, inputs);
            lock(self, elapsed);
        }
        if self.piece.is_none() && !self.lost {
            spawn(self, next);
        }
        self.lost
    }

    pub fn is_lost(&self) -> (r: bool)
        ensures
            r == self.lost,
    {
        self.lost
    }

    /// A game on an empty playfield with `first` as its first piece.
    pub fn new(size: GridSize, timers: Timers, first: Shape) -> (r: Game)
        requires
            size.wf(),
            timers.wf(),
        ensures
            r@ == spawn_result(empty_game(size, timers), first),
            r@.wf(),
    {
        let heap = Heap::new(size);
        let mut game = Game {
            size,
            heap,
            piece: None,
            timers,
            reset_lock_delay: ResetLockDelay::new(),
            hard_drop: HardDropOccurred::new(),
            lost: false,
        };
        assert(game.heap.blocks@ =~= empty_game(size, timers).cells);
        assert(game@ == empty_game(size, timers));
        spawn(&mut game, first);
        game
    }
}

} // verus!
