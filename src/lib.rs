//! Piece movement, rotation and locking for a falling-block puzzle game.
//!
//! The playfield is a grid of cells that are either vacant or occupied. One
//! piece of four blocks is under the player's control at a time; it moves,
//! falls, rotates with wall kicks and finally locks into the grid, after which
//! the next piece spawns at the top.

mod game;
mod grid;
mod heap;
mod input;
mod laws;
mod movement;
mod movement_types;
mod piece;
mod rotation;
mod timer;

pub use grid::{fits, free_at, shifted, GridPos, GridSize, Matrix, MatrixPosition, MAX_DIM};
pub use heap::{cell_index, lock, lock_result, locked, placed, tops_out, with_lock_delay, Heap, HeapEntry};
pub use movement_types::{HardDropOccurred, MoveNeutral, MoveOffset, MoveX, MoveY, ResetLockDelay};
pub use movement::{can_move, checked_drop, checked_lateral, drop_distance, drop_from, lateral_intent, movement, movement_offset, movement_result, soft_drop_intent};
pub use timer::{Countdown, Timers};
pub use input::{held_after, input, Input, Inputs, KeyAction, KeyActions};
pub use piece::{lemma_spawn_rows_aligned, random_shape, spawn, spawn_result, spawned, ActivePiece, Origin, OriginMode, PieceView, Shape};
pub use rotation::{basic_rotation, in_i16, rotation_in_range, first_kick, rotate_piece, rotate_request, rotated_pos, rotation, rotation_result, rotation_step, turned, wall_kicks, Rotate};
pub use game::{empty_game, step_result, Game, GameView};
pub use laws::{grounded, idle, lemma_hard_drop, lemma_lock_delay, lemma_rotation_round_trip, lemma_step_in_bounds, lemma_step_no_overlap, lemma_top_out_loses_once, moves_fit_together, no_overlap, run, total};
