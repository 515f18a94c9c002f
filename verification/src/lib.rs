//! A Nine Men's Morris ("Muehle") game engine on a bit-packed board.
//!
//! A whole game position lives in one `u64`: 24 cells of 2 bits each in the
//! low 48 bits, offset-encoded token counts for both colors in bits 48..54,
//! and cached per-side mobility counts in bits 54..64.  The modules build on
//! each other: the cell codec, the board topology, mill detection, move and
//! action generation, incremental counter maintenance, and finally a
//! time-bounded minimax search with alpha-beta pruning.

pub mod action;
pub mod agent;
pub mod enumerate;
pub mod forward_boards;
pub mod game_utils;
pub mod game_state;
pub mod mill_detection;
pub mod move_token_count;
pub mod minimax;
pub mod moves;
pub mod position;

use vstd::prelude::*;

verus! {

} // verus!
