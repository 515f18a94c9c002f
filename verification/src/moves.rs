//! Board topology and single-move rules: the adjacency graph of the 24
//! positions, move validity, applying moves and actions to the cells,
//! and the capture-eligibility rule.

use vstd::prelude::*;

use crate::action::Action;
use crate::action::Move;
use crate::mill_detection::all_in_mill;
use crate::mill_detection::in_mill;
use crate::mill_detection::is_all_part_of_mill;
use crate::mill_detection::is_part_of_mill;
use crate::position::cell_of;
use crate::position::negate_code;
use crate::position::set_cell_spec;
use crate::position::set_token_at;

verus! {

/// The adjacency relation of the board graph.
///
/// Each ring is a cycle of eight positions; the three rings are joined
/// by spokes at the even mid-edge positions.  The relation is false for
/// anything outside `0..24`.
pub open spec fn adj(p: int, q: int) -> bool {
    if p == 0 {
        q == 1 || q == 7 || q == 8
    } else if p == 1 {
        q == 0 || q == 2
    } else if p == 2 {
        q == 1 || q == 3 || q == 10
    } else if p == 3 {
        q == 2 || q == 4
    } else if p == 4 {
        q == 3 || q == 5 || q == 12
    } else if p == 5 {
        q == 4 || q == 6
    } else if p == 6 {
        q == 5 || q == 7 || q == 14
    } else if p == 7 {
        q == 0 || q == 6
    } else if p == 8 {
        q == 0 || q == 9 || q == 15 || q == 16
    } else if p == 9 {
        q == 8 || q == 10
    } else if p == 10 {
        q == 2 || q == 9 || q == 11 || q == 18
    } else if p == 11 {
        q == 10 || q == 12
    } else if p == 12 {
        q == 4 || q == 11 || q == 13 || q == 20
    } else if p == 13 {
        q == 12 || q == 14
    } else if p == 14 {
        q == 6 || q == 13 || q == 15 || q == 22
    } else if p == 15 {
        q == 8 || q == 14
    } else if p == 16 {
        q == 8 || q == 17 || q == 23
    } else if p == 17 {
        q == 16 || q == 18
    } else if p == 18 {
        q == 10 || q == 17 || q == 19
    } else if p == 19 {
        q == 18 || q == 20
    } else if p == 20 {
        q == 12 || q == 19 || q == 21
    } else if p == 21 {
        q == 20 || q == 22
    } else if p == 22 {
        q == 14 || q == 21 || q == 23
    } else if p == 23 {
        q == 16 || q == 22
    } else {
        false
    }
}

/// The adjacency relation is symmetric.
pub proof fn lemma_adj_symmetric()
    ensures
        forall|p: int, q: int| adj(p, q) == adj(q, p),
{
    assert forall|p: int, q: int| adj(p, q) implies adj(q, p) by {
        assert(0 <= p < 24 && 0 <= q < 24);
    }
    assert forall|p: int, q: int| adj(q, p) implies adj(p, q) by {
        assert(0 <= p < 24 && 0 <= q < 24);
    }
}

/// No position is its own neighbor, and neighbors lie on the board.
pub proof fn lemma_adj_range()
    ensures
        forall|p: int| !adj(p, p),
        forall|p: int, q: int| adj(p, q) ==> 0 <= p < 24 && 0 <= q < 24,
{
}

/// A sliding move is valid when the destination is empty and either the
/// mover is down to exactly 3 tokens ("flying") or the destination is a
/// neighbor of the start.
pub open spec fn move_valid(start: int, end: int, end_code: u8, number_of_token_type: u8) -> bool {
    end_code == 0 && (number_of_token_type == 3 || adj(start, end))
}

/// Whether `position2` is a direct neighbor of `position1`.
pub fn is_neighbor(position1: usize, position2: usize) -> (r: bool)
    requires
        position1 < 24,
    ensures
        r == adj(position1 as int, position2 as int),
{
    let q = position2;
    match position1 {
        0 => q == 1 || q == 7 || q == 8,
        1 => q == 0 || q == 2,
        2 => q == 1 || q == 3 || q == 10,
        3 => q == 2 || q == 4,
        4 => q == 3 || q == 5 || q == 12,
        5 => q == 4 || q == 6,
        6 => q == 5 || q == 7 || q == 14,
        7 => q == 0 || q == 6,
        8 => q == 0 || q == 9 || q == 15 || q == 16,
        9 => q == 8 || q == 10,
        10 => q == 2 || q == 9 || q == 11 || q == 18,
        11 => q == 10 || q == 12,
        12 => q == 4 || q == 11 || q == 13 || q == 20,
        13 => q == 12 || q == 14,
        14 => q == 6 || q == 13 || q == 15 || q == 22,
        15 => q == 8 || q == 14,
        16 => q == 8 || q == 17 || q == 23,
        17 => q == 16 || q == 18,
        18 => q == 10 || q == 17 || q == 19,
        19 => q == 18 || q == 20,
        20 => q == 12 || q == 19 || q == 21,
        21 => q == 20 || q == 22,
        22 => q == 14 || q == 21 || q == 23,
        _ => q == 16 || q == 22,
    }
}

/// Whether a slide from `start_position` to `end_position` is legal for
/// a side holding `number_of_token_type` tokens, where `end_token` is
/// the cell code currently at the destination.
pub fn is_move_valid(
    start_position: usize,
    end_position: usize,
    end_token: u8,
    number_of_token_type: u8,
) -> (r: bool)
    requires
        start_position < 24,
    ensures
        r == move_valid(start_position as int, end_position as int, end_token, number_of_token_type),
{
    if end_token != 0b00 {
        return false;
    }
    if number_of_token_type == 3 || is_neighbor(start_position, end_position) {
        return true;
    }
    false
}

/// The cells after a move: the start cell (if any) cleared, the end
/// cell set to `t`.
pub open spec fn apply_move_spec(b: u64, m: Move, t: u8) -> u64 {
    let b1 = match m.start_position {
        Some(s) => set_cell_spec(b, s as int, 0),
        None => b,
    };
    set_cell_spec(b1, m.end_position as int, t)
}

/// The cells after an action: the move applied, then the beaten cell
/// (if any) cleared.
pub open spec fn apply_action_spec(b: u64, a: Action, t: u8) -> u64 {
    let b1 = match a.start_position {
        Some(s) => set_cell_spec(b, s as int, 0),
        None => b,
    };
    let b2 = set_cell_spec(b1, a.end_position as int, t);
    match a.beatable_position {
        Some(bp) => set_cell_spec(b2, bp as int, 0),
        None => b2,
    }
}

/// Whether the token at `position` may be captured by `token_current_player`:
/// the cell holds the opponent, and the opponent token is either outside
/// every closed mill, or every opponent token sits in a mill.
pub open spec fn beat_possible(b: u64, position: int, token_current_player: u8) -> bool {
    let opp = negate_code(token_current_player);
    cell_of(b, position) == opp && (!in_mill(b, position, opp) || all_in_mill(b, opp))
}

/// Applies a move to the cell bits, leaving the counter bits alone.
pub fn apply_move(board: &u64, item_move: &Move, token_type: u8) -> (r: u64)
    requires
        item_move.end_position < 24,
        item_move.start_position matches Some(s) ==> s < 24,
        token_type <= 3,
    ensures
        r == apply_move_spec(*board, *item_move, token_type),
        r >> 48 == *board >> 48,
{
    let mut new_board = *board;
    if let Some(s) = item_move.start_position {
        new_board = set_token_at(*board, s, 0b00);
    }
    set_token_at(new_board, item_move.end_position, token_type)
}

/// Applies an action to the cell bits: start cleared, end set, beaten
/// cell cleared.  The counter bits are left alone.
pub fn apply_action(board: &u64, action: &Action, token_type: u8) -> (r: u64)
    requires
        action.end_position < 24,
        action.start_position matches Some(s) ==> s < 24,
        action.beatable_position matches Some(bp) ==> bp < 24,
        token_type <= 3,
    ensures
        r == apply_action_spec(*board, *action, token_type),
        r >> 48 == *board >> 48,
{
    let mut new_board = *board;
    if let Some(s) = action.start_position {
        new_board = set_token_at(*board, s, 0b00);
    }
    new_board = set_token_at(new_board, action.end_position, token_type);
    if let Some(bp) = action.beatable_position {
        new_board = set_token_at(new_board, bp, 0b00);
    }
    new_board
}

/// Whether the token at `position` may be captured by the given side.
pub fn is_beat_possible(board: u64, position: usize, token_current_player: u8) -> (r: bool)
    requires
        position < 24,
        token_current_player == 0b10 || token_current_player == 0b11,
    ensures
        r == beat_possible(board, position as int, token_current_player),
{
    let token_of_opponent = crate::position::negate_token(token_current_player);
    if crate::position::cell_code(board, position) != token_of_opponent {
        return false;
    }
    if !is_part_of_mill(board, position, token_of_opponent) {
        return true;
    }
    is_all_part_of_mill(board, token_of_opponent)
}

/// If the opponent still has a token outside every mill, then no token
/// of theirs inside a mill may be captured, and at least one of their
/// tokens may be.
pub proof fn lemma_capture_legality(b: u64, token_current_player: u8, witness: int)
    requires
        token_current_player == 0b10 || token_current_player == 0b11,
        0 <= witness < 24,
        cell_of(b, witness) == negate_code(token_current_player),
        !in_mill(b, witness, negate_code(token_current_player)),
    ensures
        forall|p: int|
            0 <= p < 24 && cell_of(b, p) == negate_code(token_current_player) && in_mill(
                b,
                p,
                negate_code(token_current_player),
            ) ==> !beat_possible(b, p, token_current_player),
        exists|p: int| 0 <= p < 24 && beat_possible(b, p, token_current_player),
{
    let opp = negate_code(token_current_player);
    assert(!all_in_mill(b, opp));
    assert(beat_possible(b, witness, token_current_player));
}

/// With exactly 3 tokens every empty cell is a legal destination from
/// anywhere ("flying"); with any other token count only empty neighbor
/// cells are.
pub proof fn lemma_move_legality_boundary(b: u64, start: int, end: int, number_of_token_type: u8)
    requires
        0 <= start < 24,
        0 <= end < 24,
    ensures
        number_of_token_type == 3 && cell_of(b, end) == 0 ==> move_valid(
            start,
            end,
            cell_of(b, end),
            number_of_token_type,
        ),
        number_of_token_type != 3 ==> move_valid(start, end, cell_of(b, end), number_of_token_type)
            == (cell_of(b, end) == 0 && adj(start, end)),
{
}

} // verus!
