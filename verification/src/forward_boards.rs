//! Successor boards with their counters maintained.
//!
//! `apply_action_with_counters` performs one action as a chain of cell
//! writes, adjusting the mobility fields incrementally after every
//! write and the token count fields on placement and capture, in the
//! order start-clear, end-set, beat-clear.  `forward_step_boards`
//! expands a position into all successor boards of the side to move.
//! Both promise that consistent counters stay consistent: the fields of
//! every result equal what a full rescan of its cells would give.

use vstd::prelude::*;

use crate::action::Action;
use crate::action::actions_spec;
use crate::action::legal_action;
use crate::action::lemma_actions_legal;
use crate::action::list_actions;
use crate::agent::AiPhase;
use crate::game_state::Phase;
use crate::move_token_count::btc_raw;
use crate::move_token_count::canon;
use crate::move_token_count::counters_ok;
use crate::move_token_count::extract_black_token_count_from_board;
use crate::move_token_count::extract_white_token_count_from_board;
use crate::move_token_count::lemma_add_black_token;
use crate::move_token_count::lemma_add_white_token;
use crate::move_token_count::lemma_canon_fields;
use crate::move_token_count::lemma_count_at_least_one;
use crate::move_token_count::lemma_count_congruent;
use crate::move_token_count::lemma_count_range;
use crate::move_token_count::lemma_count_set_cell;
use crate::move_token_count::lemma_en_set_cell;
use crate::move_token_count::lemma_fields_determine_high;
use crate::move_token_count::lemma_high_fields_eq;
use crate::move_token_count::lemma_mob_clear;
use crate::move_token_count::lemma_mob_congruent;
use crate::move_token_count::lemma_mob_le_31;
use crate::move_token_count::lemma_mob_nonneg;
use crate::move_token_count::lemma_mob_place;
use crate::move_token_count::lemma_own_set_cell;
use crate::move_token_count::lemma_sub_black_token;
use crate::move_token_count::lemma_sub_white_token;
use crate::move_token_count::mobility;
use crate::move_token_count::stored_of;
use crate::move_token_count::update_possible_move_count;
use crate::move_token_count::wtc_raw;
use crate::move_token_count::BLACK_TOKEN_FIRST_POSITION;
use crate::move_token_count::WHITE_TOKEN_FIRST_POSITION;
use crate::moves::apply_action_spec;
use crate::moves::lemma_adj_range;
use crate::position::cell_of;
use crate::position::count_tokens;
use crate::position::get_number_of_tokens;
use crate::position::lemma_board_eq;
use crate::position::lemma_cell_low48;
use crate::position::negate_code;
use crate::position::negate_token;
use crate::position::set_cell_spec;
use crate::position::set_token_at;

verus! {

/// The token count the search hands the move generator: the side's
/// count field plus its offset.
pub open spec fn nt_from_fields(b: u64, c: u8) -> u8 {
    if c == 0b11 {
        (wtc_raw(b) + 2) as u8
    } else {
        (btc_raw(b) + 2) as u8
    }
}

/// The successor boards of color `c`: each legal action applied to the
/// cells, with every counter field set to what the new cells call for.
pub open spec fn successor_boards(b: u64, c: u8, phase: Phase, nt: u8) -> Seq<u64> {
    actions_spec(b, c, phase, nt).map_values(|a: Action| canon(apply_action_spec(b, a, c)))
}

/// Counter consistency survives every step: each successor of a board
/// whose counters agree with its cells again carries counter fields
/// equal to what a full rescan of its cells would give.  Repeated from
/// the empty board, this keeps the cached counters of every reachable
/// position exact.
pub proof fn lemma_successor_counters_consistent(b: u64, c: u8, phase: Phase, nt: u8, i: int)
    requires
        counters_ok(b),
        c == 0b10 || c == 0b11,
        phase == Phase::Setting ==> count_tokens(b, c) <= 8,
        0 <= i < successor_boards(b, c, phase, nt).len(),
    ensures
        counters_ok(successor_boards(b, c, phase, nt)[i]),
{
    lemma_actions_legal(b, c, phase, nt);
    let a = actions_spec(b, c, phase, nt)[i];
    let x = apply_action_spec(b, a, c);
    let x1: u64 = match a.start_position {
        Some(s) => set_cell_spec(b, s as int, 0),
        None => b,
    };
    let x2: u64 = set_cell_spec(x1, a.end_position as int, c);
    if let Some(s) = a.start_position {
        lemma_count_set_cell(b, s as int, 0, 0b11, 24);
        lemma_count_set_cell(b, s as int, 0, 0b10, 24);
    }
    lemma_count_set_cell(x1, a.end_position as int, c, 0b11, 24);
    lemma_count_set_cell(x1, a.end_position as int, c, 0b10, 24);
    if let Some(bp) = a.beatable_position {
        lemma_count_set_cell(x2, bp as int, 0, 0b11, 24);
        lemma_count_set_cell(x2, bp as int, 0, 0b10, 24);
        lemma_count_at_least_one(b, negate_code(c), bp as int, 24);
    }
    lemma_count_range(b, 0b11, 24);
    lemma_count_range(b, 0b10, 24);
    assert(count_tokens(x, 0b11) <= 9 && count_tokens(x, 0b10) <= 9);
    lemma_mob_le_31(x, 0b11);
    lemma_mob_le_31(x, 0b10);
    lemma_canon_fields(x);
}

/// Applies one legal action and keeps every counter field consistent:
/// the result is the canonical board of the new cells.  The mobility
/// fields are adjusted incrementally after each of the up-to-three cell
/// writes; the token count fields move by one on placement and capture.
#[verifier::rlimit(100)]
pub fn apply_action_with_counters(board: u64, action: &Action, token_type: u8) -> (r: u64)
    requires
        counters_ok(board),
        token_type == 0b10 || token_type == 0b11,
        legal_action(board, token_type, *action),
        action.start_position is None ==> count_tokens(board, token_type) <= 8,
    ensures
        r == canon(apply_action_spec(board, *action, token_type)),
        counters_ok(r),
        count_tokens(r, token_type) == count_tokens(board, token_type) + (
        if action.start_position is None {
            1int
        } else {
            0int
        }),
        count_tokens(r, negate_code(token_type)) == count_tokens(board, negate_code(token_type)) - (
        if action.beatable_position is Some {
            1int
        } else {
            0int
        }),
{
    let ghost side = token_type;
    let ghost opp: u8 = negate_code(token_type);
    let ghost x1: u64 = match action.start_position {
        Some(s) => set_cell_spec(board, s as int, 0),
        None => board,
    };
    let ghost x2: u64 = set_cell_spec(x1, action.end_position as int, token_type);
    let ghost x3: u64 = match action.beatable_position {
        Some(bp) => set_cell_spec(x2, bp as int, 0),
        None => x2,
    };
    proof {
        lemma_adj_range();
        lemma_count_range(board, 0b11, 24);
        lemma_count_range(board, 0b10, 24);
        assert(x3 == apply_action_spec(board, *action, token_type));
    }
    let mut nb: u64 = board;

    // Clear the start cell of a slide, then re-derive the mobility fields.
    if let Some(s) = action.start_position {
        proof {
            lemma_en_set_cell(board, s as int, 0, s as int, 24);
            lemma_own_set_cell(board, s as int, 0, s as int, 0b11, 24);
            lemma_own_set_cell(board, s as int, 0, s as int, 0b10, 24);
            lemma_mob_clear(board, s as int, 0b11, 24);
            lemma_mob_clear(board, s as int, 0b10, 24);
            lemma_count_set_cell(board, s as int, 0, 0b11, 24);
            lemma_count_set_cell(board, s as int, 0, 0b10, 24);
        }
        nb = set_token_at(board, s, 0b00);
        proof {
            lemma_high_fields_eq(nb, board);
            lemma_mob_nonneg(nb, 0b11, 24);
            lemma_mob_nonneg(nb, 0b10, 24);
            lemma_mob_le_31(nb, 0b11);
            lemma_mob_le_31(nb, 0b10);
        }
        nb = update_possible_move_count(nb, token_type, s, true);
        proof {
            lemma_mob_congruent(nb, x1, 0b11, 24);
            lemma_mob_congruent(nb, x1, 0b10, 24);
            lemma_count_congruent(nb, x1, 0b11, 24);
            lemma_count_congruent(nb, x1, 0b10, 24);
        }
    }
    proof {
        assert(forall|q: int| 0 <= q < 24 ==> cell_of(nb, q) == cell_of(x1, q));
        assert(crate::move_token_count::wmob_raw(nb) as int == mobility(x1, 0b11));
        assert(crate::move_token_count::bmob_raw(nb) as int == mobility(x1, 0b10));
        assert(wtc_raw(nb) == wtc_raw(board) && btc_raw(nb) == btc_raw(board));
        assert(count_tokens(x1, side) == count_tokens(board, side) - (if action.start_position
            is Some {
            1int
        } else {
            0int
        }));
        assert(count_tokens(x1, opp) == count_tokens(board, opp));
        assert(cell_of(x1, action.end_position as int) == 0);
    }

    // Set the destination cell, then re-derive the mobility fields.
    let end = action.end_position;
    proof {
        lemma_en_set_cell(x1, end as int, token_type, end as int, 24);
        lemma_own_set_cell(x1, end as int, token_type, end as int, 0b11, 24);
        lemma_own_set_cell(x1, end as int, token_type, end as int, 0b10, 24);
        lemma_mob_place(x1, end as int, token_type, 0b11, 24);
        lemma_mob_place(x1, end as int, token_type, 0b10, 24);
        lemma_count_set_cell(x1, end as int, token_type, 0b11, 24);
        lemma_count_set_cell(x1, end as int, token_type, 0b10, 24);
        crate::move_token_count::lemma_en_congruent(nb, x1, end as int, 24);
        crate::move_token_count::lemma_own_congruent(nb, x1, end as int, 0b11, 24);
        crate::move_token_count::lemma_own_congruent(nb, x1, end as int, 0b10, 24);
    }
    let nb2 = set_token_at(nb, end, token_type);
    proof {
        lemma_high_fields_eq(nb2, nb);
        crate::position::lemma_set_cell(x1, end as int, token_type);
        assert(forall|q: int| 0 <= q < 24 ==> cell_of(nb2, q) == cell_of(x2, q));
        lemma_mob_congruent(nb2, x2, 0b11, 24);
        lemma_mob_congruent(nb2, x2, 0b10, 24);
        lemma_count_congruent(nb2, x2, 0b11, 24);
        lemma_count_congruent(nb2, x2, 0b10, 24);
        lemma_mob_nonneg(x2, 0b11, 24);
        lemma_mob_nonneg(x2, 0b10, 24);
        lemma_mob_le_31(x2, 0b11);
        lemma_mob_le_31(x2, 0b10);
        crate::move_token_count::lemma_en_congruent(nb2, x2, end as int, 24);
        crate::move_token_count::lemma_own_congruent(nb2, x2, end as int, 0b11, 24);
        crate::move_token_count::lemma_own_congruent(nb2, x2, end as int, 0b10, 24);
        lemma_en_set_cell(x1, end as int, token_type, end as int, 24);
    }
    let mut nb3 = update_possible_move_count(nb2, token_type, end, false);
    proof {
        lemma_mob_congruent(nb3, x2, 0b11, 24);
        lemma_mob_congruent(nb3, x2, 0b10, 24);
        lemma_count_congruent(nb3, x2, 0b11, 24);
        lemma_count_congruent(nb3, x2, 0b10, 24);
        assert(forall|q: int| 0 <= q < 24 ==> cell_of(nb3, q) == cell_of(x2, q));
        assert(crate::move_token_count::wmob_raw(nb3) as int == mobility(x2, 0b11));
        assert(crate::move_token_count::bmob_raw(nb3) as int == mobility(x2, 0b10));
        assert(count_tokens(x2, side) == count_tokens(x1, side) + 1);
        assert(count_tokens(x2, opp) == count_tokens(x1, opp));
    }

    // A placement brings one more token of the mover onto the board;
    // beyond the second one that shows in the count field.
    if action.start_position.is_none() {
        let cnt = get_number_of_tokens(board, token_type);
        if cnt >= 2 {
            let ghost pre_add = nb3;
            if token_type == 0b11 {
                proof {
                    lemma_add_white_token(nb3);
                }
                nb3 = nb3 + WHITE_TOKEN_FIRST_POSITION;
            } else {
                proof {
                    lemma_add_black_token(nb3);
                }
                nb3 = nb3 + BLACK_TOKEN_FIRST_POSITION;
            }
            proof {
                assert forall|q: int| 0 <= q < 24 implies cell_of(nb3, q) == cell_of(x2, q) by {
                    lemma_cell_low48(nb3, pre_add, q);
                }
            }
        }
    }
    proof {
        if side == 0b11 {
            assert(wtc_raw(nb3) == stored_of(count_tokens(x2, 0b11)));
            assert(btc_raw(nb3) == stored_of(count_tokens(x2, 0b10)));
        } else {
            assert(btc_raw(nb3) == stored_of(count_tokens(x2, 0b10)));
            assert(wtc_raw(nb3) == stored_of(count_tokens(x2, 0b11)));
        }
        lemma_mob_congruent(nb3, x2, 0b11, 24);
        lemma_mob_congruent(nb3, x2, 0b10, 24);
    }

    // Clear the beaten cell, re-derive the mobility fields, and take
    // the capture out of the opponent's count field.
    if let Some(bp) = action.beatable_position {
        proof {
            lemma_count_at_least_one(board, opp, bp as int, 24);
            lemma_en_set_cell(x2, bp as int, 0, bp as int, 24);
            lemma_own_set_cell(x2, bp as int, 0, bp as int, 0b11, 24);
            lemma_own_set_cell(x2, bp as int, 0, bp as int, 0b10, 24);
            lemma_mob_clear(x2, bp as int, 0b11, 24);
            lemma_mob_clear(x2, bp as int, 0b10, 24);
            lemma_count_set_cell(x2, bp as int, 0, 0b11, 24);
            lemma_count_set_cell(x2, bp as int, 0, 0b10, 24);
            crate::move_token_count::lemma_en_congruent(nb3, x2, bp as int, 24);
            crate::move_token_count::lemma_own_congruent(nb3, x2, bp as int, 0b11, 24);
            crate::move_token_count::lemma_own_congruent(nb3, x2, bp as int, 0b10, 24);
        }
        let nb4 = set_token_at(nb3, bp, 0b00);
        proof {
            lemma_high_fields_eq(nb4, nb3);
            crate::position::lemma_set_cell(x2, bp as int, 0);
            assert(forall|q: int| 0 <= q < 24 ==> cell_of(nb4, q) == cell_of(x3, q));
            lemma_mob_congruent(nb4, x3, 0b11, 24);
            lemma_mob_congruent(nb4, x3, 0b10, 24);
            lemma_mob_nonneg(x3, 0b11, 24);
            lemma_mob_nonneg(x3, 0b10, 24);
            lemma_count_congruent(nb4, x3, 0b11, 24);
            lemma_count_congruent(nb4, x3, 0b10, 24);
            lemma_mob_le_31(x3, 0b11);
            lemma_mob_le_31(x3, 0b10);
            crate::move_token_count::lemma_en_congruent(nb4, x3, bp as int, 24);
            crate::move_token_count::lemma_own_congruent(nb4, x3, bp as int, 0b11, 24);
            crate::move_token_count::lemma_own_congruent(nb4, x3, bp as int, 0b10, 24);
        }
        let opponent = negate_token(token_type);
        nb3 = update_possible_move_count(nb4, opponent, bp, true);
        proof {
            lemma_mob_congruent(nb3, x3, 0b11, 24);
            lemma_mob_congruent(nb3, x3, 0b10, 24);
            lemma_count_congruent(nb3, x3, 0b11, 24);
            lemma_count_congruent(nb3, x3, 0b10, 24);
        }
        let cnt_opp = if token_type == 0b11 {
            get_number_of_tokens(board, 0b10)
        } else {
            get_number_of_tokens(board, 0b11)
        };
        if cnt_opp >= 3 {
            let ghost pre_sub = nb3;
            if token_type == 0b11 {
                proof {
                    lemma_sub_black_token(nb3);
                }
                nb3 = nb3 - BLACK_TOKEN_FIRST_POSITION;
            } else {
                proof {
                    lemma_sub_white_token(nb3);
                }
                nb3 = nb3 - WHITE_TOKEN_FIRST_POSITION;
            }
            proof {
                assert forall|q: int| 0 <= q < 24 implies cell_of(nb3, q) == cell_of(x3, q) by {
                    lemma_cell_low48(nb3, pre_sub, q);
                }
            }
        }
        proof {
            assert(count_tokens(x3, opp) == count_tokens(x2, opp) - 1);
            assert(count_tokens(x3, side) == count_tokens(x2, side));
        }
    }
    proof {
        assert(forall|q: int| 0 <= q < 24 ==> cell_of(nb3, q) == cell_of(x3, q));
        assert(crate::move_token_count::wmob_raw(nb3) as int == mobility(x3, 0b11));
        assert(crate::move_token_count::bmob_raw(nb3) as int == mobility(x3, 0b10));
        assert(wtc_raw(nb3) == stored_of(count_tokens(x3, 0b11)));
        assert(btc_raw(nb3) == stored_of(count_tokens(x3, 0b10)));
        assert(count_tokens(x3, 0b11) <= 9 && count_tokens(x3, 0b10) <= 9);
        lemma_mob_le_31(x3, 0b11);
        lemma_mob_le_31(x3, 0b10);
        lemma_canon_fields(x3);
        lemma_fields_determine_high(nb3, canon(x3));
        assert(forall|q: int| 0 <= q < 24 ==> cell_of(nb3, q) == cell_of(canon(x3), q));
        lemma_board_eq(nb3, canon(x3));
        lemma_mob_congruent(nb3, x3, 0b11, 24);
        lemma_mob_congruent(nb3, x3, 0b10, 24);
        lemma_count_congruent(nb3, x3, 0b11, 24);
        lemma_count_congruent(nb3, x3, 0b10, 24);
    }
    nb3
}

/// Expands a position into all successor boards of the side to move,
/// one per legal action, each with consistent counters.
pub fn forward_step_boards(board: &u64, token_type: u8, phase: AiPhase) -> (r: Vec<u64>)
    requires
        counters_ok(*board),
        token_type == 0b10 || token_type == 0b11,
        phase.phase == Phase::Setting ==> count_tokens(*board, token_type) <= 8,
    ensures
        r@ == successor_boards(*board, token_type, phase.phase, nt_from_fields(*board, token_type)),
        forall|i: int| 0 <= i < r@.len() ==> counters_ok(r@[i]),
        forall|i: int|
            0 <= i < r@.len() ==> {
                let a = actions_spec(
                    *board,
                    token_type,
                    phase.phase,
                    nt_from_fields(*board, token_type),
                )[i];
                count_tokens(#[trigger] r@[i], token_type) == count_tokens(*board, token_type) + (
                if a.start_position is None {
                    1int
                } else {
                    0int
                }) && count_tokens(r@[i], negate_code(token_type)) == count_tokens(
                    *board,
                    negate_code(token_type),
                ) - (if a.beatable_position is Some {
                    1int
                } else {
                    0int
                }) && (a.start_position is None ==> phase.phase == Phase::Setting) && (
                a.start_position is Some ==> phase.phase == Phase::Move)
            },
{
    let number_of_token: u64 = if token_type == 0b11 {
        extract_white_token_count_from_board(*board)
    } else {
        extract_black_token_count_from_board(*board)
    };
    proof {
        lemma_count_range(*board, 0b11, 24);
        lemma_count_range(*board, 0b10, 24);
    }
    let nt = number_of_token as u8;
    let actions = list_actions(board, token_type, phase.phase, Some(nt));
    let ghost succ = successor_boards(*board, token_type, phase.phase, nt);
    proof {
        lemma_actions_legal(*board, token_type, phase.phase, nt);
    }
    let mut result: Vec<u64> = Vec::new();
    let mut k: usize = 0;
    while k < actions.len()
        invariant
            k <= actions.len(),
            counters_ok(*board),
            token_type == 0b10 || token_type == 0b11,
            phase.phase == Phase::Setting ==> count_tokens(*board, token_type) <= 8,
            actions@ == actions_spec(*board, token_type, phase.phase, nt),
            nt == nt_from_fields(*board, token_type),
            succ == successor_boards(*board, token_type, phase.phase, nt),
            forall|i: int|
                0 <= i < actions@.len() ==> {
                    let a = #[trigger] actions@[i];
                    legal_action(*board, token_type, a) && (match a.start_position {
                        Some(_) => phase.phase == Phase::Move,
                        None => phase.phase == Phase::Setting,
                    })
                },
            result@.len() == k,
            forall|i: int| 0 <= i < k ==> result@[i] == succ[i],
            forall|i: int| 0 <= i < k ==> counters_ok(#[trigger] result@[i]),
            forall|i: int|
                0 <= i < k ==> {
                    let a = actions@[i];
                    count_tokens(#[trigger] result@[i], token_type) == count_tokens(
                        *board,
                        token_type,
                    ) + (if a.start_position is None {
                        1int
                    } else {
                        0int
                    }) && count_tokens(result@[i], negate_code(token_type)) == count_tokens(
                        *board,
                        negate_code(token_type),
                    ) - (if a.beatable_position is Some {
                        1int
                    } else {
                        0int
                    })
                },
        decreases actions.len() - k,
    {
        let a = actions[k];
        let next = apply_action_with_counters(*board, &a, token_type);
        result.push(next);
        k = k + 1;
    }
    proof {
        assert(result@ =~= succ);
    }
    result
}

} // verus!
