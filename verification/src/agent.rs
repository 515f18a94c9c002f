//! The playing agent: the phase-and-step clock that the search carries
//! along, and the iterative-deepening driver that picks the engine's
//! move under a wall-clock budget.

use vstd::prelude::*;

use crate::action::Action;
use crate::action::actions_spec;
use crate::action::list_actions;
use crate::forward_boards::forward_step_boards;
use crate::forward_boards::nt_from_fields;
use crate::game_state::Phase;
use crate::game_state::Token;
use crate::game_state::code_of_token;
use crate::minimax::game_value;
use crate::minimax::minimax;
use crate::minimax::search_inv;
use crate::move_token_count::canon;
use crate::move_token_count::counters_ok;
use crate::move_token_count::extract_black_token_count_from_board;
use crate::move_token_count::extract_white_token_count_from_board;
use crate::move_token_count::insert_number_of_possible_moves_to_board;
use crate::move_token_count::insert_token_count_to_board;
use crate::move_token_count::lemma_canon_fields;
use crate::move_token_count::lemma_count_congruent;
use crate::move_token_count::lemma_fields_determine_high;
use crate::move_token_count::lemma_mob_congruent;
use crate::move_token_count::lemma_mob_le_31;
use crate::position::count_tokens;
use crate::position::lemma_board_eq;
use crate::position::negate_code;
use crate::position::negate_token;
use rayon::iter::IntoParallelRefIterator;
use rayon::iter::ParallelIterator;
use std::time::Instant;

verus! {

/// The wall clock the search polls to bound its running time.
#[verifier::external_type_specification]
#[verifier::external_body]
pub struct ExInstant(Instant);

/// Relies on `std::time::Instant::now`: an opaque timestamp of the
/// moment of the call.  Nothing is promised of its value.
#[verifier::external_body]
pub fn now_instant() -> Instant {
    Instant::now()
}

/// Relies on `Instant::elapsed` and `Duration::as_secs`: whether more
/// than `max_time` seconds have passed since `time`.  The answer
/// depends on the clock, so nothing is promised of it.
#[verifier::external_body]
pub fn deadline_exceeded(time: &Instant, max_time: u64) -> bool {
    time.elapsed().as_secs() > max_time
}

/// The game clock a search node carries: the phase and the number of
/// half-moves played.  The set phase ends with the 18th half-move.
#[derive(Clone, Copy, PartialEq, Eq, Structural)]
pub struct AiPhase {
    pub phase: Phase,
    pub step_counter: u8,
}

impl AiPhase {
    pub fn new(phase: Phase, step_counter: u8) -> (r: AiPhase)
        ensures
            r.phase == phase,
            r.step_counter == step_counter,
    {
        AiPhase { phase, step_counter }
    }

    /// The clock one half-move later; the set phase gives way to the
    /// move phase as soon as 18 half-moves have been played.
    pub fn increased(&self) -> (r: AiPhase)
        requires
            self.step_counter < 255,
        ensures
            r == self.spec_increased(),
    {
        let mut new_phase = AiPhase::new(self.phase, self.step_counter + 1);
        if new_phase.phase == Phase::Setting && new_phase.step_counter >= 18 {
            new_phase.phase = Phase::Move;
        }
        new_phase
    }

    /// The clock one half-move later.
    pub open spec fn spec_increased(self) -> AiPhase {
        AiPhase {
            phase: if self.phase == Phase::Setting && self.step_counter + 1 >= 18 {
                Phase::Move
            } else {
                self.phase
            },
            step_counter: (self.step_counter + 1) as u8,
        }
    }
}

/// Relies on rayon's `par_iter`, `ParallelIterator::map` and `collect`
/// into a `Vec`: the verified `minimax` is applied to every board of
/// the slice, in parallel, and the results are collected in input
/// order.  Each result therefore satisfies `minimax`'s contract for
/// the full `(i64::MIN, i64::MAX)` window.
#[verifier::external_body]
fn minimax_scores_parallel(
    boards: &Vec<u64>,
    depth: usize,
    player: u8,
    phase: AiPhase,
    time: &Instant,
    max_time: u64,
) -> (r: Vec<Option<i64>>)
    requires
        player == 0b10 || player == 0b11,
        phase.step_counter as int + depth as int <= 255,
        forall|i: int| 0 <= i < boards@.len() ==> search_inv(#[trigger] boards@[i], player, phase),
    ensures
        r@.len() == boards@.len(),
        forall|i: int|
            0 <= i < r@.len() ==> (#[trigger] r@[i] matches Some(v) ==> {
                let g = game_value(boards@[i], depth as nat, player, phase);
                &&& (v <= i64::MIN ==> g <= v)
                &&& (v >= i64::MAX ==> g >= v)
                &&& (i64::MIN < v < i64::MAX ==> v == g)
            }),
{
    boards.par_iter().map(
        |b| minimax(*b, depth, i64::MIN, i64::MAX, player, phase, time, max_time),
    ).collect()
}

/// Picks the engine's move by iterative deepening: every legal action
/// of `player` is scored by an alpha-beta search of growing depth, in
/// parallel across the root actions, until the wall-clock budget of
/// `max_time` seconds runs out or `max_depth` is reached.  The choice
/// of the last fully completed depth wins; among equal scores the
/// action seen last is kept.  The result is always one of the legal
/// actions of `player` at the board.
pub fn calculate_next_move(
    board: u64,
    player: Token,
    ai_phase: AiPhase,
    max_depth: usize,
    max_time: u64,
) -> (r: Action)
    requires
        player == Token::White || player == Token::Black,
        count_tokens(board, 0b11) <= 9,
        count_tokens(board, 0b10) <= 9,
        ai_phase.step_counter as int + max_depth as int + 1 <= 255,
        ai_phase.phase == Phase::Setting ==> ai_phase.step_counter < 18 && count_tokens(
            board,
            code_of_token(player),
        ) <= ai_phase.step_counter as int / 2 && count_tokens(
            board,
            negate_code(code_of_token(player)),
        ) <= (ai_phase.step_counter + 1) / 2,
        actions_spec(
            canon(board),
            code_of_token(player),
            ai_phase.phase,
            nt_from_fields(canon(board), code_of_token(player)),
        ).len() > 0,
    ensures
        exists|i: int|
            0 <= i < actions_spec(
                canon(board),
                code_of_token(player),
                ai_phase.phase,
                nt_from_fields(canon(board), code_of_token(player)),
            ).len() && actions_spec(
                canon(board),
                code_of_token(player),
                ai_phase.phase,
                nt_from_fields(canon(board), code_of_token(player)),
            )[i] == r,
{
    let counted_board = insert_token_count_to_board(board);
    proof {
        lemma_mob_le_31(board, 0b11);
        lemma_mob_le_31(board, 0b10);
        lemma_mob_congruent(counted_board, board, 0b11, 24);
        lemma_mob_congruent(counted_board, board, 0b10, 24);
        lemma_count_congruent(counted_board, board, 0b11, 24);
        lemma_count_congruent(counted_board, board, 0b10, 24);
    }
    let full_board = insert_number_of_possible_moves_to_board(counted_board);
    proof {
        lemma_canon_fields(board);
        lemma_count_congruent(full_board, board, 0b11, 24);
        lemma_count_congruent(full_board, board, 0b10, 24);
        lemma_mob_congruent(full_board, board, 0b11, 24);
        lemma_mob_congruent(full_board, board, 0b10, 24);
        lemma_fields_determine_high(full_board, canon(board));
        lemma_board_eq(full_board, canon(board));
    }
    let side = Token::parse_to_u8(player);
    let number_of_token: u64 = if side == 0b11 {
        extract_white_token_count_from_board(full_board)
    } else {
        extract_black_token_count_from_board(full_board)
    };
    let nt = number_of_token as u8;
    let actions = list_actions(&full_board, side, ai_phase.phase, Some(nt));
    let boards = forward_step_boards(&full_board, side, ai_phase);
    let ghost action_list = actions_spec(
        canon(board),
        code_of_token(player),
        ai_phase.phase,
        nt_from_fields(canon(board), code_of_token(player)),
    );
    proof {
        assert(actions@ == action_list);
        assert(boards@.len() == action_list.len());
    }
    let opp = negate_token(side);
    let next_phase = ai_phase.increased();
    proof {
        assert forall|i: int| 0 <= i < boards@.len() implies search_inv(
            #[trigger] boards@[i],
            opp,
            next_phase,
        ) by {
            assert(counters_ok(boards@[i]));
        }
    }
    let time = now_instant();

    let mut depth: usize = 0;
    let mut best_action_total: Option<Action> = None;
    while depth <= max_depth
        invariant
            actions@ == action_list,
            action_list.len() > 0,
            boards@.len() == action_list.len(),
            side == code_of_token(player),
            side == 0b10 || side == 0b11,
            opp == negate_code(side),
            ai_phase.step_counter as int + max_depth as int + 1 <= 255,
            next_phase == ai_phase.spec_increased(),
            depth <= max_depth + 1,
            forall|i: int| 0 <= i < boards@.len() ==> search_inv(#[trigger] boards@[i], opp, next_phase),
            best_action_total matches Some(a) ==> exists|i: int|
                0 <= i < action_list.len() && action_list[i] == a,
        decreases max_depth + 1 - depth,
    {
        let scores = minimax_scores_parallel(&boards, depth, opp, next_phase, &time, max_time);
        let mut best_action: Option<Action> = None;
        let mut best_score: i64 = if side == 0b11 {
            i64::MIN
        } else {
            i64::MAX
        };
        let mut aborted = false;
        let mut j: usize = 0;
        while j < scores.len()
            invariant
                j <= scores.len(),
                scores@.len() == boards@.len(),
                boards@.len() == action_list.len(),
                actions@ == action_list,
                side == 0b10 || side == 0b11,
                best_action matches Some(a) ==> exists|i: int|
                    0 <= i < action_list.len() && action_list[i] == a,
                j == 0 ==> best_action is None && best_score == (if side == 0b11 {
                    i64::MIN
                } else {
                    i64::MAX
                }),
                !aborted && j > 0 ==> best_action is Some,
            decreases scores.len() - j,
        {
            match scores[j] {
                None => {
                    aborted = true;
                    break ;
                },
                Some(score) => {
                    if (side == 0b11 && score >= best_score) || (side == 0b10 && score
                        <= best_score) {
                        best_action = Some(actions[j]);
                        best_score = score;
                    }
                },
            }
            j = j + 1;
        }
        if aborted {
            break ;
        }
        if best_action.is_some() {
            best_action_total = best_action;
        }
        depth = depth + 1;
    }
    match best_action_total {
        Some(a) => a,
        None => actions[0],
    }
}

} // verus!
