//! Minimax search with alpha-beta pruning over the packed boards.
//!
//! `game_value` is the reference value of a position: terminal
//! positions score `±(i64::MAX - step_counter)` so that faster wins
//! outrank slower ones, leaves score by material and mobility, and
//! inner nodes take the best child value of the side to move.  The
//! executable search prunes with an `(alpha, beta)` window and promises
//! the classical fail-soft guarantee: a result inside the window is the
//! exact game value, a result at or outside a bound is a bound on it.
//! A search past its deadline returns `None` and promises nothing.

use vstd::prelude::*;

use std::time::Instant;
use vstd::multiset::Multiset;

use crate::agent::AiPhase;
use crate::agent::deadline_exceeded;
use crate::forward_boards::forward_step_boards;
use crate::forward_boards::nt_from_fields;
use crate::forward_boards::successor_boards;
use crate::game_state::Phase;
use crate::move_token_count::bmob_raw;
use crate::move_token_count::btc_raw;
use crate::move_token_count::counters_ok;
use crate::move_token_count::extract_black_move_count_from_board;
use crate::move_token_count::extract_black_token_count_from_board;
use crate::move_token_count::extract_white_move_count_from_board;
use crate::move_token_count::extract_white_token_count_from_board;
use crate::move_token_count::wmob_raw;
use crate::move_token_count::wtc_raw;
use crate::position::count_tokens;
use crate::position::negate_code;
use crate::position::negate_token;

verus! {

/// Black has lost: no move while holding more than 3 tokens, or down
/// to 2 tokens.  Read from the cached counter fields.
pub open spec fn black_lost(b: u64) -> bool {
    (bmob_raw(b) == 0 && btc_raw(b) + 2 > 3) || btc_raw(b) + 2 == 2
}

/// White has lost: no move while holding more than 3 tokens, or down
/// to 2 tokens.
pub open spec fn white_lost(b: u64) -> bool {
    (wmob_raw(b) == 0 && wtc_raw(b) + 2 > 3) || wtc_raw(b) + 2 == 2
}

/// The score of a position where white has forced a win: higher the
/// earlier the win falls.
pub open spec fn win_score(step: u8) -> int {
    i64::MAX - step
}

/// The score of a position where white has lost: higher the later the
/// loss falls.
pub open spec fn loss_score(step: u8) -> int {
    i64::MIN + step
}

/// The static score of a position: a terminal score if the game is
/// over in the move phase, else material difference (weighted 1000)
/// plus mobility difference, white positive.
pub open spec fn eval_value(b: u64, ph: AiPhase) -> int {
    if ph.phase == Phase::Move && black_lost(b) {
        win_score(ph.step_counter)
    } else if ph.phase == Phase::Move && white_lost(b) {
        loss_score(ph.step_counter)
    } else {
        (wtc_raw(b) as int - btc_raw(b) as int) * 1000 + wmob_raw(b) as int - bmob_raw(b) as int
    }
}

/// The score an empty list of successors falls back to: the worst
/// outcome for the side to move, at this step.
pub open spec fn base_score(player: u8, ph: AiPhase) -> int {
    if player == 0b11 {
        loss_score(ph.step_counter)
    } else {
        win_score(ph.step_counter)
    }
}

/// The minimax value of a position for the side `player` to move,
/// looking `depth` half-moves ahead: terminal positions score by
/// `win_score`/`loss_score`, exhausted depth scores statically, and an
/// inner node takes the best child value of the side to move, starting
/// from `base_score` so that a position without moves counts as lost.
pub open spec fn game_value(b: u64, depth: nat, player: u8, ph: AiPhase) -> int
    decreases depth, 1int, 0int,
{
    if ph.phase == Phase::Move && black_lost(b) {
        win_score(ph.step_counter)
    } else if ph.phase == Phase::Move && white_lost(b) {
        loss_score(ph.step_counter)
    } else if depth == 0 {
        eval_value(b, ph)
    } else {
        let succs = successor_boards(b, player, ph.phase, nt_from_fields(b, player));
        fold_children(succs, succs.len() as int, depth, player, ph)
    }
}

/// The best value among the first `k` children, starting from the
/// side's `base_score`: the maximum for white, the minimum for black.
pub open spec fn fold_children(s: Seq<u64>, k: int, depth: nat, player: u8, ph: AiPhase) -> int
    decreases depth, 0int, k,
{
    if k <= 0 || depth == 0 {
        base_score(player, ph)
    } else {
        let prev = fold_children(s, k - 1, depth, player, ph);
        let v = game_value(s[k - 1], (depth - 1) as nat, negate_code(player), ph.spec_increased());
        if player == 0b11 {
            if v > prev {
                v
            } else {
                prev
            }
        } else {
            if v < prev {
                v
            } else {
                prev
            }
        }
    }
}

/// Folding more children only improves the value for the side to move.
proof fn lemma_fold_monotone(s: Seq<u64>, k1: int, k2: int, depth: nat, player: u8, ph: AiPhase)
    requires
        0 <= k1 <= k2,
    ensures
        player == 0b11 ==> fold_children(s, k1, depth, player, ph) <= fold_children(
            s,
            k2,
            depth,
            player,
            ph,
        ),
        player != 0b11 ==> fold_children(s, k1, depth, player, ph) >= fold_children(
            s,
            k2,
            depth,
            player,
            ph,
        ),
    decreases k2,
{
    if k1 < k2 {
        lemma_fold_monotone(s, k1, k2 - 1, depth, player, ph);
    }
}

/// The fold over all children bounds each single child value.
proof fn lemma_fold_element(s: Seq<u64>, j: int, k: int, depth: nat, player: u8, ph: AiPhase)
    requires
        0 <= j < k,
        depth > 0,
    ensures
        player == 0b11 ==> fold_children(s, k, depth, player, ph) >= game_value(
            s[j],
            (depth - 1) as nat,
            negate_code(player),
            ph.spec_increased(),
        ),
        player != 0b11 ==> fold_children(s, k, depth, player, ph) <= game_value(
            s[j],
            (depth - 1) as nat,
            negate_code(player),
            ph.spec_increased(),
        ),
    decreases k,
{
    if j < k - 1 {
        lemma_fold_element(s, j, k - 1, depth, player, ph);
    }
}

/// Folds agree on sequences that agree on the folded prefix.
proof fn lemma_fold_prefix_eq(s1: Seq<u64>, s2: Seq<u64>, k: int, depth: nat, player: u8, ph: AiPhase)
    requires
        0 <= k <= s1.len(),
        k <= s2.len(),
        forall|i: int| 0 <= i < k ==> s1[i] == s2[i],
    ensures
        fold_children(s1, k, depth, player, ph) == fold_children(s2, k, depth, player, ph),
    decreases k,
{
    if k > 0 {
        lemma_fold_prefix_eq(s1, s2, k - 1, depth, player, ph);
    }
}

/// Folding a whole sequence is folding it without one element, then
/// taking that element's value into account.
proof fn lemma_fold_remove(s: Seq<u64>, idx: int, depth: nat, player: u8, ph: AiPhase)
    requires
        0 <= idx < s.len(),
        depth >= 1,
    ensures
        ({
            let rest = fold_children(s.remove(idx), s.len() - 1, depth, player, ph);
            let v = game_value(s[idx], (depth - 1) as nat, negate_code(player), ph.spec_increased());
            fold_children(s, s.len() as int, depth, player, ph) == (if player == 0b11 {
                if v > rest {
                    v
                } else {
                    rest
                }
            } else {
                if v < rest {
                    v
                } else {
                    rest
                }
            })
        }),
    decreases s.len(),
{
    let n = s.len() as int;
    if idx == n - 1 {
        lemma_fold_prefix_eq(s, s.remove(idx), n - 1, depth, player, ph);
    } else {
        let t = s.drop_last();
        lemma_fold_prefix_eq(s, t, n - 1, depth, player, ph);
        lemma_fold_remove(t, idx, depth, player, ph);
        assert(s.remove(idx)[n - 2] == s[n - 1]);
        lemma_fold_prefix_eq(s.remove(idx), t.remove(idx), n - 2, depth, player, ph);
    }
}

/// The fold over the children does not depend on their order: any two
/// sequences holding the same boards the same number of times fold to
/// the same value.
proof fn lemma_fold_permutation(s1: Seq<u64>, s2: Seq<u64>, depth: nat, player: u8, ph: AiPhase)
    requires
        s1.to_multiset() == s2.to_multiset(),
        depth >= 1,
    ensures
        fold_children(s1, s1.len() as int, depth, player, ph) == fold_children(
            s2,
            s2.len() as int,
            depth,
            player,
            ph,
        ),
    decreases s1.len(),
{
    broadcast use vstd::multiset::group_multiset_axioms;

    s1.to_multiset_ensures();
    s2.to_multiset_ensures();
    assert(s1.to_multiset().len() == s2.to_multiset().len());
    assert(s1.len() == s2.len());
    if s1.len() > 0 {
        let x = s1[s1.len() - 1];
        let s1p = s1.drop_last();
        s1p.to_multiset_ensures();
        assert(s1 =~= s1p.push(x));
        assert(s1.to_multiset() =~= s1p.to_multiset().insert(x));
        assert(s2.to_multiset().count(x) > 0);
        assert(s2.contains(x));
        let idx = choose|j: int| 0 <= j < s2.len() && s2[j] == x;
        assert(s2.remove(idx).to_multiset() =~= s2.to_multiset().remove(x));
        assert(s1p.to_multiset() =~= s2.remove(idx).to_multiset());
        lemma_fold_permutation(s1p, s2.remove(idx), depth, player, ph);
        lemma_fold_prefix_eq(s1, s1p, s1.len() - 1, depth, player, ph);
        lemma_fold_remove(s2, idx, depth, player, ph);
    }
}

/// Reorders successor boards by their static score, best first for the
/// side to move: descending for white, ascending for black.  The
/// ordering is a pruning heuristic; the result holds exactly the given
/// boards.
pub fn order_moves(boards: &Vec<u64>, phase: AiPhase, maximizing_player: u8) -> (r: Vec<u64>)
    ensures
        r@.len() == boards@.len(),
        r@.to_multiset() == boards@.to_multiset(),
        maximizing_player == 0b11 ==> forall|a: int, b: int|
            0 <= a <= b < r@.len() ==> eval_value(r@[a], phase) >= eval_value(r@[b], phase),
        maximizing_player != 0b11 ==> forall|a: int, b: int|
            0 <= a <= b < r@.len() ==> eval_value(r@[a], phase) <= eval_value(r@[b], phase),
{
    let mut rest: Vec<u64> = Vec::new();
    let mut i: usize = 0;
    while i < boards.len()
        invariant
            i <= boards.len(),
            rest@ == boards@.take(i as int),
        decreases boards.len() - i,
    {
        rest.push(boards[i]);
        i = i + 1;
    }
    proof {
        assert(rest@ =~= boards@);
    }
    let mut result: Vec<u64> = Vec::new();
    proof {
        broadcast use vstd::multiset::group_multiset_axioms;

        result@.to_multiset_ensures();
        assert(result@.to_multiset() =~= Multiset::<u64>::empty());
        assert(result@.to_multiset().add(rest@.to_multiset()) =~= rest@.to_multiset());
    }
    while rest.len() > 0
        invariant
            result@.to_multiset().add(rest@.to_multiset()) =~= boards@.to_multiset(),
            result@.len() + rest@.len() == boards@.len(),
            maximizing_player == 0b11 ==> forall|a: int, b: int|
                0 <= a <= b < result@.len() ==> eval_value(result@[a], phase) >= eval_value(
                    result@[b],
                    phase,
                ),
            maximizing_player != 0b11 ==> forall|a: int, b: int|
                0 <= a <= b < result@.len() ==> eval_value(result@[a], phase) <= eval_value(
                    result@[b],
                    phase,
                ),
            maximizing_player == 0b11 ==> forall|a: int, b: int|
                0 <= a < result@.len() && 0 <= b < rest@.len() ==> eval_value(result@[a], phase)
                    >= eval_value(rest@[b], phase),
            maximizing_player != 0b11 ==> forall|a: int, b: int|
                0 <= a < result@.len() && 0 <= b < rest@.len() ==> eval_value(result@[a], phase)
                    <= eval_value(rest@[b], phase),
        decreases rest.len(),
    {
        let mut best: usize = 0;
        let mut best_key: i64 = evaluate_action(rest[0], phase);
        let mut m: usize = 1;
        while m < rest.len()
            invariant
                best < rest@.len(),
                m <= rest@.len(),
                rest@.len() > 0,
                best_key as int == eval_value(rest@[best as int], phase),
                maximizing_player == 0b11 ==> forall|b: int|
                    0 <= b < m ==> eval_value(rest@[best as int], phase) >= eval_value(
                        rest@[b],
                        phase,
                    ),
                maximizing_player != 0b11 ==> forall|b: int|
                    0 <= b < m ==> eval_value(rest@[best as int], phase) <= eval_value(
                        rest@[b],
                        phase,
                    ),
            decreases rest@.len() - m,
        {
            let key = evaluate_action(rest[m], phase);
            if (maximizing_player == 0b11 && key > best_key) || (maximizing_player != 0b11 && key
                < best_key) {
                best = m;
                best_key = key;
            }
            m = m + 1;
        }
        let chosen = rest[best];
        let ghost result_before = result@;
        let ghost rest_before = rest@;
        result.push(chosen);
        rest.remove(best);
        proof {
            broadcast use vstd::multiset::group_multiset_axioms;

            result_before.to_multiset_ensures();
            rest_before.to_multiset_ensures();
            assert(rest@ =~= rest_before.remove(best as int));
            assert(result@ =~= result_before.push(chosen));
            assert(result@.to_multiset() =~= result_before.to_multiset().insert(chosen));
            assert(rest@.to_multiset() =~= rest_before.to_multiset().remove(chosen));
            assert(rest_before.to_multiset().count(chosen) > 0);
            assert(result@.to_multiset().add(rest@.to_multiset())
                =~= result_before.to_multiset().add(rest_before.to_multiset()));
        }
    }
    proof {
        broadcast use vstd::multiset::group_multiset_axioms;

        rest@.to_multiset_ensures();
        assert(rest@.to_multiset() =~= Multiset::<u64>::empty());
        assert(result@.to_multiset() =~= boards@.to_multiset());
    }
    result
}

/// The invariant the search carries: the counters agree with the
/// cells, and in the set phase the token counts fit the number of
/// half-moves played.
pub open spec fn search_inv(b: u64, player: u8, ph: AiPhase) -> bool {
    counters_ok(b) && (ph.phase == Phase::Setting ==> ph.step_counter < 18 && count_tokens(
        b,
        player,
    ) <= ph.step_counter as int / 2 && count_tokens(b, negate_code(player)) <= (ph.step_counter
        + 1) / 2)
}

/// The static evaluation of a position: terminal scores in the move
/// phase, else material (weighted 1000) plus mobility, white positive.
pub fn evaluate_action(positions: u64, phase: AiPhase) -> (r: i64)
    ensures
        r as int == eval_value(positions, phase),
{
    proof {
        assert((positions >> 51) & 7 <= 7 && (positions >> 48) & 7 <= 7 && (positions >> 59) & 31
            <= 31 && (positions >> 54) & 31 <= 31) by (bit_vector);
    }
    let black_move_count = extract_black_move_count_from_board(positions);
    let white_move_count = extract_white_move_count_from_board(positions);
    let black_token_count = extract_black_token_count_from_board(positions);
    let white_token_count = extract_white_token_count_from_board(positions);

    if phase.phase == Phase::Move {
        if (black_move_count == 0 && black_token_count > 3) || black_token_count == 2 {
            return i64::MAX - phase.step_counter as i64;
        } else if (white_move_count == 0 && white_token_count > 3) || white_token_count == 2 {
            return i64::MIN + phase.step_counter as i64;
        }
    }
    let mut score: i64 = 0;
    score = score + (white_token_count as i64 - black_token_count as i64) * 1000;
    score = score + (white_move_count as i64 - black_move_count as i64);
    score
}

/// Alpha-beta minimax with a wall-clock deadline.
///
/// Returns `None` once the deadline has passed; a `Some(v)` satisfies
/// the fail-soft guarantee with respect to `game_value`: `v` inside
/// the `(alpha, beta)` window is the exact game value, `v <= alpha`
/// is an upper bound on it, and `v >= beta` a lower bound.
#[verifier::rlimit(60)]
pub fn minimax(
    board: u64,
    depth: usize,
    alpha: i64,
    beta: i64,
    maximizing_player: u8,
    phase: AiPhase,
    time: &Instant,
    max_time: u64,
) -> (r: Option<i64>)
    requires
        maximizing_player == 0b10 || maximizing_player == 0b11,
        search_inv(board, maximizing_player, phase),
        alpha < beta,
        phase.step_counter as int + depth as int <= 255,
    ensures
        r matches Some(v) ==> {
            let g = game_value(board, depth as nat, maximizing_player, phase);
            &&& (v <= alpha ==> g <= v)
            &&& (v >= beta ==> g >= v)
            &&& (alpha < v < beta ==> v == g)
        },
    decreases depth,
{
    if deadline_exceeded(time, max_time) {
        return None;
    }

    let black_token_count = extract_black_token_count_from_board(board);
    let white_token_count = extract_white_token_count_from_board(board);
    if phase.phase == Phase::Move {
        if (extract_black_move_count_from_board(board) == 0 && black_token_count > 3)
            || black_token_count == 2 {
            return Some(i64::MAX - phase.step_counter as i64);
        } else if (extract_white_move_count_from_board(board) == 0 && white_token_count > 3)
            || white_token_count == 2 {
            return Some(i64::MIN + phase.step_counter as i64);
        }
    }

    if depth == 0 {
        return Some(evaluate_action(board, phase));
    }

    let children_unordered = forward_step_boards(&board, maximizing_player, phase);
    let ghost succs = successor_boards(
        board,
        maximizing_player,
        phase.phase,
        nt_from_fields(board, maximizing_player),
    );
    let ghost g = game_value(board, depth as nat, maximizing_player, phase);
    proof {
        assert(g == fold_children(succs, succs.len() as int, depth as nat, maximizing_player, phase));
        assert forall|i: int| 0 <= i < succs.len() implies search_inv(
            #[trigger] succs[i],
            negate_code(maximizing_player),
            phase.spec_increased(),
        ) by {
            assert(counters_ok(succs[i]));
        }
    }
    let children = order_moves(&children_unordered, phase, maximizing_player);
    let ghost sorted = children@;
    proof {
        broadcast use vstd::multiset::group_multiset_axioms;

        succs.to_multiset_ensures();
        sorted.to_multiset_ensures();
        lemma_fold_permutation(succs, sorted, depth as nat, maximizing_player, phase);
        assert(g == fold_children(sorted, sorted.len() as int, depth as nat, maximizing_player, phase));
        assert forall|i: int| 0 <= i < sorted.len() implies search_inv(
            #[trigger] sorted[i],
            negate_code(maximizing_player),
            phase.spec_increased(),
        ) by {
            assert(sorted.contains(sorted[i]));
            assert(sorted.to_multiset().count(sorted[i]) > 0);
            assert(succs.contains(sorted[i]));
            let j = choose|j: int| 0 <= j < succs.len() && succs[j] == sorted[i];
            assert(search_inv(succs[j], negate_code(maximizing_player), phase.spec_increased()));
        }
    }
    let next_player = negate_token(maximizing_player);
    let next_phase = phase.increased();

    if maximizing_player == 0b11 {
        let mut max_eval: i64 = i64::MIN + phase.step_counter as i64;
        let mut cur_alpha: i64 = alpha;
        let mut k: usize = 0;
        while k < children.len()
            invariant
                maximizing_player == 0b11,
                next_player == 0b10,
                next_phase == phase.spec_increased(),
                search_inv(board, maximizing_player, phase),
                alpha < beta,
                phase.step_counter as int + depth as int <= 255,
                depth >= 1,
                k <= children.len(),
                children@ == sorted,
                g == game_value(board, depth as nat, maximizing_player, phase),
                g == fold_children(sorted, sorted.len() as int, depth as nat, maximizing_player, phase),
                forall|i: int|
                    0 <= i < sorted.len() ==> search_inv(
                        #[trigger] sorted[i],
                        negate_code(maximizing_player),
                        phase.spec_increased(),
                    ),
                base_score(maximizing_player, phase) <= max_eval as int,
                fold_children(sorted, k as int, depth as nat, maximizing_player, phase)
                    <= max_eval as int,
                max_eval as int <= (if fold_children(
                    sorted,
                    k as int,
                    depth as nat,
                    maximizing_player,
                    phase,
                ) > alpha as int {
                    fold_children(sorted, k as int, depth as nat, maximizing_player, phase)
                } else {
                    alpha as int
                }),
                alpha <= cur_alpha < beta,
                cur_alpha as int <= (if max_eval > alpha {
                    max_eval as int
                } else {
                    alpha as int
                }),
            decreases children.len() - k,
        {
            let child = children[k];
            proof {
                assert(search_inv(child, 0b10, phase.spec_increased()));
            }
            let eval = minimax(
                child,
                depth - 1,
                cur_alpha,
                beta,
                next_player,
                next_phase,
                time,
                max_time,
            );
            if eval.is_none() {
                return None;
            }
            let v = eval.unwrap();
            let ghost gk = game_value(
                child,
                (depth - 1) as nat,
                0b10,
                phase.spec_increased(),
            );
            let ghost old_max = max_eval;
            let ghost old_alpha = cur_alpha;
            if v > max_eval {
                max_eval = v;
            }
            if v > cur_alpha {
                cur_alpha = v;
            }
            proof {
                assert(fold_children(sorted, k as int + 1, depth as nat, maximizing_player, phase)
                    == (if gk > fold_children(sorted, k as int, depth as nat, maximizing_player, phase) {
                    gk
                } else {
                    fold_children(sorted, k as int, depth as nat, maximizing_player, phase)
                }));
            }
            if beta <= cur_alpha {
                proof {
                    assert(v >= beta);
                    assert(gk >= v);
                    lemma_fold_element(
                        sorted,
                        k as int,
                        sorted.len() as int,
                        depth as nat,
                        maximizing_player,
                        phase,
                    );
                    lemma_fold_monotone(
                        sorted,
                        k as int,
                        sorted.len() as int,
                        depth as nat,
                        maximizing_player,
                        phase,
                    );
                    assert(g >= gk);
                    if old_max > v {
                        assert(max_eval == old_max);
                        assert(old_max as int > alpha as int);
                        assert(old_max as int <= fold_children(
                            sorted,
                            k as int,
                            depth as nat,
                            maximizing_player,
                            phase,
                        ));
                        assert(g >= max_eval as int);
                    } else {
                        assert(max_eval == v);
                        assert(g >= max_eval as int);
                    }
                    assert(max_eval >= beta);
                }
                return Some(max_eval);
            }
            proof {
                lemma_fold_monotone(
                    sorted,
                    k as int,
                    k as int + 1,
                    depth as nat,
                    maximizing_player,
                    phase,
                );
                if v > old_alpha {
                    assert(v < beta);
                    assert(v == gk);
                } else {
                    assert(gk <= v);
                }
            }
            k = k + 1;
        }
        proof {
            assert(fold_children(sorted, sorted.len() as int, depth as nat, maximizing_player, phase)
                <= max_eval as int);
            if max_eval as int > alpha as int {
                assert(max_eval as int <= fold_children(
                    sorted,
                    sorted.len() as int,
                    depth as nat,
                    maximizing_player,
                    phase,
                ));
            }
        }
        Some(max_eval)
    } else {
        let mut min_eval: i64 = i64::MAX - phase.step_counter as i64;
        let mut cur_beta: i64 = beta;
        let mut k: usize = 0;
        while k < children.len()
            invariant
                maximizing_player == 0b10,
                next_player == 0b11,
                next_phase == phase.spec_increased(),
                search_inv(board, maximizing_player, phase),
                alpha < beta,
                phase.step_counter as int + depth as int <= 255,
                depth >= 1,
                k <= children.len(),
                children@ == sorted,
                g == game_value(board, depth as nat, maximizing_player, phase),
                g == fold_children(sorted, sorted.len() as int, depth as nat, maximizing_player, phase),
                forall|i: int|
                    0 <= i < sorted.len() ==> search_inv(
                        #[trigger] sorted[i],
                        negate_code(maximizing_player),
                        phase.spec_increased(),
                    ),
                base_score(maximizing_player, phase) >= min_eval as int,
                fold_children(sorted, k as int, depth as nat, maximizing_player, phase)
                    >= min_eval as int,
                min_eval as int >= (if fold_children(
                    sorted,
                    k as int,
                    depth as nat,
                    maximizing_player,
                    phase,
                ) < beta as int {
                    fold_children(sorted, k as int, depth as nat, maximizing_player, phase)
                } else {
                    beta as int
                }),
                alpha < cur_beta <= beta,
                cur_beta as int >= (if min_eval < beta {
                    min_eval as int
                } else {
                    beta as int
                }),
            decreases children.len() - k,
        {
            let child = children[k];
            proof {
                assert(search_inv(child, 0b11, phase.spec_increased()));
            }
            let eval = minimax(
                child,
                depth - 1,
                alpha,
                cur_beta,
                next_player,
                next_phase,
                time,
                max_time,
            );
            if eval.is_none() {
                return None;
            }
            let v = eval.unwrap();
            let ghost gk = game_value(
                child,
                (depth - 1) as nat,
                0b11,
                phase.spec_increased(),
            );
            let ghost old_min = min_eval;
            let ghost old_beta = cur_beta;
            if v < min_eval {
                min_eval = v;
            }
            if v < cur_beta {
                cur_beta = v;
            }
            proof {
                assert(fold_children(sorted, k as int + 1, depth as nat, maximizing_player, phase)
                    == (if gk < fold_children(sorted, k as int, depth as nat, maximizing_player, phase) {
                    gk
                } else {
                    fold_children(sorted, k as int, depth as nat, maximizing_player, phase)
                }));
            }
            if cur_beta <= alpha {
                proof {
                    assert(v <= alpha);
                    assert(gk <= v);
                    lemma_fold_element(
                        sorted,
                        k as int,
                        sorted.len() as int,
                        depth as nat,
                        maximizing_player,
                        phase,
                    );
                    lemma_fold_monotone(
                        sorted,
                        k as int,
                        sorted.len() as int,
                        depth as nat,
                        maximizing_player,
                        phase,
                    );
                    assert(g <= gk);
                    if old_min < v {
                        assert(min_eval == old_min);
                        assert((old_min as int) < beta as int);
                        assert(old_min as int >= fold_children(
                            sorted,
                            k as int,
                            depth as nat,
                            maximizing_player,
                            phase,
                        ));
                        assert(g <= min_eval as int);
                    } else {
                        assert(min_eval == v);
                        assert(g <= min_eval as int);
                    }
                    assert(min_eval <= alpha);
                }
                return Some(min_eval);
            }
            proof {
                lemma_fold_monotone(
                    sorted,
                    k as int,
                    k as int + 1,
                    depth as nat,
                    maximizing_player,
                    phase,
                );
                if v < old_beta {
                    assert(v > alpha);
                    assert(v == gk);
                } else {
                    assert(gk >= v);
                }
            }
            k = k + 1;
        }
        proof {
            assert(fold_children(sorted, sorted.len() as int, depth as nat, maximizing_player, phase)
                >= min_eval as int);
            if (min_eval as int) < beta as int {
                assert(min_eval as int >= fold_children(
                    sorted,
                    sorted.len() as int,
                    depth as nat,
                    maximizing_player,
                    phase,
                ));
            }
        }
        Some(min_eval)
    }
}

/// A forced result found sooner outranks the same result found later:
/// a win two half-moves earlier scores strictly higher, a loss two
/// half-moves earlier strictly lower.
pub proof fn lemma_faster_win_scores_higher(k: u8)
    requires
        k + 2 <= 255,
    ensures
        win_score(k) > win_score((k + 2) as u8),
        loss_score(k) < loss_score((k + 2) as u8),
{
}

} // verus!
