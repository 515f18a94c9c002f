//! Moves, actions, and the enumeration of all legal actions of a side.
//!
//! A `Move` is a placement (`start_position == None`) or a slide; an
//! `Action` is a move together with an optional capture.  The list
//! functions enumerate exactly the legal moves and actions of a side at
//! a board in a phase.

use vstd::prelude::*;

use crate::game_state::Phase;
use crate::mill_detection::is_mill_closing;
use crate::mill_detection::mill_closes;
use crate::moves::apply_move;
use crate::moves::apply_move_spec;
use crate::moves::beat_possible;
use crate::moves::is_beat_possible;
use crate::moves::is_move_valid;
use crate::moves::move_valid;
use crate::position::cell_of;
use crate::position::count_tokens;
use crate::position::get_number_of_tokens;

verus! {

/// A move together with the opponent cell to clear when the move closes
/// a mill; `beatable_position == None` means no capture.
#[derive(Debug, PartialEq, Clone, Copy)]
pub struct Action {
    pub start_position: Option<usize>,
    pub end_position: usize,
    pub beatable_position: Option<usize>,
}

impl Action {
    pub fn new(start_position: Option<usize>, end_position: usize, beatable_position: Option<
        usize,
    >) -> (r: Action)
        ensures
            r.start_position == start_position,
            r.end_position == end_position,
            r.beatable_position == beatable_position,
    {
        Action { start_position, end_position, beatable_position }
    }
}

/// A placement (`start_position == None`) onto an empty cell, or a
/// slide from `start_position` to `end_position`.
#[derive(Debug, PartialEq, Clone, Copy)]
pub struct Move {
    pub start_position: Option<usize>,
    pub end_position: usize,
}

impl Move {
    pub fn new(start_position: Option<usize>, end_position: usize) -> (r: Move)
        ensures
            r.start_position == start_position,
            r.end_position == end_position,
    {
        Move { start_position, end_position }
    }
}

/// A move whose positions lie on the board.
pub open spec fn wf_move(m: Move) -> bool {
    m.end_position < 24 && match m.start_position {
        Some(s) => s < 24,
        None => true,
    }
}

/// An action whose positions lie on the board.
pub open spec fn wf_action(a: Action) -> bool {
    a.end_position < 24 && (match a.start_position {
        Some(s) => s < 24,
        None => true,
    }) && (match a.beatable_position {
        Some(bp) => bp < 24,
        None => true,
    })
}

/// The placements onto the empty cells among the first `n` positions,
/// in ascending order of position.
pub open spec fn set_moves_upto(b: u64, n: int) -> Seq<Move>
    decreases n,
{
    if n <= 0 {
        Seq::empty()
    } else {
        set_moves_upto(b, n - 1) + if cell_of(b, n - 1) == 0 {
            seq![Move { start_position: None, end_position: (n - 1) as usize }]
        } else {
            Seq::empty()
        }
    }
}

/// All legal placements: one move per empty cell.
pub open spec fn set_moves(b: u64) -> Seq<Move> {
    set_moves_upto(b, 24)
}

/// The legal slides from `start` to destinations among the first `n`
/// positions, for a side holding `nt` tokens.
pub open spec fn slide_moves_from(b: u64, nt: u8, start: int, n: int) -> Seq<Move>
    decreases n,
{
    if n <= 0 {
        Seq::empty()
    } else {
        slide_moves_from(b, nt, start, n - 1) + if move_valid(start, n - 1, cell_of(b, n - 1), nt) {
            seq![Move { start_position: Some(start as usize), end_position: (n - 1) as usize }]
        } else {
            Seq::empty()
        }
    }
}

/// The legal slides whose start lies among the first `n` positions, for
/// color `c` holding `nt` tokens.
pub open spec fn slide_moves_upto(b: u64, c: u8, nt: u8, n: int) -> Seq<Move>
    decreases n,
{
    if n <= 0 {
        Seq::empty()
    } else {
        slide_moves_upto(b, c, nt, n - 1) + if cell_of(b, n - 1) == c {
            slide_moves_from(b, nt, n - 1, 24)
        } else {
            Seq::empty()
        }
    }
}

/// All legal slides of color `c` holding `nt` tokens.
pub open spec fn slide_moves(b: u64, c: u8, nt: u8) -> Seq<Move> {
    slide_moves_upto(b, c, nt, 24)
}

/// The token count a move-phase enumeration works with: the given one,
/// or the number of `c`-colored cells on the board.
pub open spec fn effective_token_count(b: u64, c: u8, number_of_token: Option<u8>) -> u8 {
    match number_of_token {
        Some(n) => n,
        None => if c == 0b11 {
            count_tokens(b, 0b11) as u8
        } else {
            count_tokens(b, 0b10) as u8
        },
    }
}

/// All legal moves of color `c` at board `b` in the given phase.
pub open spec fn moves_spec(b: u64, c: u8, phase: Phase, nt: u8) -> Seq<Move> {
    if phase == Phase::Setting {
        set_moves(b)
    } else {
        slide_moves(b, c, nt)
    }
}

/// The captures that expand a mill-closing move: one action per
/// capturable opponent position among the first `n`.
pub open spec fn beats_upto(b: u64, c: u8, m: Move, n: int) -> Seq<Action>
    decreases n,
{
    if n <= 0 {
        Seq::empty()
    } else {
        beats_upto(b, c, m, n - 1) + if beat_possible(b, n - 1, c) {
            seq![Action {
                start_position: m.start_position,
                end_position: m.end_position,
                beatable_position: Some((n - 1) as usize),
            }]
        } else {
            Seq::empty()
        }
    }
}

/// The actions arising from one legal move: one capturing action per
/// capturable opponent cell if the move closes a mill, else the single
/// non-capturing action.
pub open spec fn expand_move(b: u64, c: u8, m: Move) -> Seq<Action> {
    if mill_closes(b, apply_move_spec(b, m, c), c) {
        beats_upto(b, c, m, 24)
    } else {
        seq![Action {
            start_position: m.start_position,
            end_position: m.end_position,
            beatable_position: None,
        }]
    }
}

/// The expansion of the first `k` moves of a move list.
pub open spec fn actions_upto(b: u64, c: u8, moves: Seq<Move>, k: int) -> Seq<Action>
    decreases k,
{
    if k <= 0 {
        Seq::empty()
    } else {
        actions_upto(b, c, moves, k - 1) + expand_move(b, c, moves[k - 1])
    }
}

/// All legal actions of color `c` at board `b` in the given phase.
pub open spec fn actions_spec(b: u64, c: u8, phase: Phase, nt: u8) -> Seq<Action> {
    actions_upto(b, c, moves_spec(b, c, phase, nt), moves_spec(b, c, phase, nt).len() as int)
}

/// What makes an enumerated action legal at its board: the start cell
/// (if any) holds the mover's color, the destination is empty, and a
/// named capture satisfies the capture rule.
pub open spec fn legal_action(b: u64, c: u8, a: Action) -> bool {
    wf_action(a) && (match a.start_position {
        Some(s) => cell_of(b, s as int) == c,
        None => true,
    }) && cell_of(b, a.end_position as int) == 0 && (match a.beatable_position {
        Some(bp) => beat_possible(b, bp as int, c),
        None => true,
    })
}

proof fn lemma_set_moves_legal(b: u64, n: int)
    requires
        0 <= n <= 24,
    ensures
        forall|i: int|
            0 <= i < set_moves_upto(b, n).len() ==> {
                let m = #[trigger] set_moves_upto(b, n)[i];
                m.start_position is None && m.end_position < n && cell_of(b, m.end_position as int)
                    == 0
            },
    decreases n,
{
    if n > 0 {
        lemma_set_moves_legal(b, n - 1);
    }
}

proof fn lemma_slide_moves_from_legal(b: u64, nt: u8, start: int, n: int)
    requires
        0 <= n <= 24,
        0 <= start < 24,
    ensures
        forall|i: int|
            0 <= i < slide_moves_from(b, nt, start, n).len() ==> {
                let m = #[trigger] slide_moves_from(b, nt, start, n)[i];
                m.start_position == Some(start as usize) && m.end_position < n && cell_of(
                    b,
                    m.end_position as int,
                ) == 0
            },
    decreases n,
{
    if n > 0 {
        lemma_slide_moves_from_legal(b, nt, start, n - 1);
    }
}

proof fn lemma_slide_moves_upto_legal(b: u64, c: u8, nt: u8, n: int)
    requires
        0 <= n <= 24,
    ensures
        forall|i: int|
            0 <= i < slide_moves_upto(b, c, nt, n).len() ==> {
                let m = #[trigger] slide_moves_upto(b, c, nt, n)[i];
                (m.start_position matches Some(s) && s < 24 && cell_of(b, s as int) == c)
                    && m.end_position < 24 && cell_of(b, m.end_position as int) == 0
            },
    decreases n,
{
    if n > 0 {
        lemma_slide_moves_upto_legal(b, c, nt, n - 1);
        lemma_slide_moves_from_legal(b, nt, n - 1, 24);
    }
}

proof fn lemma_beats_legal(b: u64, c: u8, m: Move, n: int)
    requires
        0 <= n <= 24,
    ensures
        forall|i: int|
            0 <= i < beats_upto(b, c, m, n).len() ==> {
                let a = #[trigger] beats_upto(b, c, m, n)[i];
                a.start_position == m.start_position && a.end_position == m.end_position
                    && (a.beatable_position matches Some(bp) && bp < n && beat_possible(
                    b,
                    bp as int,
                    c,
                ))
            },
    decreases n,
{
    if n > 0 {
        lemma_beats_legal(b, c, m, n - 1);
    }
}

proof fn lemma_actions_upto_legal(b: u64, c: u8, moves: Seq<Move>, k: int, phase: Phase)
    requires
        0 <= k <= moves.len(),
        forall|j: int|
            0 <= j < moves.len() ==> {
                let m = #[trigger] moves[j];
                wf_move(m) && cell_of(b, m.end_position as int) == 0 && (match m.start_position {
                    Some(s) => phase == Phase::Move && cell_of(b, s as int) == c,
                    None => phase == Phase::Setting,
                })
            },
    ensures
        forall|i: int|
            0 <= i < actions_upto(b, c, moves, k).len() ==> {
                let a = #[trigger] actions_upto(b, c, moves, k)[i];
                legal_action(b, c, a) && (match a.start_position {
                    Some(_) => phase == Phase::Move,
                    None => phase == Phase::Setting,
                })
            },
    decreases k,
{
    if k > 0 {
        lemma_actions_upto_legal(b, c, moves, k - 1, phase);
        lemma_beats_legal(b, c, moves[k - 1], 24);
    }
}

/// Every enumerated action is legal at the board it was enumerated
/// for, and placements arise exactly in the set phase.
pub proof fn lemma_actions_legal(b: u64, c: u8, phase: Phase, nt: u8)
    ensures
        forall|i: int|
            0 <= i < actions_spec(b, c, phase, nt).len() ==> {
                let a = #[trigger] actions_spec(b, c, phase, nt)[i];
                legal_action(b, c, a) && (match a.start_position {
                    Some(_) => phase == Phase::Move,
                    None => phase == Phase::Setting,
                })
            },
{
    let moves = moves_spec(b, c, phase, nt);
    if phase == Phase::Setting {
        lemma_set_moves_legal(b, 24);
    } else {
        lemma_slide_moves_upto_legal(b, c, nt, 24);
    }
    lemma_actions_upto_legal(b, c, moves, moves.len() as int, phase);
}

/// Enumerates the legal placements: one move per empty cell, in
/// ascending order of position.
pub fn list_moves_set_phase(board: u64) -> (r: Vec<Move>)
    ensures
        r@ == set_moves(board),
        forall|i: int| 0 <= i < r@.len() ==> wf_move(r@[i]),
{
    let mut result: Vec<Move> = Vec::new();
    let mut position: usize = 0;
    while position < 24
        invariant
            position <= 24,
            result@ == set_moves_upto(board, position as int),
            forall|i: int| 0 <= i < result@.len() ==> wf_move(result@[i]),
        decreases 24 - position,
    {
        if crate::position::cell_code(board, position) == 0b00 {
            result.push(Move { start_position: None, end_position: position });
            proof {
                assert(result@ =~= set_moves_upto(board, position as int + 1));
            }
        } else {
            proof {
                assert(result@ =~= set_moves_upto(board, position as int + 1));
            }
        }
        position = position + 1;
    }
    result
}

/// Enumerates the legal slides of a side in the move phase.  The token
/// count steering the "flying" rule is taken from `number_of_token` or,
/// when absent, counted from the board.
pub fn list_moves_move_phase(board: &u64, token_type: u8, number_of_token: Option<u8>) -> (r: Vec<
    Move,
>)
    ensures
        r@ == slide_moves(*board, token_type, effective_token_count(*board, token_type, number_of_token)),
        forall|i: int| 0 <= i < r@.len() ==> wf_move(r@[i]),
{
    let nt: u8 = match number_of_token {
        Some(n) => n,
        None => get_number_of_tokens(*board, token_type),
    };
    let mut result: Vec<Move> = Vec::new();
    let mut start: usize = 0;
    while start < 24
        invariant
            start <= 24,
            nt == effective_token_count(*board, token_type, number_of_token),
            result@ == slide_moves_upto(*board, token_type, nt, start as int),
            forall|i: int| 0 <= i < result@.len() ==> wf_move(result@[i]),
        decreases 24 - start,
    {
        if crate::position::cell_code(*board, start) == token_type {
            let mut end: usize = 0;
            while end < 24
                invariant
                    start < 24,
                    end <= 24,
                    cell_of(*board, start as int) == token_type,
                    nt == effective_token_count(*board, token_type, number_of_token),
                    result@ == slide_moves_upto(*board, token_type, nt, start as int)
                        + slide_moves_from(*board, nt, start as int, end as int),
                    forall|i: int| 0 <= i < result@.len() ==> wf_move(result@[i]),
                decreases 24 - end,
            {
                let end_code = crate::position::cell_code(*board, end);
                if is_move_valid(start, end, end_code, nt) {
                    result.push(Move { start_position: Some(start), end_position: end });
                }
                proof {
                    assert(result@ =~= slide_moves_upto(*board, token_type, nt, start as int)
                        + slide_moves_from(*board, nt, start as int, end as int + 1));
                }
                end = end + 1;
            }
            proof {
                assert(result@ =~= slide_moves_upto(*board, token_type, nt, start as int + 1));
            }
        } else {
            proof {
                assert(result@ =~= slide_moves_upto(*board, token_type, nt, start as int + 1));
            }
        }
        start = start + 1;
    }
    result
}

/// Enumerates the legal moves of a side: placements in the set phase,
/// slides in the move phase.
pub fn list_moves(board: &u64, token_type: u8, phase: Phase, number_of_token: Option<u8>) -> (r:
    Vec<Move>)
    ensures
        r@ == moves_spec(
            *board,
            token_type,
            phase,
            effective_token_count(*board, token_type, number_of_token),
        ),
        forall|i: int| 0 <= i < r@.len() ==> wf_move(r@[i]),
{
    if phase == Phase::Setting {
        list_moves_set_phase(*board)
    } else {
        list_moves_move_phase(board, token_type, number_of_token)
    }
}

/// Enumerates the legal actions of a side: each legal move, expanded
/// into one action per legal capture when it closes a mill, or into the
/// single non-capturing action otherwise.  A closing move with no legal
/// capture contributes no action.
pub fn list_actions(board: &u64, token_type: u8, phase: Phase, number_of_token: Option<u8>) -> (r:
    Vec<Action>)
    requires
        token_type == 0b10 || token_type == 0b11,
    ensures
        r@ == actions_spec(
            *board,
            token_type,
            phase,
            effective_token_count(*board, token_type, number_of_token),
        ),
        forall|i: int| 0 <= i < r@.len() ==> wf_action(r@[i]),
{
    let moves = list_moves(board, token_type, phase, number_of_token);
    let ghost moves_seq = moves@;
    let mut result: Vec<Action> = Vec::new();
    let mut k: usize = 0;
    while k < moves.len()
        invariant
            k <= moves.len(),
            moves@ == moves_seq,
            token_type == 0b10 || token_type == 0b11,
            forall|i: int| 0 <= i < moves_seq.len() ==> wf_move(moves_seq[i]),
            result@ == actions_upto(*board, token_type, moves_seq, k as int),
            forall|i: int| 0 <= i < result@.len() ==> wf_action(result@[i]),
        decreases moves.len() - k,
    {
        let m = moves[k];
        let applied = apply_move(board, &m, token_type);
        if is_mill_closing(*board, applied, token_type) {
            let mut p: usize = 0;
            while p < 24
                invariant
                    k < moves_seq.len(),
                    m == moves_seq[k as int],
                    p <= 24,
                    moves@ == moves_seq,
                    token_type == 0b10 || token_type == 0b11,
                    forall|i: int| 0 <= i < moves_seq.len() ==> wf_move(moves_seq[i]),
                    mill_closes(*board, apply_move_spec(*board, m, token_type), token_type),
                    result@ == actions_upto(*board, token_type, moves_seq, k as int) + beats_upto(
                        *board,
                        token_type,
                        m,
                        p as int,
                    ),
                    forall|i: int| 0 <= i < result@.len() ==> wf_action(result@[i]),
                decreases 24 - p,
            {
                if is_beat_possible(*board, p, token_type) {
                    result.push(
                        Action {
                            start_position: m.start_position,
                            end_position: m.end_position,
                            beatable_position: Some(p),
                        },
                    );
                }
                proof {
                    assert(result@ =~= actions_upto(*board, token_type, moves_seq, k as int)
                        + beats_upto(*board, token_type, m, p as int + 1));
                }
                p = p + 1;
            }
            proof {
                assert(expand_move(*board, token_type, moves_seq[k as int]) == beats_upto(
                    *board,
                    token_type,
                    m,
                    24,
                ));
                assert(result@ =~= actions_upto(*board, token_type, moves_seq, k as int + 1));
            }
        } else {
            result.push(
                Action {
                    start_position: m.start_position,
                    end_position: m.end_position,
                    beatable_position: None,
                },
            );
            proof {
                assert(expand_move(*board, token_type, moves_seq[k as int]) == seq![Action {
                    start_position: m.start_position,
                    end_position: m.end_position,
                    beatable_position: None,
                }]);
                assert(result@ =~= actions_upto(*board, token_type, moves_seq, k as int + 1));
            }
        }
        k = k + 1;
    }
    result
}

} // verus!
