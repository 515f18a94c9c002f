//! Parsing of the console player's move input.
//!
//! A move is typed either as a single field number ("7", a placement)
//! or as two field numbers joined by a comma ("7,12", a slide).  Each
//! number has one or two decimal digits.

use vstd::prelude::*;

verus! {

/// Whether a character is a decimal digit.
pub open spec fn is_digit(ch: char) -> bool {
    48 <= ch as u32 <= 57
}

/// The value of a decimal digit character.
pub open spec fn digit_val(ch: char) -> int {
    ch as u32 - 48
}

/// Whether a string is a well-formed move input: one or two digits,
/// optionally twice with a comma in between.
pub open spec fn well_formed_move_input(s: Seq<char>) -> bool {
    if s.len() == 1 {
        is_digit(s[0])
    } else if s.len() == 2 {
        is_digit(s[0]) && is_digit(s[1])
    } else if s.len() == 3 {
        is_digit(s[0]) && s[1] == ',' && is_digit(s[2])
    } else if s.len() == 4 {
        (is_digit(s[0]) && s[1] == ',' && is_digit(s[2]) && is_digit(s[3])) || (is_digit(s[0])
            && is_digit(s[1]) && s[2] == ',' && is_digit(s[3]))
    } else if s.len() == 5 {
        is_digit(s[0]) && is_digit(s[1]) && s[2] == ',' && is_digit(s[3]) && is_digit(s[4])
    } else {
        false
    }
}

/// The positions a well-formed move input stands for: an absent start
/// position for a placement, else the number before the comma, and the
/// destination.
pub open spec fn parsed_positions(s: Seq<char>) -> (Option<int>, int) {
    if s.len() == 1 {
        (None, digit_val(s[0]))
    } else if s.len() == 2 {
        (None, 10 * digit_val(s[0]) + digit_val(s[1]))
    } else if s.len() == 3 {
        (Some(digit_val(s[0])), digit_val(s[2]))
    } else if s.len() == 4 {
        if s[1] == ',' {
            (Some(digit_val(s[0])), 10 * digit_val(s[2]) + digit_val(s[3]))
        } else {
            (Some(10 * digit_val(s[0]) + digit_val(s[1])), digit_val(s[3]))
        }
    } else {
        (Some(10 * digit_val(s[0]) + digit_val(s[1])), 10 * digit_val(s[3]) + digit_val(s[4]))
    }
}

/// The value of one digit character.
fn digit_of(c: char) -> (r: usize)
    requires
        is_digit(c),
    ensures
        r == digit_val(c),
{
    (c as u32 - 48) as usize
}

/// Splits a typed move into its start position (absent for a
/// placement) and its destination.
pub fn get_start_end_position(player_input: String) -> (r: (Option<usize>, usize))
    requires
        well_formed_move_input(player_input@),
    ensures
        (match r.0 {
            Some(s) => parsed_positions(player_input@).0 == Some(s as int),
            None => parsed_positions(player_input@).0 is None,
        }),
        r.1 as int == parsed_positions(player_input@).1,
{
    let s = player_input.as_str();
    let n = s.unicode_len();
    if n == 1 {
        (None, digit_of(s.get_char(0)))
    } else if n == 2 {
        (None, 10 * digit_of(s.get_char(0)) + digit_of(s.get_char(1)))
    } else if n == 3 {
        (Some(digit_of(s.get_char(0))), digit_of(s.get_char(2)))
    } else if n == 4 {
        if s.get_char(1) == ',' {
            (Some(digit_of(s.get_char(0))), 10 * digit_of(s.get_char(2)) + digit_of(s.get_char(3)))
        } else {
            (Some(10 * digit_of(s.get_char(0)) + digit_of(s.get_char(1))), digit_of(s.get_char(3)))
        }
    } else {
        (
            Some(10 * digit_of(s.get_char(0)) + digit_of(s.get_char(1))),
            10 * digit_of(s.get_char(3)) + digit_of(s.get_char(4)),
        )
    }
}

} // verus!
