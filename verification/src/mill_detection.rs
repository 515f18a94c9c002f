//! Mill detection on the packed board.
//!
//! The board has 16 straight lines of three cells each: eight along the
//! rings and eight across them.  Every position lies on exactly two
//! lines.  A mill is a line fully occupied by one color.

use vstd::prelude::*;

use crate::position::cell_of;

verus! {

/// The three cell positions of line `l`.
///
/// Lines 0..8 run along the rings, lines 8..16 across them.
pub open spec fn line_positions(l: int) -> (int, int, int) {
    if l == 0 {
        (7, 0, 1)
    } else if l == 1 {
        (15, 8, 9)
    } else if l == 2 {
        (23, 16, 17)
    } else if l == 3 {
        (6, 14, 22)
    } else if l == 4 {
        (18, 10, 2)
    } else if l == 5 {
        (21, 20, 19)
    } else if l == 6 {
        (13, 12, 11)
    } else if l == 7 {
        (5, 4, 3)
    } else if l == 8 {
        (7, 6, 5)
    } else if l == 9 {
        (15, 14, 13)
    } else if l == 10 {
        (23, 22, 21)
    } else if l == 11 {
        (0, 8, 16)
    } else if l == 12 {
        (20, 12, 4)
    } else if l == 13 {
        (17, 18, 19)
    } else if l == 14 {
        (9, 10, 11)
    } else {
        (1, 2, 3)
    }
}

/// The indices of the two lines that contain position `p`.
pub open spec fn lines_of(p: int) -> (int, int) {
    if p == 0 {
        (0, 11)
    } else if p == 1 {
        (0, 15)
    } else if p == 2 {
        (4, 15)
    } else if p == 3 {
        (7, 15)
    } else if p == 4 {
        (7, 12)
    } else if p == 5 {
        (7, 8)
    } else if p == 6 {
        (3, 8)
    } else if p == 7 {
        (0, 8)
    } else if p == 8 {
        (1, 11)
    } else if p == 9 {
        (1, 14)
    } else if p == 10 {
        (4, 14)
    } else if p == 11 {
        (6, 14)
    } else if p == 12 {
        (6, 12)
    } else if p == 13 {
        (6, 9)
    } else if p == 14 {
        (3, 9)
    } else if p == 15 {
        (1, 9)
    } else if p == 16 {
        (2, 11)
    } else if p == 17 {
        (2, 13)
    } else if p == 18 {
        (4, 13)
    } else if p == 19 {
        (5, 13)
    } else if p == 20 {
        (5, 12)
    } else if p == 21 {
        (5, 10)
    } else if p == 22 {
        (3, 10)
    } else {
        (2, 10)
    }
}

/// Whether position `p` lies on line `l`.
pub open spec fn line_contains(l: int, p: int) -> bool {
    line_positions(l).0 == p || line_positions(l).1 == p || line_positions(l).2 == p
}

/// Whether all three cells of line `l` hold color `c`.
pub open spec fn line_full(b: u64, l: int, c: u8) -> bool {
    cell_of(b, line_positions(l).0) == c && cell_of(b, line_positions(l).1) == c && cell_of(
        b,
        line_positions(l).2,
    ) == c
}

/// Whether position `p` is part of a closed mill of color `c`: one of
/// its two owning lines is fully occupied by `c`.
pub open spec fn in_mill(b: u64, p: int, c: u8) -> bool {
    (c == 0b10 || c == 0b11) && (line_full(b, lines_of(p).0, c) || line_full(b, lines_of(p).1, c))
}

/// Which color a mill query is about: white for `0b11`, black for every
/// other argument.
pub open spec fn mill_color(c: u8) -> u8 {
    if c == 0b11 {
        0b11
    } else {
        0b10
    }
}

/// Whether the step from `before` to `after` closes a mill for color
/// `c`: some line is fully `c`-occupied afterwards but was not before.
pub open spec fn mill_closes(before: u64, after: u64, c: u8) -> bool {
    exists|l: int|
        0 <= l < 16 && !line_full(before, l, mill_color(c)) && line_full(after, l, mill_color(c))
}

/// Whether every `c`-colored token on the board is part of a closed
/// mill of color `c`.
pub open spec fn all_in_mill(b: u64, c: u8) -> bool {
    forall|p: int| 0 <= p < 24 && cell_of(b, p) == c ==> in_mill(b, p, c)
}

/// The two owning lines of a position are exactly the lines that
/// contain it.
pub proof fn lemma_lines_of_position(p: int)
    requires
        0 <= p < 24,
    ensures
        line_contains(lines_of(p).0, p),
        line_contains(lines_of(p).1, p),
        0 <= lines_of(p).0 < 16,
        0 <= lines_of(p).1 < 16,
        lines_of(p).0 != lines_of(p).1,
        forall|l: int| 0 <= l < 16 && line_contains(l, p) ==> l == lines_of(p).0 || l == lines_of(p).1,
{
}

/// Mill membership is exactly line membership: a position is in a mill
/// of color `c` iff some line through it is fully `c`-occupied.
pub proof fn lemma_mill_symmetry(b: u64, p: int, c: u8)
    requires
        0 <= p < 24,
        c == 0b10 || c == 0b11,
    ensures
        in_mill(b, p, c) <==> exists|l: int| 0 <= l < 16 && line_contains(l, p) && line_full(b, l, c),
{
    lemma_lines_of_position(p);
    if in_mill(b, p, c) {
        if line_full(b, lines_of(p).0, c) {
            assert(0 <= lines_of(p).0 < 16 && line_contains(lines_of(p).0, p) && line_full(
                b,
                lines_of(p).0,
                c,
            ));
        } else {
            assert(0 <= lines_of(p).1 < 16 && line_contains(lines_of(p).1, p) && line_full(
                b,
                lines_of(p).1,
                c,
            ));
        }
    }
}

/// The three positions of one line, as run-time values.
fn line_cells(l: usize) -> (r: (usize, usize, usize))
    requires
        l < 16,
    ensures
        r.0 as int == line_positions(l as int).0,
        r.1 as int == line_positions(l as int).1,
        r.2 as int == line_positions(l as int).2,
        r.0 < 24 && r.1 < 24 && r.2 < 24,
{
    match l {
        0 => (7, 0, 1),
        1 => (15, 8, 9),
        2 => (23, 16, 17),
        3 => (6, 14, 22),
        4 => (18, 10, 2),
        5 => (21, 20, 19),
        6 => (13, 12, 11),
        7 => (5, 4, 3),
        8 => (7, 6, 5),
        9 => (15, 14, 13),
        10 => (23, 22, 21),
        11 => (0, 8, 16),
        12 => (20, 12, 4),
        13 => (17, 18, 19),
        14 => (9, 10, 11),
        _ => (1, 2, 3),
    }
}

/// The indices of the two lines through `position`, as run-time values.
fn lines_for_position(position: usize) -> (r: (usize, usize))
    requires
        position < 24,
    ensures
        r.0 as int == lines_of(position as int).0,
        r.1 as int == lines_of(position as int).1,
        r.0 < 16 && r.1 < 16,
{
    match position {
        0 => (0, 11),
        1 => (0, 15),
        2 => (4, 15),
        3 => (7, 15),
        4 => (7, 12),
        5 => (7, 8),
        6 => (3, 8),
        7 => (0, 8),
        8 => (1, 11),
        9 => (1, 14),
        10 => (4, 14),
        11 => (6, 14),
        12 => (6, 12),
        13 => (6, 9),
        14 => (3, 9),
        15 => (1, 9),
        16 => (2, 11),
        17 => (2, 13),
        18 => (4, 13),
        19 => (5, 13),
        20 => (5, 12),
        21 => (5, 10),
        22 => (3, 10),
        _ => (2, 10),
    }
}

/// Whether all three cells of line `l` hold color `c`.
fn is_line_full(board: u64, l: usize, c: u8) -> (r: bool)
    requires
        l < 16,
    ensures
        r == line_full(board, l as int, c),
{
    let (a, b, d) = line_cells(l);
    crate::position::cell_code(board, a) == c && crate::position::cell_code(board, b) == c
        && crate::position::cell_code(board, d) == c
}

/// Whether `position` is part of a closed mill of color `token_type`.
pub fn is_part_of_mill(board: u64, position: usize, token_type: u8) -> (r: bool)
    requires
        position < 24,
    ensures
        r == in_mill(board, position as int, token_type),
{
    if token_type == 0b10 || token_type == 0b11 {
        let (l1, l2) = lines_for_position(position);
        is_line_full(board, l1, token_type) || is_line_full(board, l2, token_type)
    } else {
        false
    }
}

/// Whether the step from `pos_before` to `pos_after` closes a mill for
/// `token_type`: some line is fully occupied by that color afterwards
/// but was not before.  A move that breaks one mill and closes another
/// counts as closing.
pub fn is_mill_closing(pos_before: u64, pos_after: u64, token_type: u8) -> (r: bool)
    ensures
        r == mill_closes(pos_before, pos_after, token_type),
{
    let c: u8 = if token_type == 0b11 {
        0b11
    } else {
        0b10
    };
    let mut l: usize = 0;
    let mut found = false;
    while l < 16
        invariant
            l <= 16,
            c == mill_color(token_type),
            found == exists|k: int|
                0 <= k < l && !line_full(pos_before, k, c) && line_full(pos_after, k, c),
        decreases 16 - l,
    {
        if !is_line_full(pos_before, l, c) && is_line_full(pos_after, l, c) {
            found = true;
        }
        l = l + 1;
    }
    found
}

/// Whether every token of color `token_of_opponent` on the board sits
/// in a closed mill of that color.
pub fn is_all_part_of_mill(board: u64, token_of_opponent: u8) -> (r: bool)
    ensures
        r == all_in_mill(board, token_of_opponent),
{
    let mut p: usize = 0;
    let mut all = true;
    while p < 24
        invariant
            p <= 24,
            all == forall|q: int|
                0 <= q < p && cell_of(board, q) == token_of_opponent ==> in_mill(
                    board,
                    q,
                    token_of_opponent,
                ),
        decreases 24 - p,
    {
        if crate::position::cell_code(board, p) == token_of_opponent && !is_part_of_mill(
            board,
            p,
            token_of_opponent,
        ) {
            all = false;
        }
        p = p + 1;
    }
    all
}

} // verus!
