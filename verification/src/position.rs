//! The cell codec of the packed board.
//!
//! The 24 cells of the board live in the low 48 bits of a `u64`, two bits
//! per cell; cell 0 occupies the most significant pair (bits 46..48) and
//! cell 23 the least significant pair (bits 0..2).  Bits 48..64 carry
//! cached counters and are left untouched by the cell operations here.

use vstd::prelude::*;

use crate::game_state::Token;
use crate::game_state::token_of_code;

verus! {

/// The bit mask of the 48 cell bits.
pub const CELL_BITS_MASK: u64 = 0xFFFF_FFFF_FFFF;

/// Bit offset of cell `p`: cell 0 sits highest, cell 23 lowest.
pub open spec fn cell_shift(p: int) -> u64 {
    (46 - 2 * p) as u64
}

/// The 2-bit code stored at cell `p`.
pub open spec fn cell_of(b: u64, p: int) -> u8
    recommends
        0 <= p < 24,
{
    ((b >> cell_shift(p)) & 3) as u8
}

/// The board after cell `p` was overwritten with code `t`; all other
/// bits keep their value.
pub open spec fn set_cell_spec(b: u64, p: int, t: u8) -> u64
    recommends
        0 <= p < 24,
        t <= 3,
{
    (b & !(3u64 << cell_shift(p))) | ((t as u64) << cell_shift(p))
}

/// The opposing color code; anything that is not a token maps to empty.
pub open spec fn negate_code(t: u8) -> u8 {
    if t == 0b10 {
        0b11
    } else if t == 0b11 {
        0b10
    } else {
        0
    }
}

/// How many of the first `n` cells hold code `t`.
pub open spec fn count_upto(b: u64, t: u8, n: int) -> int
    decreases n,
{
    if n <= 0 {
        0
    } else {
        count_upto(b, t, n - 1) + if cell_of(b, n - 1) == t {
            1int
        } else {
            0int
        }
    }
}

/// How many cells of the whole board hold code `t`.
pub open spec fn count_tokens(b: u64, t: u8) -> int {
    count_upto(b, t, 24)
}

/// The character that stands for a cell code in the 24-character board
/// string.
pub open spec fn cell_char(c: u8) -> char {
    if c == 0b10 {
        'B'
    } else if c == 0b11 {
        'W'
    } else {
        'E'
    }
}

/// The cell code of a board-string character; every character outside
/// `{'B','W'}` decodes to empty.
pub open spec fn char_code(ch: char) -> u8 {
    if ch == 'B' {
        0b10
    } else if ch == 'W' {
        0b11
    } else {
        0
    }
}

/// The characters a board string may hold.
pub open spec fn valid_board_char(ch: char) -> bool {
    ch == 'B' || ch == 'W' || ch == 'E'
}

/// Writing a cell changes exactly that cell and nothing else.
pub proof fn lemma_set_cell(b: u64, p: int, t: u8)
    requires
        0 <= p < 24,
        t <= 3,
    ensures
        cell_of(set_cell_spec(b, p, t), p) == t,
        forall|q: int| 0 <= q < 24 && q != p ==> cell_of(set_cell_spec(b, p, t), q) == cell_of(b, q),
        set_cell_spec(b, p, t) >> 48 == b >> 48,
{
    let sh: u64 = cell_shift(p);
    let tc: u64 = t as u64;
    assert(sh == 46 - 2 * p);
    assert((((b & !(3u64 << sh)) | (tc << sh)) >> sh) & 3 == tc) by (bit_vector)
        requires
            sh <= 46,
            tc <= 3,
    ;
    assert(((b & !(3u64 << sh)) | (tc << sh)) >> 48 == b >> 48) by (bit_vector)
        requires
            sh <= 46,
            sh % 2 == 0,
            tc <= 3,
    ;
    assert forall|q: int| 0 <= q < 24 && q != p implies cell_of(set_cell_spec(b, p, t), q) == cell_of(
        b,
        q,
    ) by {
        let shq: u64 = cell_shift(q);
        assert(shq == 46 - 2 * q);
        assert((((b & !(3u64 << sh)) | (tc << sh)) >> shq) & 3 == (b >> shq) & 3) by (bit_vector)
            requires
                sh <= 46,
                shq <= 46,
                sh % 2 == 0,
                shq % 2 == 0,
                sh != shq,
                tc <= 3,
        ;
    }
}

/// Two boards that agree on the low 48 bits agree on every cell.
pub proof fn lemma_cell_low48(x: u64, y: u64, p: int)
    requires
        x & CELL_BITS_MASK == y & CELL_BITS_MASK,
        0 <= p < 24,
    ensures
        cell_of(x, p) == cell_of(y, p),
{
    let sh: u64 = cell_shift(p);
    assert(sh == 46 - 2 * p);
    assert((x & 0xFFFF_FFFF_FFFFu64 == y & 0xFFFF_FFFF_FFFFu64 && sh <= 46) ==> (x >> sh) & 3 == (y
        >> sh) & 3) by (bit_vector);
}

/// Two boards that agree on every cell agree on the low 48 bits.
pub proof fn lemma_cells_low48(x: u64, y: u64)
    requires
        forall|p: int| 0 <= p < 24 ==> cell_of(x, p) == cell_of(y, p),
    ensures
        x & CELL_BITS_MASK == y & CELL_BITS_MASK,
{
    lemma_cells_suffix(x, y, 24);
    assert(!(0xFFFF_FFFF_FFFF_FFFFu64 << 48) == 0xFFFF_FFFF_FFFFu64) by (bit_vector);
}

/// Cells `24 - j` and up determine the low `2 * j` bits.
proof fn lemma_cells_suffix(x: u64, y: u64, j: int)
    requires
        0 <= j <= 24,
        forall|p: int| 24 - j <= p < 24 ==> cell_of(x, p) == cell_of(y, p),
    ensures
        x & sub_mask(j) == y & sub_mask(j),
    decreases j,
{
    if j == 0 {
        assert(x & !(0xFFFF_FFFF_FFFF_FFFFu64 << 0) == y & !(0xFFFF_FFFF_FFFF_FFFFu64 << 0))
            by (bit_vector);
    } else {
        lemma_cells_suffix(x, y, j - 1);
        let sh: u64 = cell_shift(24 - j);
        let sh2: u64 = (2 * j) as u64;
        assert(sh == 2 * j - 2);
        assert(cell_of(x, 24 - j) == cell_of(y, 24 - j));
        assert((x >> sh) & 3 <= 3 && (y >> sh) & 3 <= 3) by (bit_vector);
        assert((x >> sh) & 3 == (y >> sh) & 3);
        assert(((x >> sh) & 3 == (y >> sh) & 3 && x & !(0xFFFF_FFFF_FFFF_FFFFu64 << sh) == y & !(
        0xFFFF_FFFF_FFFF_FFFFu64 << sh) && sh2 == sh + 2 && sh2 <= 48) ==> x & !(
        0xFFFF_FFFF_FFFF_FFFFu64 << sh2) == y & !(0xFFFF_FFFF_FFFF_FFFFu64 << sh2)) by (bit_vector);
    }
}

/// The low `2 * j` bits, as a mask.
pub open spec fn sub_mask(j: int) -> u64 {
    !(0xFFFF_FFFF_FFFF_FFFFu64 << ((2 * j) as u64))
}

/// A board is determined by its cells and its high 16 bits.
pub proof fn lemma_board_eq(x: u64, y: u64)
    requires
        forall|p: int| 0 <= p < 24 ==> cell_of(x, p) == cell_of(y, p),
        x >> 48 == y >> 48,
    ensures
        x == y,
{
    lemma_cells_low48(x, y);
    assert((x & 0xFFFF_FFFF_FFFFu64 == y & 0xFFFF_FFFF_FFFFu64 && x >> 48 == y >> 48) ==> x == y)
        by (bit_vector);
}

/// The all-zero board has empty cells and clear counters.
pub proof fn lemma_zero_board()
    ensures
        forall|p: int| 0 <= p < 24 ==> cell_of(0u64, p) == 0,
        0u64 >> 48 == 0,
{
    assert forall|p: int| 0 <= p < 24 implies cell_of(0u64, p) == 0 by {
        let sh: u64 = cell_shift(p);
        assert((0u64 >> sh) & 3 == 0) by (bit_vector);
    }
    assert(0u64 >> 48 == 0) by (bit_vector);
}

/// Decoding the encoding of a board gives the board back: any `b2`
/// whose cells decode the string that encodes `b` equals `b`, as long
/// as `b` carries clear counter bits and no cell holds the unused code
/// `0b01`.  The relations are those `encode_positions` and
/// `decode_positions` promise of their results.
pub proof fn lemma_decode_of_encode(b: u64, s: Seq<char>, b2: u64)
    requires
        b >> 48 == 0,
        forall|p: int| 0 <= p < 24 ==> cell_of(b, p) != 1,
        s.len() == 24,
        forall|i: int| 0 <= i < 24 ==> s[i] == cell_char(cell_of(b, i)),
        forall|i: int| 0 <= i < 24 ==> cell_of(b2, i) == char_code(s[i]),
        b2 >> 48 == 0,
    ensures
        b2 == b,
{
    assert forall|p: int| 0 <= p < 24 implies cell_of(b2, p) == cell_of(b, p) by {
        assert(cell_of(b, p) <= 3) by {
            let sh: u64 = cell_shift(p);
            assert((b >> sh) & 3 <= 3) by (bit_vector);
        }
    }
    lemma_board_eq(b2, b);
}

/// Encoding the decoding of a board string gives the string back: any
/// string that encodes the cells decoded from a valid 24-character
/// board string equals that string.
pub proof fn lemma_encode_of_decode(s: Seq<char>, b: u64, s2: Seq<char>)
    requires
        s.len() == 24,
        forall|i: int| 0 <= i < 24 ==> valid_board_char(s[i]),
        forall|i: int| 0 <= i < 24 ==> cell_of(b, i) == char_code(s[i]),
        s2.len() == 24,
        forall|i: int| 0 <= i < 24 ==> s2[i] == cell_char(cell_of(b, i)),
    ensures
        s2 == s,
{
    assert forall|i: int| 0 <= i < 24 implies s2[i] == s[i] by {
        assert(valid_board_char(s[i]));
    }
    assert(s2 =~= s);
}

/// Reads the 2-bit code of one cell.
pub(crate) fn cell_code(board: u64, position: usize) -> (r: u8)
    requires
        position < 24,
    ensures
        r == cell_of(board, position as int),
{
    let sh: u64 = (46 - 2 * position) as u64;
    assert(sh == cell_shift(position as int));
    ((board >> sh) & 3) as u8
}

/// The token sitting at `position`.
pub fn get_token_at(board: u64, position: usize) -> (r: Token)
    requires
        position < 24,
    ensures
        r == token_of_code(cell_of(board, position as int)),
{
    Token::parse_to_token(cell_code(board, position))
}

/// Overwrites one cell with a 2-bit code, leaving every other bit of the
/// board alone.
pub fn set_token_at(board: u64, position: usize, token: u8) -> (r: u64)
    requires
        position < 24,
        token <= 3,
    ensures
        r == set_cell_spec(board, position as int, token),
        cell_of(r, position as int) == token,
        forall|q: int| 0 <= q < 24 && q != position ==> cell_of(r, q) == cell_of(board, q),
        r >> 48 == board >> 48,
{
    let sh: u64 = (46 - 2 * position) as u64;
    assert(sh == cell_shift(position as int));
    let new_board = board & !(3u64 << sh);
    let r = new_board | ((token as u64) << sh);
    proof {
        lemma_set_cell(board, position as int, token);
    }
    r
}

/// The opposing color code; anything that is not a token maps to empty.
pub fn negate_token(token: u8) -> (r: u8)
    ensures
        r == negate_code(token),
{
    match token {
        0b10 => 0b11,
        0b11 => 0b10,
        _ => 0b00,
    }
}

/// The board with both colors swapped; the counter bits come out clear.
pub fn reverse_token_of_board(board: u64) -> (r: u64)
    ensures
        forall|p: int| 0 <= p < 24 ==> cell_of(r, p) == negate_code(cell_of(board, p)),
        r >> 48 == 0,
{
    let mut reversed_board: u64 = 0;
    proof {
        lemma_zero_board();
    }
    let mut i: usize = 0;
    while i < 24
        invariant
            i <= 24,
            reversed_board >> 48 == 0,
            forall|p: int| 0 <= p < i ==> cell_of(reversed_board, p) == negate_code(cell_of(board, p)),
        decreases 24 - i,
    {
        let t = negate_token(cell_code(board, i));
        reversed_board = set_token_at(reversed_board, i, t);
        i = i + 1;
    }
    reversed_board
}

/// The 24 cell codes of the board, from cell 0 to cell 23.
pub fn create_token_iter(board: u64) -> (r: Vec<u8>)
    ensures
        r@.len() == 24,
        forall|p: int| 0 <= p < 24 ==> r@[p] == cell_of(board, p),
{
    let mut result: Vec<u8> = Vec::new();
    let mut i: usize = 0;
    while i < 24
        invariant
            i <= 24,
            result@.len() == i,
            forall|p: int| 0 <= p < i ==> result@[p] == cell_of(board, p),
        decreases 24 - i,
    {
        result.push(cell_code(board, i));
        i = i + 1;
    }
    result
}

/// Counts the tokens of one color: white for code `0b11`, black for
/// every other argument.
pub fn get_number_of_tokens(board: u64, token: u8) -> (r: u8)
    ensures
        token == 0b11 ==> r as int == count_tokens(board, 0b11),
        token != 0b11 ==> r as int == count_tokens(board, 0b10),
    {
    let target: u8 = if token == 0b11 {
        0b11
    } else {
        0b10
    };
    let mut count: u8 = 0;
    let mut i: usize = 0;
    while i < 24
        invariant
            i <= 24,
            count as int == count_upto(board, target, i as int),
            count <= i,
        decreases 24 - i,
    {
        if cell_code(board, i) == target {
            count = count + 1;
        }
        i = i + 1;
    }
    count
}

/// Decodes a board string: each character fills one cell, the last
/// character the lowest cell.  A string shorter than 24 characters fills
/// only the trailing cells, as a right-aligned value.
pub fn decode_positions(encoded_positions: String) -> (r: u64)
    requires
        encoded_positions@.len() <= 24,
        forall|i: int|
            0 <= i < encoded_positions@.len() ==> valid_board_char(encoded_positions@[i]),
    ensures
        forall|i: int|
            0 <= i < encoded_positions@.len() ==> cell_of(
                r,
                24 - encoded_positions@.len() + i,
            ) == char_code(encoded_positions@[i]),
        forall|p: int| 0 <= p < 24 - encoded_positions@.len() ==> cell_of(r, p) == 0,
        r >> 48 == 0,
{
    let n = encoded_positions.as_str().unicode_len();
    let mut decoded_positions: u64 = 0;
    proof {
        lemma_zero_board();
    }
    let mut i: usize = 0;
    while i < n
        invariant
            i <= n,
            n == encoded_positions@.len(),
            n <= 24,
            forall|k: int|
                0 <= k < encoded_positions@.len() ==> valid_board_char(encoded_positions@[k]),
            decoded_positions >> 48 == 0,
            forall|k: int|
                0 <= k < i ==> cell_of(decoded_positions, 24 - n + k) == char_code(
                    encoded_positions@[k],
                ),
            forall|p: int| 0 <= p < 24 && !(24 - n <= p < 24 - n + i) ==> cell_of(
                decoded_positions,
                p,
            ) == 0,
        decreases n - i,
    {
        let ch = encoded_positions.as_str().get_char(i);
        let code: u8 = if ch == 'B' {
            0b10
        } else if ch == 'W' {
            0b11
        } else {
            0b00
        };
        let pos = 24 - n + i;
        decoded_positions = set_token_at(decoded_positions, pos, code);
        i = i + 1;
    }
    decoded_positions
}

/// Encodes the 24 cells as a board string, `'E'`/`'B'`/`'W'` per cell.
pub fn encode_positions(board: u64) -> (r: String)
    ensures
        r@.len() == 24,
        forall|i: int| 0 <= i < 24 ==> r@[i] == cell_char(cell_of(board, i)),
{
    let mut encoded_positions = String::from_str("");
    proof {
        reveal_strlit("");
        reveal_strlit("B");
        reveal_strlit("W");
        reveal_strlit("E");
    }
    let mut index: usize = 0;
    while index < 24
        invariant
            index <= 24,
            encoded_positions@.len() == index,
            forall|i: int| 0 <= i < index ==> encoded_positions@[i] == cell_char(cell_of(board, i)),
        decreases 24 - index,
    {
        proof {
            reveal_strlit("B");
            reveal_strlit("W");
            reveal_strlit("E");
        }
        let code = cell_code(board, index);
        if code == 0b10 {
            encoded_positions.append("B");
        } else if code == 0b11 {
            encoded_positions.append("W");
        } else {
            encoded_positions.append("E");
        }
        index = index + 1;
    }
    encoded_positions
}

} // verus!
