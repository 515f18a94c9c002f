//! The cached counters of the packed board, and their incremental
//! maintenance.
//!
//! Bits 48..54 hold the token counts of both colors, offset-encoded: a
//! stored value `v` stands for `v + 2` real tokens, and real counts
//! below 2 are stored as 0.  Bits 54..64 hold the per-side mobility
//! counts: for each token of a side, the number of empty neighbor
//! cells.  The update function adjusts the mobility fields after a
//! single cell change without rescanning the board.

use vstd::prelude::*;

use crate::moves::adj;
use crate::moves::is_neighbor;
use crate::moves::lemma_adj_range;
use crate::moves::lemma_adj_symmetric;
use crate::position::CELL_BITS_MASK;
use crate::position::cell_of;
use crate::position::count_tokens;
use crate::position::count_upto;
use crate::position::get_number_of_tokens;
use crate::position::lemma_cell_low48;
use crate::position::lemma_set_cell;
use crate::position::set_cell_spec;

verus! {

/// One unit of the white token count field (bit 51).
pub const WHITE_TOKEN_FIRST_POSITION: u64 = 0x0008_0000_0000_0000;

/// One unit of the black token count field (bit 48).
pub const BLACK_TOKEN_FIRST_POSITION: u64 = 0x0001_0000_0000_0000;

/// One unit of the white mobility field (bit 59).
pub const WHITE_POSSIBLE_MOVES_FIRST_POSITION: u64 = 0x0800_0000_0000_0000;

/// One unit of the black mobility field (bit 54).
pub const BLACK_POSSIBLE_MOVES_FIRST_POSITION: u64 = 0x0040_0000_0000_0000;

/// The raw 3-bit white token count field.
pub open spec fn wtc_raw(b: u64) -> u64 {
    (b >> 51) & 7
}

/// The raw 3-bit black token count field.
pub open spec fn btc_raw(b: u64) -> u64 {
    (b >> 48) & 7
}

/// The raw 5-bit white mobility field.
pub open spec fn wmob_raw(b: u64) -> u64 {
    (b >> 59) & 31
}

/// The raw 5-bit black mobility field.
pub open spec fn bmob_raw(b: u64) -> u64 {
    (b >> 54) & 31
}

/// The offset-encoded form of a real token count: counts below 2 store
/// as 0, count `c` in `2..=9` stores as `c - 2`.
pub open spec fn stored_of(c: int) -> u64 {
    if c <= 2 {
        0
    } else if c <= 9 {
        (c - 2) as u64
    } else {
        7
    }
}

/// How many of the first `n` cells are empty neighbors of `p`.
pub open spec fn en_upto(b: u64, p: int, n: int) -> int
    decreases n,
{
    if n <= 0 {
        0
    } else {
        en_upto(b, p, n - 1) + if adj(p, n - 1) && cell_of(b, n - 1) == 0 {
            1int
        } else {
            0int
        }
    }
}

/// The number of empty neighbor cells of `p`.
pub open spec fn empty_nbrs(b: u64, p: int) -> int {
    en_upto(b, p, 24)
}

/// How many of the first `n` cells are neighbors of `p` holding color `c`.
pub open spec fn own_upto(b: u64, p: int, c: u8, n: int) -> int
    decreases n,
{
    if n <= 0 {
        0
    } else {
        own_upto(b, p, c, n - 1) + if adj(p, n - 1) && cell_of(b, n - 1) == c {
            1int
        } else {
            0int
        }
    }
}

/// The number of neighbor cells of `p` holding color `c`.
pub open spec fn own_nbrs(b: u64, p: int, c: u8) -> int {
    own_upto(b, p, c, 24)
}

/// The mobility contributed by tokens of color `c` among the first `n`
/// cells: one unit per empty neighbor of each such token.
pub open spec fn mob_upto(b: u64, c: u8, n: int) -> int
    decreases n,
{
    if n <= 0 {
        0
    } else {
        mob_upto(b, c, n - 1) + if cell_of(b, n - 1) == c {
            empty_nbrs(b, n - 1)
        } else {
            0int
        }
    }
}

/// The mobility of color `c`: the number of (token, empty neighbor)
/// pairs of that color.
pub open spec fn mobility(b: u64, c: u8) -> int {
    mob_upto(b, c, 24)
}

/// What one cell event at `p` does to the mobility of color `c`: a
/// removal frees the cell for its occupied neighbors and takes away the
/// vanished token's own destinations; a placement is the reverse.
pub open spec fn mob_delta(b: u64, p: int, side: u8, remove: bool, c: u8) -> int {
    if remove {
        own_nbrs(b, p, c) - if c == side {
            empty_nbrs(b, p)
        } else {
            0int
        }
    } else {
        (if c == side {
            empty_nbrs(b, p)
        } else {
            0int
        }) - own_nbrs(b, p, c)
    }
}

/// The part of `mob_delta` contributed by the first `n` cells.
pub open spec fn mob_delta_upto(b: u64, p: int, side: u8, remove: bool, c: u8, n: int) -> int {
    if remove {
        own_upto(b, p, c, n) - if c == side {
            en_upto(b, p, n)
        } else {
            0int
        }
    } else {
        (if c == side {
            en_upto(b, p, n)
        } else {
            0int
        }) - own_upto(b, p, c, n)
    }
}

/// The counter bits agree with the cell bits: both token counts are
/// representable and stored offset-encoded, and both mobility fields
/// hold the true mobility of their side.
pub open spec fn counters_ok(b: u64) -> bool {
    count_tokens(b, 0b11) <= 9 && count_tokens(b, 0b10) <= 9 && wtc_raw(b) == stored_of(
        count_tokens(b, 0b11),
    ) && btc_raw(b) == stored_of(count_tokens(b, 0b10)) && wmob_raw(b) as int == mobility(b, 0b11)
        && bmob_raw(b) as int == mobility(b, 0b10)
}

/// The board with the same cells as `b` and every counter field set to
/// the value the cells call for.
pub open spec fn canon(b: u64) -> u64 {
    (b & CELL_BITS_MASK) | (stored_of(count_tokens(b, 0b11)) << 51) | (stored_of(
        count_tokens(b, 0b10),
    ) << 48) | ((mobility(b, 0b11) as u64) << 59) | ((mobility(b, 0b10) as u64) << 54)
}

/// Neighbor counts lie between 0 and the number of cells examined.
pub proof fn lemma_nbr_counts_range(b: u64, p: int, c: u8, n: int)
    requires
        0 <= n <= 24,
    ensures
        0 <= en_upto(b, p, n) <= n,
        0 <= own_upto(b, p, c, n) <= n,
    decreases n,
{
    if n > 0 {
        lemma_nbr_counts_range(b, p, c, n - 1);
    }
}

/// Mobility sums are nonnegative.
pub proof fn lemma_mob_nonneg(b: u64, c: u8, n: int)
    requires
        0 <= n <= 24,
    ensures
        0 <= mob_upto(b, c, n),
    decreases n,
{
    if n > 0 {
        lemma_mob_nonneg(b, c, n - 1);
        lemma_nbr_counts_range(b, n - 1, c, 24);
    }
}

/// Token counts lie between 0 and the number of cells examined.
pub proof fn lemma_count_range(b: u64, t: u8, n: int)
    requires
        0 <= n <= 24,
    ensures
        0 <= count_upto(b, t, n) <= n,
    decreases n,
{
    if n > 0 {
        lemma_count_range(b, t, n - 1);
    }
}

/// Token counts depend only on the cells.
pub proof fn lemma_count_congruent(b1: u64, b2: u64, t: u8, n: int)
    requires
        forall|q: int| 0 <= q < 24 ==> cell_of(b1, q) == cell_of(b2, q),
        0 <= n <= 24,
    ensures
        count_upto(b1, t, n) == count_upto(b2, t, n),
    decreases n,
{
    if n > 0 {
        lemma_count_congruent(b1, b2, t, n - 1);
    }
}

/// Empty-neighbor counts depend only on the cells.
pub proof fn lemma_en_congruent(b1: u64, b2: u64, p: int, n: int)
    requires
        forall|q: int| 0 <= q < 24 ==> cell_of(b1, q) == cell_of(b2, q),
        0 <= n <= 24,
    ensures
        en_upto(b1, p, n) == en_upto(b2, p, n),
    decreases n,
{
    if n > 0 {
        lemma_en_congruent(b1, b2, p, n - 1);
    }
}

/// Occupied-neighbor counts depend only on the cells.
pub proof fn lemma_own_congruent(b1: u64, b2: u64, p: int, c: u8, n: int)
    requires
        forall|q: int| 0 <= q < 24 ==> cell_of(b1, q) == cell_of(b2, q),
        0 <= n <= 24,
    ensures
        own_upto(b1, p, c, n) == own_upto(b2, p, c, n),
    decreases n,
{
    if n > 0 {
        lemma_own_congruent(b1, b2, p, c, n - 1);
    }
}

/// Mobility depends only on the cells.
pub proof fn lemma_mob_congruent(b1: u64, b2: u64, c: u8, n: int)
    requires
        forall|q: int| 0 <= q < 24 ==> cell_of(b1, q) == cell_of(b2, q),
        0 <= n <= 24,
    ensures
        mob_upto(b1, c, n) == mob_upto(b2, c, n),
    decreases n,
{
    if n > 0 {
        lemma_mob_congruent(b1, b2, c, n - 1);
        lemma_en_congruent(b1, b2, n - 1, 24);
    }
}

/// How a single cell write moves a token count: the old occupant's
/// count drops by one, the new occupant's count rises by one.
pub proof fn lemma_count_set_cell(b: u64, pc: int, v: u8, t: u8, n: int)
    requires
        0 <= pc < 24,
        v <= 3,
        0 <= n <= 24,
    ensures
        count_upto(set_cell_spec(b, pc, v), t, n) == count_upto(b, t, n) + (if pc < n {
            (if v == t {
                1int
            } else {
                0int
            }) - (if cell_of(b, pc) == t {
                1int
            } else {
                0int
            })
        } else {
            0int
        }),
    decreases n,
{
    lemma_set_cell(b, pc, v);
    if n > 0 {
        lemma_count_set_cell(b, pc, v, t, n - 1);
    }
}

/// How a single cell write moves an empty-neighbor count.
pub proof fn lemma_en_set_cell(b: u64, pc: int, v: u8, p: int, n: int)
    requires
        0 <= pc < 24,
        v <= 3,
        0 <= n <= 24,
    ensures
        en_upto(set_cell_spec(b, pc, v), p, n) == en_upto(b, p, n) + (if pc < n && adj(p, pc) {
            (if v == 0 {
                1int
            } else {
                0int
            }) - (if cell_of(b, pc) == 0 {
                1int
            } else {
                0int
            })
        } else {
            0int
        }),
    decreases n,
{
    lemma_set_cell(b, pc, v);
    if n > 0 {
        lemma_en_set_cell(b, pc, v, p, n - 1);
    }
}

/// How a single cell write moves an occupied-neighbor count.
pub proof fn lemma_own_set_cell(b: u64, pc: int, v: u8, p: int, c: u8, n: int)
    requires
        0 <= pc < 24,
        v <= 3,
        0 <= n <= 24,
    ensures
        own_upto(set_cell_spec(b, pc, v), p, c, n) == own_upto(b, p, c, n) + (if pc < n && adj(
            p,
            pc,
        ) {
            (if v == c {
                1int
            } else {
                0int
            }) - (if cell_of(b, pc) == c {
                1int
            } else {
                0int
            })
        } else {
            0int
        }),
    decreases n,
{
    lemma_set_cell(b, pc, v);
    if n > 0 {
        lemma_own_set_cell(b, pc, v, p, c, n - 1);
    }
}

/// A cell holding `t` makes the count of `t` at least one.
pub proof fn lemma_count_at_least_one(b: u64, t: u8, p: int, n: int)
    requires
        0 <= p < n <= 24,
        cell_of(b, p) == t,
    ensures
        count_upto(b, t, n) >= 1,
    decreases n,
{
    lemma_count_range(b, t, n - 1);
    if p < n - 1 {
        lemma_count_at_least_one(b, t, p, n - 1);
    }
}

/// Clearing an occupied cell `pc` takes the vanished token's own
/// destinations out of its color's mobility and hands every occupied
/// neighbor of `pc` one new destination.
pub proof fn lemma_mob_clear(b: u64, pc: int, c: u8, n: int)
    requires
        0 <= pc < 24,
        cell_of(b, pc) != 0,
        c == 0b10 || c == 0b11,
        0 <= n <= 24,
    ensures
        mob_upto(set_cell_spec(b, pc, 0), c, n) == mob_upto(b, c, n) - (if pc < n && cell_of(b, pc)
            == c {
            empty_nbrs(b, pc)
        } else {
            0int
        }) + own_upto(b, pc, c, n),
    decreases n,
{
    lemma_adj_symmetric();
    lemma_adj_range();
    lemma_set_cell(b, pc, 0);
    if n > 0 {
        lemma_mob_clear(b, pc, c, n - 1);
        let r = n - 1;
        lemma_en_set_cell(b, pc, 0, r, 24);
        if r == pc {
            assert(cell_of(set_cell_spec(b, pc, 0), r) == 0);
        }
    }
}

/// Placing a token of color `v` on the empty cell `pc` gives the new
/// token its empty neighbors as destinations and takes the cell away
/// from every occupied neighbor of `pc`.
pub proof fn lemma_mob_place(b: u64, pc: int, v: u8, c: u8, n: int)
    requires
        0 <= pc < 24,
        cell_of(b, pc) == 0,
        v == 0b10 || v == 0b11,
        c == 0b10 || c == 0b11,
        0 <= n <= 24,
    ensures
        mob_upto(set_cell_spec(b, pc, v), c, n) == mob_upto(b, c, n) + (if pc < n && v == c {
            empty_nbrs(b, pc)
        } else {
            0int
        }) - own_upto(b, pc, c, n),
    decreases n,
{
    lemma_adj_symmetric();
    lemma_adj_range();
    lemma_set_cell(b, pc, v);
    if n > 0 {
        lemma_mob_place(b, pc, v, c, n - 1);
        let r = n - 1;
        lemma_en_set_cell(b, pc, v, r, 24);
        if r == pc && v == c {
            lemma_en_set_cell(b, pc, v, pc, 24);
        }
    }
}

/// No position has more than 4 neighbors, and only the four spoke
/// crossings of the middle ring have as many as 4.
pub proof fn lemma_en_bound(b: u64, p: int)
    requires
        0 <= p < 24,
    ensures
        en_upto(b, p, 24) <= 4,
        !(p == 8 || p == 10 || p == 12 || p == 14) ==> en_upto(b, p, 24) <= 3,
{
    reveal_with_fuel(en_upto, 25);
    if p == 0 {
        assert(en_upto(b, 0, 24) <= 3);
    } else if p == 1 {
        assert(en_upto(b, 1, 24) <= 3);
    } else if p == 2 {
        assert(en_upto(b, 2, 24) <= 3);
    } else if p == 3 {
        assert(en_upto(b, 3, 24) <= 3);
    } else if p == 4 {
        assert(en_upto(b, 4, 24) <= 3);
    } else if p == 5 {
        assert(en_upto(b, 5, 24) <= 3);
    } else if p == 6 {
        assert(en_upto(b, 6, 24) <= 3);
    } else if p == 7 {
        assert(en_upto(b, 7, 24) <= 3);
    } else if p == 8 {
        assert(en_upto(b, 8, 24) <= 4);
    } else if p == 9 {
        assert(en_upto(b, 9, 24) <= 3);
    } else if p == 10 {
        assert(en_upto(b, 10, 24) <= 4);
    } else if p == 11 {
        assert(en_upto(b, 11, 24) <= 3);
    } else if p == 12 {
        assert(en_upto(b, 12, 24) <= 4);
    } else if p == 13 {
        assert(en_upto(b, 13, 24) <= 3);
    } else if p == 14 {
        assert(en_upto(b, 14, 24) <= 4);
    } else if p == 15 {
        assert(en_upto(b, 15, 24) <= 3);
    } else if p == 16 {
        assert(en_upto(b, 16, 24) <= 3);
    } else if p == 17 {
        assert(en_upto(b, 17, 24) <= 3);
    } else if p == 18 {
        assert(en_upto(b, 18, 24) <= 3);
    } else if p == 19 {
        assert(en_upto(b, 19, 24) <= 3);
    } else if p == 20 {
        assert(en_upto(b, 20, 24) <= 3);
    } else if p == 21 {
        assert(en_upto(b, 21, 24) <= 3);
    } else if p == 22 {
        assert(en_upto(b, 22, 24) <= 3);
    } else {
        assert(en_upto(b, 23, 24) <= 3);
    }
}

/// How many of the first `n` cells hold color `c` at one of the four
/// positions with 4 neighbors.
pub open spec fn big4_upto(b: u64, c: u8, n: int) -> int
    decreases n,
{
    if n <= 0 {
        0
    } else {
        big4_upto(b, c, n - 1) + if cell_of(b, n - 1) == c && (n - 1 == 8 || n - 1 == 10 || n - 1
            == 12 || n - 1 == 14) {
            1int
        } else {
            0int
        }
    }
}

proof fn lemma_big4_cap(b: u64, c: u8, n: int)
    requires
        0 <= n <= 24,
    ensures
        0 <= big4_upto(b, c, n) <= 4,
    decreases n,
{
    if n > 0 {
        lemma_big4_cap(b, c, n - 1);
        assert(big4_upto(b, c, n) <= (if n <= 8 {
            0int
        } else if n <= 10 {
            1int
        } else if n <= 12 {
            2int
        } else if n <= 14 {
            3int
        } else {
            4int
        })) by {
            lemma_big4_count(b, c, n);
        }
    }
}

proof fn lemma_big4_count(b: u64, c: u8, n: int)
    requires
        0 <= n <= 24,
    ensures
        big4_upto(b, c, n) <= (if n <= 8 {
            0int
        } else if n <= 10 {
            1int
        } else if n <= 12 {
            2int
        } else if n <= 14 {
            3int
        } else {
            4int
        }),
    decreases n,
{
    if n > 0 {
        lemma_big4_count(b, c, n - 1);
    }
}

proof fn lemma_mob_bound_upto(b: u64, c: u8, n: int)
    requires
        0 <= n <= 24,
    ensures
        mob_upto(b, c, n) <= 3 * count_upto(b, c, n) + big4_upto(b, c, n),
    decreases n,
{
    if n > 0 {
        lemma_mob_bound_upto(b, c, n - 1);
        lemma_en_bound(b, n - 1);
        lemma_nbr_counts_range(b, n - 1, c, 24);
    }
}

/// A side with at most 9 tokens has mobility at most 31: at most four
/// tokens can sit on 4-neighbor positions, the rest have at most 3
/// neighbors each.
pub proof fn lemma_mob_le_31(b: u64, c: u8)
    requires
        count_tokens(b, c) <= 9,
    ensures
        mobility(b, c) <= 31,
{
    lemma_mob_bound_upto(b, c, 24);
    lemma_big4_cap(b, c, 24);
    lemma_count_range(b, c, 24);
}

/// Boards with equal high bits have equal counter fields.
pub proof fn lemma_high_fields_eq(x: u64, y: u64)
    requires
        x >> 48 == y >> 48,
    ensures
        wtc_raw(x) == wtc_raw(y),
        btc_raw(x) == btc_raw(y),
        wmob_raw(x) == wmob_raw(y),
        bmob_raw(x) == bmob_raw(y),
{
    assert((x >> 48 == y >> 48) ==> ((x >> 51) & 7 == (y >> 51) & 7 && (x >> 48) & 7 == (y >> 48)
        & 7 && (x >> 59) & 31 == (y >> 59) & 31 && (x >> 54) & 31 == (y >> 54) & 31))
        by (bit_vector);
}

/// Boards with equal counter fields have equal high bits.
pub proof fn lemma_fields_determine_high(x: u64, y: u64)
    requires
        wtc_raw(x) == wtc_raw(y),
        btc_raw(x) == btc_raw(y),
        wmob_raw(x) == wmob_raw(y),
        bmob_raw(x) == bmob_raw(y),
    ensures
        x >> 48 == y >> 48,
{
    assert(((x >> 51) & 7 == (y >> 51) & 7 && (x >> 48) & 7 == (y >> 48) & 7 && (x >> 59) & 31 == (
    y >> 59) & 31 && (x >> 54) & 31 == (y >> 54) & 31) ==> x >> 48 == y >> 48) by (bit_vector);
}

/// Overwriting the two mobility fields leaves the cells and the token
/// counts alone.
pub proof fn lemma_set_mob_fields(b: u64, wm: u64, bm: u64)
    requires
        wm <= 31,
        bm <= 31,
    ensures
        ({
            let z = (b & 0x003F_FFFF_FFFF_FFFFu64) | (wm << 59) | (bm << 54);
            z & CELL_BITS_MASK == b & CELL_BITS_MASK && wtc_raw(z) == wtc_raw(b) && btc_raw(z)
                == btc_raw(b) && wmob_raw(z) == wm && bmob_raw(z) == bm
        }),
{
    let z = (b & 0x003F_FFFF_FFFF_FFFFu64) | (wm << 59) | (bm << 54);
    assert((wm <= 31 && bm <= 31) ==> (((b & 0x003F_FFFF_FFFF_FFFFu64) | (wm << 59) | (bm << 54))
        & 0xFFFF_FFFF_FFFFu64 == b & 0xFFFF_FFFF_FFFFu64 && (((b & 0x003F_FFFF_FFFF_FFFFu64) | (wm
        << 59) | (bm << 54)) >> 51) & 7 == (b >> 51) & 7 && (((b & 0x003F_FFFF_FFFF_FFFFu64) | (wm
        << 59) | (bm << 54)) >> 48) & 7 == (b >> 48) & 7 && (((b & 0x003F_FFFF_FFFF_FFFFu64) | (wm
        << 59) | (bm << 54)) >> 59) & 31 == wm && (((b & 0x003F_FFFF_FFFF_FFFFu64) | (wm << 59) | (
    bm << 54)) >> 54) & 31 == bm)) by (bit_vector);
}

/// Overwriting the two token count fields leaves the cells and the
/// mobility fields alone.
pub proof fn lemma_set_token_fields(b: u64, w: u64, bl: u64)
    requires
        w <= 7,
        bl <= 7,
    ensures
        ({
            let z = (b & 0xFFC0_FFFF_FFFF_FFFFu64) | (w << 51) | (bl << 48);
            z & CELL_BITS_MASK == b & CELL_BITS_MASK && wtc_raw(z) == w && btc_raw(z) == bl
                && wmob_raw(z) == wmob_raw(b) && bmob_raw(z) == bmob_raw(b)
        }),
{
    assert((w <= 7 && bl <= 7) ==> (((b & 0xFFC0_FFFF_FFFF_FFFFu64) | (w << 51) | (bl << 48))
        & 0xFFFF_FFFF_FFFFu64 == b & 0xFFFF_FFFF_FFFFu64 && (((b & 0xFFC0_FFFF_FFFF_FFFFu64) | (w
        << 51) | (bl << 48)) >> 51) & 7 == w && (((b & 0xFFC0_FFFF_FFFF_FFFFu64) | (w << 51) | (bl
        << 48)) >> 48) & 7 == bl && (((b & 0xFFC0_FFFF_FFFF_FFFFu64) | (w << 51) | (bl << 48))
        >> 59) & 31 == (b >> 59) & 31 && (((b & 0xFFC0_FFFF_FFFF_FFFFu64) | (w << 51) | (bl << 48))
        >> 54) & 31 == (b >> 54) & 31)) by (bit_vector);
}

/// Adding one unit to the white token count field touches nothing else.
pub proof fn lemma_add_white_token(b: u64)
    requires
        wtc_raw(b) < 7,
    ensures
        b + WHITE_TOKEN_FIRST_POSITION <= u64::MAX,
        ({
            let z = (b + WHITE_TOKEN_FIRST_POSITION) as u64;
            z & CELL_BITS_MASK == b & CELL_BITS_MASK && wtc_raw(z) == wtc_raw(b) + 1 && btc_raw(z)
                == btc_raw(b) && wmob_raw(z) == wmob_raw(b) && bmob_raw(z) == bmob_raw(b)
        }),
{
    assert(((b >> 51) & 7 < 7) ==> (b + 0x0008_0000_0000_0000 <= 0xFFFF_FFFF_FFFF_FFFFu64 && ((b + 0x0008_0000_0000_0000) as u64) & 0xFFFF_FFFF_FFFFu64 == b & 0xFFFF_FFFF_FFFFu64 && (((b + 0x0008_0000_0000_0000) as u64) >> 51) & 7
        == ((b >> 51) & 7) + 1 && (((b + 0x0008_0000_0000_0000) as u64) >> 48) & 7 == (b >> 48) & 7 && (
    ((b + 0x0008_0000_0000_0000) as u64) >> 59) & 31 == (b >> 59) & 31 && (((b + 0x0008_0000_0000_0000) as u64)
        >> 54) & 31 == (b >> 54) & 31)) by (bit_vector);
}

/// Adding one unit to the black token count field touches nothing else.
pub proof fn lemma_add_black_token(b: u64)
    requires
        btc_raw(b) < 7,
    ensures
        b + BLACK_TOKEN_FIRST_POSITION <= u64::MAX,
        ({
            let z = (b + BLACK_TOKEN_FIRST_POSITION) as u64;
            z & CELL_BITS_MASK == b & CELL_BITS_MASK && wtc_raw(z) == wtc_raw(b) && btc_raw(z)
                == btc_raw(b) + 1 && wmob_raw(z) == wmob_raw(b) && bmob_raw(z) == bmob_raw(b)
        }),
{
    assert(((b >> 48) & 7 < 7) ==> (b + 0x0001_0000_0000_0000 <= 0xFFFF_FFFF_FFFF_FFFFu64 && ((b + 0x0001_0000_0000_0000) as u64) & 0xFFFF_FFFF_FFFFu64 == b & 0xFFFF_FFFF_FFFFu64 && (((b + 0x0001_0000_0000_0000) as u64) >> 51) & 7
        == (b >> 51) & 7 && (((b + 0x0001_0000_0000_0000) as u64) >> 48) & 7 == ((b >> 48) & 7) + 1 && (
    ((b + 0x0001_0000_0000_0000) as u64) >> 59) & 31 == (b >> 59) & 31 && (((b + 0x0001_0000_0000_0000) as u64)
        >> 54) & 31 == (b >> 54) & 31)) by (bit_vector);
}

/// Taking one unit from the white token count field touches nothing else.
pub proof fn lemma_sub_white_token(b: u64)
    requires
        wtc_raw(b) > 0,
    ensures
        b >= WHITE_TOKEN_FIRST_POSITION,
        ({
            let z = (b - WHITE_TOKEN_FIRST_POSITION) as u64;
            z & CELL_BITS_MASK == b & CELL_BITS_MASK && wtc_raw(z) as int == wtc_raw(b) - 1
                && btc_raw(z) == btc_raw(b) && wmob_raw(z) == wmob_raw(b) && bmob_raw(z) == bmob_raw(
                b,
            )
        }),
{
    assert(((b >> 51) & 7 > 0) ==> (b >= 0x0008_0000_0000_0000 && ((b - 0x0008_0000_0000_0000) as u64)
        & 0xFFFF_FFFF_FFFFu64 == b & 0xFFFF_FFFF_FFFFu64 && ((((b - 0x0008_0000_0000_0000) as u64) >> 51)
        & 7) + 1 == (b >> 51) & 7 && (((b - 0x0008_0000_0000_0000) as u64) >> 48) & 7 == (b >> 48) & 7 && (
    ((b - 0x0008_0000_0000_0000) as u64) >> 59) & 31 == (b >> 59) & 31 && (((b - 0x0008_0000_0000_0000) as u64)
        >> 54) & 31 == (b >> 54) & 31)) by (bit_vector);
}

/// Taking one unit from the black token count field touches nothing else.
pub proof fn lemma_sub_black_token(b: u64)
    requires
        btc_raw(b) > 0,
    ensures
        b >= BLACK_TOKEN_FIRST_POSITION,
        ({
            let z = (b - BLACK_TOKEN_FIRST_POSITION) as u64;
            z & CELL_BITS_MASK == b & CELL_BITS_MASK && wtc_raw(z) == wtc_raw(b) && btc_raw(z)
                as int == btc_raw(b) - 1 && wmob_raw(z) == wmob_raw(b) && bmob_raw(z) == bmob_raw(b)
        }),
{
    assert(((b >> 48) & 7 > 0) ==> (b >= 0x0001_0000_0000_0000 && ((b - 0x0001_0000_0000_0000) as u64)
        & 0xFFFF_FFFF_FFFFu64 == b & 0xFFFF_FFFF_FFFFu64 && (((b - 0x0001_0000_0000_0000) as u64) >> 51)
        & 7 == (b >> 51) & 7 && ((((b - 0x0001_0000_0000_0000) as u64) >> 48) & 7) + 1 == (b >> 48) & 7
        && (((b - 0x0001_0000_0000_0000) as u64) >> 59) & 31 == (b >> 59) & 31 && (((b - 0x0001_0000_0000_0000) as u64) >> 54) & 31 == (b >> 54) & 31)) by (bit_vector);
}

/// A board whose counters agree with its cells is its own canonical
/// form.
pub proof fn lemma_canon_self(b: u64)
    requires
        counters_ok(b),
    ensures
        canon(b) == b,
{
    lemma_count_range(b, 0b11, 24);
    lemma_count_range(b, 0b10, 24);
    lemma_mob_nonneg(b, 0b11, 24);
    lemma_mob_nonneg(b, 0b10, 24);
    assert(b == (b & 0xFFFF_FFFF_FFFFu64) | (((b >> 51) & 7) << 51) | (((b >> 48) & 7) << 48) | (((
    b >> 59) & 31) << 59) | (((b >> 54) & 31) << 54)) by (bit_vector);
}

/// The canonical form keeps the cells and carries exactly the counter
/// values the cells call for.
pub proof fn lemma_canon_fields(b: u64)
    requires
        count_tokens(b, 0b11) <= 9,
        count_tokens(b, 0b10) <= 9,
        mobility(b, 0b11) <= 31,
        mobility(b, 0b10) <= 31,
    ensures
        canon(b) & CELL_BITS_MASK == b & CELL_BITS_MASK,
        forall|q: int| 0 <= q < 24 ==> cell_of(canon(b), q) == cell_of(b, q),
        wtc_raw(canon(b)) == stored_of(count_tokens(b, 0b11)),
        btc_raw(canon(b)) == stored_of(count_tokens(b, 0b10)),
        wmob_raw(canon(b)) as int == mobility(b, 0b11),
        bmob_raw(canon(b)) as int == mobility(b, 0b10),
        counters_ok(canon(b)),
{
    lemma_count_range(b, 0b11, 24);
    lemma_count_range(b, 0b10, 24);
    lemma_mob_nonneg(b, 0b11, 24);
    lemma_mob_nonneg(b, 0b10, 24);
    let w: u64 = stored_of(count_tokens(b, 0b11));
    let bl: u64 = stored_of(count_tokens(b, 0b10));
    let wm: u64 = mobility(b, 0b11) as u64;
    let bm: u64 = mobility(b, 0b10) as u64;
    let z = canon(b);
    assert(z == (b & 0xFFFF_FFFF_FFFFu64) | (w << 51) | (bl << 48) | (wm << 59) | (bm << 54));
    assert((w <= 7 && bl <= 7 && wm <= 31 && bm <= 31) ==> (((b & 0xFFFF_FFFF_FFFFu64) | (w << 51)
        | (bl << 48) | (wm << 59) | (bm << 54)) & 0xFFFF_FFFF_FFFFu64 == b & 0xFFFF_FFFF_FFFFu64
        && (((b & 0xFFFF_FFFF_FFFFu64) | (w << 51) | (bl << 48) | (wm << 59) | (bm << 54)) >> 51)
        & 7 == w && (((b & 0xFFFF_FFFF_FFFFu64) | (w << 51) | (bl << 48) | (wm << 59) | (bm << 54))
        >> 48) & 7 == bl && (((b & 0xFFFF_FFFF_FFFFu64) | (w << 51) | (bl << 48) | (wm << 59) | (bm
        << 54)) >> 59) & 31 == wm && (((b & 0xFFFF_FFFF_FFFFu64) | (w << 51) | (bl << 48) | (wm
        << 59) | (bm << 54)) >> 54) & 31 == bm)) by (bit_vector);
    assert forall|q: int| 0 <= q < 24 implies cell_of(z, q) == cell_of(b, q) by {
        lemma_cell_low48(z, b, q);
    }
    lemma_count_congruent(z, b, 0b11, 24);
    lemma_count_congruent(z, b, 0b10, 24);
    lemma_mob_congruent(z, b, 0b11, 24);
    lemma_mob_congruent(z, b, 0b10, 24);
}

/// Reads the white token count: the raw field plus the offset of 2.
pub fn extract_white_token_count_from_board(board: u64) -> (r: u64)
    ensures
        r == wtc_raw(board) + 2,
{
    proof {
        assert((board >> 51) & 7 <= 7) by (bit_vector);
    }
    ((board >> 51) & 7) + 2
}

/// Reads the black token count: the raw field plus the offset of 2.
pub fn extract_black_token_count_from_board(board: u64) -> (r: u64)
    ensures
        r == btc_raw(board) + 2,
{
    proof {
        assert((board >> 48) & 7 <= 7) by (bit_vector);
    }
    ((board >> 48) & 7) + 2
}

/// Reads the white mobility count field.
pub fn extract_white_move_count_from_board(board: u64) -> (r: u64)
    ensures
        r == wmob_raw(board),
{
    (board >> 59) & 31
}

/// Reads the black mobility count field.
pub fn extract_black_move_count_from_board(board: u64) -> (r: u64)
    ensures
        r == bmob_raw(board),
{
    (board >> 54) & 31
}

/// Counts the legal sliding destinations of one side by a full board
/// scan: for each of its tokens, the number of empty neighbor cells.
pub fn get_possible_move_count(board: u64, token_type: u8) -> (r: usize)
    ensures
        r as int == mobility(board, token_type),
{
    let mut count: usize = 0;
    let mut p: usize = 0;
    while p < 24
        invariant
            p <= 24,
            count as int == mob_upto(board, token_type, p as int),
            count <= 96 * p,
        decreases 24 - p,
    {
        if crate::position::cell_code(board, p) == token_type {
            let mut q: usize = 0;
            let mut here: usize = 0;
            while q < 24
                invariant
                    p < 24,
                    q <= 24,
                    here as int == en_upto(board, p as int, q as int),
                    here <= q,
                decreases 24 - q,
            {
                if is_neighbor(p, q) && crate::position::cell_code(board, q) == 0b00 {
                    here = here + 1;
                }
                q = q + 1;
            }
            count = count + here;
        }
        p = p + 1;
    }
    count
}

/// Writes both offset-encoded token counts, computed from the cells,
/// into the board's count fields.
pub fn insert_token_count_to_board(board: u64) -> (r: u64)
    requires
        count_tokens(board, 0b11) <= 9,
        count_tokens(board, 0b10) <= 9,
    ensures
        forall|q: int| 0 <= q < 24 ==> cell_of(r, q) == cell_of(board, q),
        wtc_raw(r) == stored_of(count_tokens(board, 0b11)),
        btc_raw(r) == stored_of(count_tokens(board, 0b10)),
        wmob_raw(r) == wmob_raw(board),
        bmob_raw(r) == bmob_raw(board),
{
    proof {
        lemma_count_range(board, 0b11, 24);
        lemma_count_range(board, 0b10, 24);
    }
    let white_count = get_number_of_tokens(board, 0b11);
    let black_count = get_number_of_tokens(board, 0b10);
    let white_token_count: u64 = if white_count <= 2 {
        0
    } else {
        (white_count - 2) as u64
    };
    let black_token_count: u64 = if black_count <= 2 {
        0
    } else {
        (black_count - 2) as u64
    };
    let r = (board & 0xFFC0_FFFF_FFFF_FFFFu64) | (white_token_count << 51) | (black_token_count
        << 48);
    proof {
        lemma_set_token_fields(board, white_token_count, black_token_count);
        assert forall|q: int| 0 <= q < 24 implies cell_of(r, q) == cell_of(board, q) by {
            lemma_cell_low48(r, board, q);
        }
    }
    r
}

/// Writes both mobility counts, computed from the cells, into the
/// board's mobility fields.
pub fn insert_number_of_possible_moves_to_board(board: u64) -> (r: u64)
    requires
        mobility(board, 0b11) <= 31,
        mobility(board, 0b10) <= 31,
    ensures
        forall|q: int| 0 <= q < 24 ==> cell_of(r, q) == cell_of(board, q),
        wmob_raw(r) as int == mobility(board, 0b11),
        bmob_raw(r) as int == mobility(board, 0b10),
        wtc_raw(r) == wtc_raw(board),
        btc_raw(r) == btc_raw(board),
{
    proof {
        lemma_mob_nonneg(board, 0b11, 24);
        lemma_mob_nonneg(board, 0b10, 24);
    }
    let white_possible_moves = get_possible_move_count(board, 0b11) as u64;
    let black_possible_moves = get_possible_move_count(board, 0b10) as u64;
    let r = (board & 0x003F_FFFF_FFFF_FFFFu64) | (white_possible_moves << 59) | (
    black_possible_moves << 54);
    proof {
        lemma_set_mob_fields(board, white_possible_moves, black_possible_moves);
        assert forall|q: int| 0 <= q < 24 implies cell_of(r, q) == cell_of(board, q) by {
            lemma_cell_low48(r, board, q);
        }
    }
    r
}

/// Adjusts both mobility fields after a single cell event at
/// `position`: a removal (`remove`, the cell is already clear) or a
/// placement (the cell already holds `token_type`).  Only the two
/// mobility fields change; the cells and token counts stay.
pub fn update_possible_move_count(board: u64, token_type: u8, position: usize, remove: bool) -> (r:
    u64)
    requires
        position < 24,
        token_type == 0b10 || token_type == 0b11,
        remove ==> cell_of(board, position as int) == 0,
        !remove ==> cell_of(board, position as int) == token_type,
        0 <= wmob_raw(board) + mob_delta(board, position as int, token_type, remove, 0b11) <= 31,
        0 <= bmob_raw(board) + mob_delta(board, position as int, token_type, remove, 0b10) <= 31,
    ensures
        forall|q: int| 0 <= q < 24 ==> cell_of(r, q) == cell_of(board, q),
        wtc_raw(r) == wtc_raw(board),
        btc_raw(r) == btc_raw(board),
        wmob_raw(r) as int == wmob_raw(board) + mob_delta(
            board,
            position as int,
            token_type,
            remove,
            0b11,
        ),
        bmob_raw(r) as int == bmob_raw(board) + mob_delta(
            board,
            position as int,
            token_type,
            remove,
            0b10,
        ),
{
    let dir: i64 = if remove {
        -1
    } else {
        1
    };
    let mut dw: i64 = 0;
    let mut db: i64 = 0;
    let mut q: usize = 0;
    while q < 24
        invariant
            q <= 24,
            position < 24,
            token_type == 0b10 || token_type == 0b11,
            dir == (if remove {
                -1int
            } else {
                1int
            }),
            dw as int == mob_delta_upto(board, position as int, token_type, remove, 0b11, q as int),
            db as int == mob_delta_upto(board, position as int, token_type, remove, 0b10, q as int),
            -(q as int) <= dw <= q as int,
            -(q as int) <= db <= q as int,
        decreases 24 - q,
    {
        if is_neighbor(position, q) {
            let neighbor_code = crate::position::cell_code(board, q);
            if neighbor_code == 0b00 {
                if token_type == 0b11 {
                    dw = dw + dir;
                } else {
                    db = db + dir;
                }
            } else if neighbor_code == 0b11 {
                dw = dw - dir;
            } else if neighbor_code == 0b10 {
                db = db - dir;
            }
        }
        q = q + 1;
    }
    let wm0 = (board >> 59) & 31;
    let bm0 = (board >> 54) & 31;
    proof {
        assert((board >> 59) & 31 <= 31 && (board >> 54) & 31 <= 31) by (bit_vector);
    }
    let wm1: i64 = wm0 as i64 + dw;
    let bm1: i64 = bm0 as i64 + db;
    let r = (board & 0x003F_FFFF_FFFF_FFFFu64) | ((wm1 as u64) << 59) | ((bm1 as u64) << 54);
    proof {
        lemma_set_mob_fields(board, wm1 as u64, bm1 as u64);
        assert forall|k: int| 0 <= k < 24 implies cell_of(r, k) == cell_of(board, k) by {
            lemma_cell_low48(r, board, k);
        }
    }
    r
}

} // verus!
