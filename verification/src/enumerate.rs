//! The textual field numbering of the line-based agent protocol.
//!
//! The protocol numbers the three cells 0, 8 and 16 as 8, 16 and 24;
//! every other cell keeps its index.

use vstd::prelude::*;

verus! {

/// The protocol field number of a board position: positions 0, 8 and
/// 16 are written as 8, 16 and 24, all others as themselves.
pub fn encode_single_position(position: usize) -> (r: String)
    requires
        position < 24,
    ensures
        position == 0 ==> r@ == "8"@,
        position == 1 ==> r@ == "1"@,
        position == 2 ==> r@ == "2"@,
        position == 3 ==> r@ == "3"@,
        position == 4 ==> r@ == "4"@,
        position == 5 ==> r@ == "5"@,
        position == 6 ==> r@ == "6"@,
        position == 7 ==> r@ == "7"@,
        position == 8 ==> r@ == "16"@,
        position == 9 ==> r@ == "9"@,
        position == 10 ==> r@ == "10"@,
        position == 11 ==> r@ == "11"@,
        position == 12 ==> r@ == "12"@,
        position == 13 ==> r@ == "13"@,
        position == 14 ==> r@ == "14"@,
        position == 15 ==> r@ == "15"@,
        position == 16 ==> r@ == "24"@,
        position == 17 ==> r@ == "17"@,
        position == 18 ==> r@ == "18"@,
        position == 19 ==> r@ == "19"@,
        position == 20 ==> r@ == "20"@,
        position == 21 ==> r@ == "21"@,
        position == 22 ==> r@ == "22"@,
        position == 23 ==> r@ == "23"@,
{
    match position {
        0 => String::from_str("8"),
        1 => String::from_str("1"),
        2 => String::from_str("2"),
        3 => String::from_str("3"),
        4 => String::from_str("4"),
        5 => String::from_str("5"),
        6 => String::from_str("6"),
        7 => String::from_str("7"),
        8 => String::from_str("16"),
        9 => String::from_str("9"),
        10 => String::from_str("10"),
        11 => String::from_str("11"),
        12 => String::from_str("12"),
        13 => String::from_str("13"),
        14 => String::from_str("14"),
        15 => String::from_str("15"),
        16 => String::from_str("24"),
        17 => String::from_str("17"),
        18 => String::from_str("18"),
        19 => String::from_str("19"),
        20 => String::from_str("20"),
        21 => String::from_str("21"),
        22 => String::from_str("22"),
        _ => String::from_str("23"),
    }
}

} // verus!
