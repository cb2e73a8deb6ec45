//! Scale-degree labels of one pitch class above another.

use vstd::prelude::*;

verus! {

/// The degree name of an interval of `d` semitones, for `d` in 0..12.
pub open spec fn degree_label(d: int) -> Seq<char> {
    if d == 0 {
        "R"@
    } else if d == 1 {
        "b9"@
    } else if d == 2 {
        "9"@
    } else if d == 3 {
        "m3"@
    } else if d == 4 {
        "M3"@
    } else if d == 5 {
        "11"@
    } else if d == 6 {
        "#11"@
    } else if d == 7 {
        "5"@
    } else if d == 8 {
        "b13"@
    } else if d == 9 {
        "13"@
    } else if d == 10 {
        "m7"@
    } else {
        "M7"@
    }
}

/// The degree of `target` above `root`: the interval between them reduced
/// to 0..12, named R, b9, 9, m3, M3, 11, #11, 5, b13, 13, m7 or M7.
pub fn get_interval_label(root: u8, target: u8) -> (r: &'static str)
    ensures
        r@ == degree_label((target - root) % 12),
{
    let diff = (target % 12 + 12 - root % 12) % 12;
    assert(diff as int == (target - root) % 12);
    match diff {
        0 => "R",
        1 => "b9",
        2 => "9",
        3 => "m3",
        4 => "M3",
        5 => "11",
        6 => "#11",
        7 => "5",
        8 => "b13",
        9 => "13",
        10 => "m7",
        _ => "M7",
    }
}

} // verus!
