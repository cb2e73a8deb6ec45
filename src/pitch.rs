//! Note-name spellings and their pitch classes.

use vstd::prelude::*;

verus! {

/// Pitch class of a natural letter name.
pub open spec fn natural_pitch_class(c: char) -> Option<u8> {
    if c == 'C' {
        Some(0u8)
    } else if c == 'D' {
        Some(2u8)
    } else if c == 'E' {
        Some(4u8)
    } else if c == 'F' {
        Some(5u8)
    } else if c == 'G' {
        Some(7u8)
    } else if c == 'A' {
        Some(9u8)
    } else if c == 'B' {
        Some(11u8)
    } else {
        None
    }
}

/// Pitch class of a letter raised by a sharp; only the five conventional
/// sharps (C#, D#, F#, G#, A#) are spellings.
pub open spec fn sharp_pitch_class(c: char) -> Option<u8> {
    if c == 'C' {
        Some(1u8)
    } else if c == 'D' {
        Some(3u8)
    } else if c == 'F' {
        Some(6u8)
    } else if c == 'G' {
        Some(8u8)
    } else if c == 'A' {
        Some(10u8)
    } else {
        None
    }
}

/// Pitch class of a letter lowered by a flat; only the five conventional
/// flats (Db, Eb, Gb, Ab, Bb) are spellings.
pub open spec fn flat_pitch_class(c: char) -> Option<u8> {
    if c == 'D' {
        Some(1u8)
    } else if c == 'E' {
        Some(3u8)
    } else if c == 'G' {
        Some(6u8)
    } else if c == 'A' {
        Some(8u8)
    } else if c == 'B' {
        Some(10u8)
    } else {
        None
    }
}

/// The pitch class that a note spelling names, if it is one of the
/// seventeen accepted spellings.
pub open spec fn note_pitch_class(s: Seq<char>) -> Option<u8> {
    if s.len() == 1 {
        natural_pitch_class(s[0])
    } else if s.len() == 2 && s[1] == '#' {
        sharp_pitch_class(s[0])
    } else if s.len() == 2 && s[1] == 'b' {
        flat_pitch_class(s[0])
    } else {
        None
    }
}

/// The display spelling of each pitch class: flats for the black keys,
/// except F# for pitch class 6.
pub open spec fn canonical_name(pc: int) -> Seq<char> {
    let i = pc % 12;
    if i == 0 {
        "C"@
    } else if i == 1 {
        "Db"@
    } else if i == 2 {
        "D"@
    } else if i == 3 {
        "Eb"@
    } else if i == 4 {
        "E"@
    } else if i == 5 {
        "F"@
    } else if i == 6 {
        "F#"@
    } else if i == 7 {
        "G"@
    } else if i == 8 {
        "Ab"@
    } else if i == 9 {
        "A"@
    } else if i == 10 {
        "Bb"@
    } else {
        "B"@
    }
}

fn natural_of(c: char) -> (r: Option<u8>)
    ensures
        r == natural_pitch_class(c),
{
    match c {
        'C' => Some(0),
        'D' => Some(2),
        'E' => Some(4),
        'F' => Some(5),
        'G' => Some(7),
        'A' => Some(9),
        'B' => Some(11),
        _ => None,
    }
}

fn sharp_of(c: char) -> (r: Option<u8>)
    ensures
        r == sharp_pitch_class(c),
{
    match c {
        'C' => Some(1),
        'D' => Some(3),
        'F' => Some(6),
        'G' => Some(8),
        'A' => Some(10),
        _ => None,
    }
}

fn flat_of(c: char) -> (r: Option<u8>)
    ensures
        r == flat_pitch_class(c),
{
    match c {
        'D' => Some(1),
        'E' => Some(3),
        'G' => Some(6),
        'A' => Some(8),
        'B' => Some(10),
        _ => None,
    }
}

/// Looks a note spelling up: "C", "C#", "Db", ... "B".
pub fn note_to_pitch_class(name: &str) -> (r: Option<u8>)
    ensures
        r == note_pitch_class(name@),
        r matches Some(p) ==> p < 12,
{
    let n = name.unicode_len();
    if n == 1 {
        natural_of(name.get_char(0))
    } else if n == 2 {
        let accidental = name.get_char(1);
        if accidental == '#' {
            sharp_of(name.get_char(0))
        } else if accidental == 'b' {
            flat_of(name.get_char(0))
        } else {
            None
        }
    } else {
        None
    }
}

/// The display spelling of a pitch class, taken modulo 12.
pub fn idx_to_note_name(pc: u8) -> (r: &'static str)
    ensures
        r@ == canonical_name(pc as int),
{
    match pc % 12 {
        0 => "C",
        1 => "Db",
        2 => "D",
        3 => "Eb",
        4 => "E",
        5 => "F",
        6 => "F#",
        7 => "G",
        8 => "Ab",
        9 => "A",
        10 => "Bb",
        _ => "B",
    }
}

} // verus!
