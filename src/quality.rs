//! The chord-quality vocabulary: quality tokens and their semitone offsets
//! from the root.

use vstd::prelude::*;
use crate::text::same_text;

verus! {

/// Offsets of the fallback sonority for an unknown token: root and fifth.
pub open spec fn power_chord() -> Seq<u8> {
    seq![0u8, 7]
}

/// The semitone offsets, from a root of 0, of the sonority that a quality
/// token names. Aliases of one sonority map to the same offsets; any other
/// token falls back to root and fifth. Extended chords keep offsets above
/// the octave (14, 17, 21) so that ninths, elevenths and thirteenths stay
/// distinguishable before reduction modulo 12.
pub open spec fn quality_intervals(q: Seq<char>) -> Seq<u8> {
    if q == ""@ || q == "M"@ || q == "maj"@ {
        seq![0u8, 4, 7]
    } else if q == "m"@ || q == "min"@ || q == "-"@ {
        seq![0u8, 3, 7]
    } else if q == "dim"@ || q == "o"@ {
        seq![0u8, 3, 6]
    } else if q == "aug"@ || q == "+"@ {
        seq![0u8, 4, 8]
    } else if q == "sus4"@ || q == "sus"@ {
        seq![0u8, 5, 7]
    } else if q == "sus2"@ {
        seq![0u8, 2, 7]
    } else if q == "7"@ || q == "dom7"@ {
        seq![0u8, 4, 7, 10]
    } else if q == "M7"@ || q == "maj7"@ || q == "Maj7"@ || q == "jq"@ {
        seq![0u8, 4, 7, 11]
    } else if q == "m7"@ || q == "min7"@ || q == "-7"@ {
        seq![0u8, 3, 7, 10]
    } else if q == "mM7"@ || q == "mMaj7"@ {
        seq![0u8, 3, 7, 11]
    } else if q == "dim7"@ || q == "o7"@ {
        seq![0u8, 3, 6, 9]
    } else if q == "m7-5"@ || q == "m7b5"@ || q == "half-dim"@ || q == "ø"@ {
        seq![0u8, 3, 6, 10]
    } else if q == "7sus4"@ {
        seq![0u8, 5, 7, 10]
    } else if q == "6"@ {
        seq![0u8, 4, 7, 9]
    } else if q == "m6"@ {
        seq![0u8, 3, 7, 9]
    } else if q == "9"@ {
        seq![0u8, 4, 7, 10, 14]
    } else if q == "add9"@ {
        seq![0u8, 4, 7, 14]
    } else if q == "M9"@ || q == "maj9"@ {
        seq![0u8, 4, 7, 11, 14]
    } else if q == "m9"@ || q == "min9"@ {
        seq![0u8, 3, 7, 10, 14]
    } else if q == "11"@ {
        seq![0u8, 4, 7, 10, 14, 17]
    } else if q == "m11"@ {
        seq![0u8, 3, 7, 10, 14, 17]
    } else if q == "13"@ {
        seq![0u8, 4, 7, 10, 14, 21]
    } else if q == "M13"@ {
        seq![0u8, 4, 7, 11, 14, 21]
    } else if q == "7#9"@ {
        seq![0u8, 4, 7, 10, 15]
    } else if q == "7b9"@ {
        seq![0u8, 4, 7, 10, 13]
    } else if q == "7#5"@ || q == "aug7"@ {
        seq![0u8, 4, 8, 10]
    } else {
        power_chord()
    }
}

/// Every offset of the vocabulary lies below two octaves.
pub open spec fn offsets_bounded(v: Seq<u8>) -> bool {
    forall|j: int| 0 <= j < v.len() ==> v[j] < 24
}

/// The half-diminished seventh has four spellings, all naming the same
/// offsets: "m7b5", "m7-5", "half-dim" and "ø".
pub proof fn lemma_half_diminished_aliases()
    ensures
        quality_intervals("m7b5"@) == quality_intervals("m7-5"@),
        quality_intervals("m7-5"@) == quality_intervals("half-dim"@),
        quality_intervals("half-dim"@) == quality_intervals("ø"@),
        quality_intervals("ø"@) == seq![0u8, 3, 6, 10],
{
    reveal_strlit("");
    reveal_strlit("M");
    reveal_strlit("maj");
    reveal_strlit("m");
    reveal_strlit("min");
    reveal_strlit("-");
    reveal_strlit("dim");
    reveal_strlit("o");
    reveal_strlit("aug");
    reveal_strlit("+");
    reveal_strlit("sus4");
    reveal_strlit("sus");
    reveal_strlit("sus2");
    reveal_strlit("7");
    reveal_strlit("dom7");
    reveal_strlit("M7");
    reveal_strlit("maj7");
    reveal_strlit("Maj7");
    reveal_strlit("jq");
    reveal_strlit("m7");
    reveal_strlit("min7");
    reveal_strlit("-7");
    reveal_strlit("mM7");
    reveal_strlit("mMaj7");
    reveal_strlit("dim7");
    reveal_strlit("o7");
    reveal_strlit("m7-5");
    reveal_strlit("m7b5");
    reveal_strlit("half-dim");
    reveal_strlit("ø");
    assert(""@.len() == 0);
    assert("M"@.len() == 1);
    assert("maj"@.len() == 3);
    assert("m"@.len() == 1);
    assert("min"@.len() == 3);
    assert("-"@.len() == 1);
    assert("dim"@.len() == 3);
    assert("o"@.len() == 1);
    assert("aug"@.len() == 3);
    assert("+"@.len() == 1);
    assert("sus4"@.len() == 4);
    assert("sus"@.len() == 3);
    assert("sus2"@.len() == 4);
    assert("7"@.len() == 1);
    assert("dom7"@.len() == 4);
    assert("M7"@.len() == 2);
    assert("maj7"@.len() == 4);
    assert("Maj7"@.len() == 4);
    assert("jq"@.len() == 2);
    assert("m7"@.len() == 2);
    assert("min7"@.len() == 4);
    assert("-7"@.len() == 2);
    assert("mM7"@.len() == 3);
    assert("mMaj7"@.len() == 5);
    assert("dim7"@.len() == 4);
    assert("o7"@.len() == 2);
    assert("m7-5"@.len() == 4);
    assert("m7b5"@.len() == 4);
    assert("half-dim"@.len() == 8);
    assert("m7b5"@[0] != "sus4"@[0]);
    assert("m7-5"@[0] != "sus4"@[0]);
    assert("m7b5"@[0] != "sus2"@[0]);
    assert("m7-5"@[0] != "sus2"@[0]);
    assert("m7b5"@[0] != "dom7"@[0]);
    assert("m7-5"@[0] != "dom7"@[0]);
    assert("m7b5"@[1] != "maj7"@[1]);
    assert("m7-5"@[1] != "maj7"@[1]);
    assert("m7b5"@[0] != "Maj7"@[0]);
    assert("m7-5"@[0] != "Maj7"@[0]);
    assert("m7b5"@[1] != "min7"@[1]);
    assert("m7-5"@[1] != "min7"@[1]);
    assert("m7b5"@[0] != "dim7"@[0]);
    assert("m7-5"@[0] != "dim7"@[0]);
    assert("m7b5"@[2] != "m7-5"@[2]);
    assert("ø"@.len() == 1);
    assert("ø"@[0] != "M"@[0]);
    assert("ø"@[0] != "m"@[0]);
    assert("ø"@[0] != "-"@[0]);
    assert("ø"@[0] != "o"@[0]);
    assert("ø"@[0] != "+"@[0]);
    assert("ø"@[0] != "7"@[0]);
}

/// The semitone offsets of the sonority that `quality` names.
pub fn get_quality_intervals(quality: &str) -> (r: Vec<u8>)
    ensures
        r@ == quality_intervals(quality@),
        offsets_bounded(r@),
{
    let q = quality;
    let r: Vec<u8> = if same_text(q, "") || same_text(q, "M") || same_text(q, "maj") {
        vec![0, 4, 7]
    } else if same_text(q, "m") || same_text(q, "min") || same_text(q, "-") {
        vec![0, 3, 7]
    } else if same_text(q, "dim") || same_text(q, "o") {
        vec![0, 3, 6]
    } else if same_text(q, "aug") || same_text(q, "+") {
        vec![0, 4, 8]
    } else if same_text(q, "sus4") || same_text(q, "sus") {
        vec![0, 5, 7]
    } else if same_text(q, "sus2") {
        vec![0, 2, 7]
    } else if same_text(q, "7") || same_text(q, "dom7") {
        vec![0, 4, 7, 10]
    } else if same_text(q, "M7") || same_text(q, "maj7") || same_text(q, "Maj7") || same_text(q, "jq") {
        vec![0, 4, 7, 11]
    } else if same_text(q, "m7") || same_text(q, "min7") || same_text(q, "-7") {
        vec![0, 3, 7, 10]
    } else if same_text(q, "mM7") || same_text(q, "mMaj7") {
        vec![0, 3, 7, 11]
    } else if same_text(q, "dim7") || same_text(q, "o7") {
        vec![0, 3, 6, 9]
    } else if same_text(q, "m7-5") || same_text(q, "m7b5") || same_text(q, "half-dim") || same_text(q, "ø") {
        vec![0, 3, 6, 10]
    } else if same_text(q, "7sus4") {
        vec![0, 5, 7, 10]
    } else if same_text(q, "6") {
        vec![0, 4, 7, 9]
    } else if same_text(q, "m6") {
        vec![0, 3, 7, 9]
    } else if same_text(q, "9") {
        vec![0, 4, 7, 10, 14]
    } else if same_text(q, "add9") {
        vec![0, 4, 7, 14]
    } else if same_text(q, "M9") || same_text(q, "maj9") {
        vec![0, 4, 7, 11, 14]
    } else if same_text(q, "m9") || same_text(q, "min9") {
        vec![0, 3, 7, 10, 14]
    } else if same_text(q, "11") {
        vec![0, 4, 7, 10, 14, 17]
    } else if same_text(q, "m11") {
        vec![0, 3, 7, 10, 14, 17]
    } else if same_text(q, "13") {
        vec![0, 4, 7, 10, 14, 21]
    } else if same_text(q, "M13") {
        vec![0, 4, 7, 11, 14, 21]
    } else if same_text(q, "7#9") {
        vec![0, 4, 7, 10, 15]
    } else if same_text(q, "7b9") {
        vec![0, 4, 7, 10, 13]
    } else if same_text(q, "7#5") || same_text(q, "aug7") {
        vec![0, 4, 8, 10]
    } else {
        vec![0, 7]
    };
    assert(r@ =~= quality_intervals(q@));
    r
}

} // verus!
