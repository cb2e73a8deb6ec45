//! One chord analysed against a tonal centre and a set of reference
//! pitches, such as the open strings of an instrument.

use vstd::prelude::*;
use crate::depth::{
    calculate_tonal_depth, candidate_is, in_major_scale, in_scale, key_depth, key_root,
    nearest_keys_at, transposed, KeyCandidate, TonalDepth,
};
use crate::interval::{degree_label, get_interval_label};
use crate::parser::{contains_pitch, pitch_classes_valid, ParsedChord};
use crate::pitch::{canonical_name, idx_to_note_name};

verus! {

/// What one reference pitch is to a chord: its degree above the chord's
/// root, whether the chord holds it, and whether the scale of the chord's
/// nearest key does.
#[derive(Clone, Copy, Debug, PartialEq, Eq)]
pub struct StringLabel {
    pub label: &'static str,
    pub in_chord: bool,
    pub in_scale: bool,
}

/// A chord's nearest keys, named absolutely, and a label per reference
/// pitch.
pub struct ChordAnalysis {
    pub depth: TonalDepth,
    pub strings: Vec<StringLabel>,
}

/// The chord's pitch classes taken relative to the tonal centre `key`.
pub open spec fn relative_to(pcs: Seq<u8>, key: int) -> Seq<u8> {
    transposed(pcs, -key)
}

/// The root the degree labels are taken from: the chord's root, or C when
/// the chord has none.
pub open spec fn label_root(root: Option<u8>) -> int {
    match root {
        Some(r) => r as int,
        None => 0,
    }
}

/// The root of the scale the reference pitches are tested against: the
/// first nearest key moved back up by `key`, or C when there is none.
pub open spec fn scale_root(keys: Seq<int>, key: int) -> int {
    if keys.len() > 0 {
        (key_root(keys[0]) + key) % 12
    } else {
        0
    }
}

/// `c` is the candidate at table position `i`, its root moved up by `key`
/// and named by the display spelling of that root.
pub open spec fn absolute_candidate_is(c: KeyCandidate, i: int, key: int) -> bool {
    &&& c.depth == key_depth(i)
    &&& c.root == (key_root(i) + key) % 12
    &&& c.name@ == canonical_name(c.root as int)
}

fn relative_notes(pcs: &Vec<u8>, key: u8) -> (r: Vec<u8>)
    requires
        key < 12,
        pitch_classes_valid(pcs@),
    ensures
        r@ == relative_to(pcs@, key as int),
        pitch_classes_valid(r@),
{
    let mut r: Vec<u8> = Vec::new();
    let mut i: usize = 0;
    while i < pcs.len()
        invariant
            key < 12,
            pitch_classes_valid(pcs@),
            i <= pcs@.len(),
            r@.len() == i,
            forall|j: int| 0 <= j < i ==> r@[j] == relative_to(pcs@, key as int)[j],
            pitch_classes_valid(r@),
        decreases pcs@.len() - i,
    {
        let n = pcs[i];
        let v = (n + 12 - key) % 12;
        assert(v as int == ((n - key) % 12));
        r.push(v);
        i += 1;
    }
    assert(r@ =~= relative_to(pcs@, key as int));
    r
}

/// Analyses `chord` against the tonal centre `key` and the reference
/// pitches `tuning`. The key search runs on the chord's pitch classes
/// relative to `key`; each candidate found keeps its depth and has its root
/// moved back up by `key`. Each reference pitch gets its degree above the
/// chord's root (C when the chord has none), whether the chord holds it,
/// and whether it lies in the major scale of the first candidate (C when
/// there is none).
pub fn analyze_chord(chord: &ParsedChord, tuning: &[u8], key: u8) -> (r: ChordAnalysis)
    requires
        chord.wf(),
        pitch_classes_valid(tuning@),
        key < 12,
    ensures
        ({
            let m = nearest_keys_at(relative_to(chord.pitch_classes@, key as int), 0);
            &&& r.depth.candidates@.len() == m.keys.len()
            &&& forall|j: int| 0 <= j < m.keys.len()
                ==> absolute_candidate_is(#[trigger] r.depth.candidates@[j], m.keys[j], key as int)
            &&& r.depth.score == m.score
            &&& r.depth.is_perfect == m.perfect
            &&& r.strings@.len() == tuning@.len()
            &&& forall|j: int| 0 <= j < tuning@.len() ==> {
                let t = tuning@[j] as int;
                let s = #[trigger] r.strings@[j];
                &&& s.label@ == degree_label((t - label_root(chord.root)) % 12)
                &&& s.in_chord == chord.pitch_classes@.contains(t as u8)
                &&& s.in_scale == in_major_scale(scale_root(m.keys, key as int), t)
            }
        }),
{
    let ghost m = nearest_keys_at(relative_to(chord.pitch_classes@, key as int), 0);
    let relative = relative_notes(&chord.pitch_classes, key);
    let found = calculate_tonal_depth(relative.as_slice());
    let mut keys: Vec<KeyCandidate> = Vec::new();
    let mut i: usize = 0;
    while i < found.candidates.len()
        invariant
            key < 12,
            found.describes(m),
            i <= found.candidates@.len(),
            keys@.len() == i,
            forall|j: int| 0 <= j < i ==> absolute_candidate_is(#[trigger] keys@[j], m.keys[j], key as int),
        decreases found.candidates@.len() - i,
    {
        let c = found.candidates[i];
        assert(candidate_is(c, m.keys[i as int]));
        let root = (c.root + key) % 12;
        keys.push(KeyCandidate { depth: c.depth, root, name: idx_to_note_name(root) });
        i += 1;
    }
    let label_from: u8 = match chord.root {
        Some(r) => r,
        None => 0,
    };
    let scale_from: u8 = if keys.len() > 0 {
        keys[0].root
    } else {
        0
    };
    let mut strings: Vec<StringLabel> = Vec::new();
    let mut j: usize = 0;
    while j < tuning.len()
        invariant
            key < 12,
            pitch_classes_valid(tuning@),
            label_from as int == label_root(chord.root),
            scale_from as int == scale_root(m.keys, key as int),
            scale_from < 12,
            j <= tuning@.len(),
            strings@.len() == j,
            forall|k: int| 0 <= k < j ==> {
                let t = tuning@[k] as int;
                let s = #[trigger] strings@[k];
                &&& s.label@ == degree_label((t - label_root(chord.root)) % 12)
                &&& s.in_chord == chord.pitch_classes@.contains(t as u8)
                &&& s.in_scale == in_major_scale(scale_root(m.keys, key as int), t)
            },
        decreases tuning@.len() - j,
    {
        let t = tuning[j];
        strings.push(StringLabel {
            label: get_interval_label(label_from, t),
            in_chord: contains_pitch(&chord.pitch_classes, t),
            in_scale: in_scale(scale_from, t),
        });
        j += 1;
    }
    ChordAnalysis {
        depth: TonalDepth { candidates: keys, score: found.score, is_perfect: found.is_perfect },
        strings,
    }
}

} // verus!
