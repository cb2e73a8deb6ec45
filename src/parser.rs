//! Chord symbols such as "Fm9", "C/Bb" or "G13" read into a root, a
//! quality and the chord's pitch classes.

use vstd::prelude::*;
use crate::pitch::{note_pitch_class, note_to_pitch_class};
use crate::quality::{quality_intervals, get_quality_intervals};
use crate::text::{first_index_of, find_char, lemma_first_index_of, lemma_first_index_of_shape, trim_text, trimmed};

verus! {

/// A chord symbol as read: its display name, its quality token, its root
/// pitch class and its pitch classes in offset order, the bass first when
/// it was added. `root` is `None` exactly when the symbol was empty or its
/// root spelling unknown; the pitch classes are then empty.
pub struct ParsedChord {
    pub display_name: String,
    pub quality: String,
    pub root: Option<u8>,
    pub pitch_classes: Vec<u8>,
}

/// The value a `ParsedChord` holds.
pub ghost struct ChordModel {
    pub display_name: Seq<char>,
    pub quality: Seq<char>,
    pub root: Option<u8>,
    pub pitch_classes: Seq<u8>,
}

impl View for ParsedChord {
    type V = ChordModel;

    open spec fn view(&self) -> ChordModel {
        ChordModel {
            display_name: self.display_name@,
            quality: self.quality@,
            root: self.root,
            pitch_classes: self.pitch_classes@,
        }
    }
}

/// Every pitch class lies in 0..12.
pub open spec fn pitch_classes_valid(v: Seq<u8>) -> bool {
    forall|j: int| 0 <= j < v.len() ==> v[j] < 12
}

impl ParsedChord {
    /// The root, when there is one, and every pitch class lie in 0..12.
    pub open spec fn wf(&self) -> bool {
        &&& self.root matches Some(r) ==> r < 12
        &&& pitch_classes_valid(self.pitch_classes@)
    }
}

/// The chord symbol: the text before the first '/'.
pub open spec fn symbol_part(s: Seq<char>) -> Seq<char> {
    s.take(first_index_of(s, '/') as int)
}

/// The bass spelling: the text between the first '/' and the next one (or
/// the end); empty when there is no '/'.
pub open spec fn bass_part(s: Seq<char>) -> Seq<char> {
    let i = first_index_of(s, '/') as int;
    if i < s.len() {
        let rest = s.skip(i + 1);
        rest.take(first_index_of(rest, '/') as int)
    } else {
        Seq::empty()
    }
}

/// Length of the root spelling at the front of a symbol: two characters
/// when the second is '#' or 'b', else one (none for an empty symbol).
pub open spec fn root_len(sym: Seq<char>) -> int {
    if sym.len() > 1 {
        if sym[1] == '#' || sym[1] == 'b' {
            2
        } else {
            1
        }
    } else {
        sym.len() as int
    }
}

pub open spec fn root_part(sym: Seq<char>) -> Seq<char> {
    sym.take(root_len(sym))
}

pub open spec fn quality_part(sym: Seq<char>) -> Seq<char> {
    sym.skip(root_len(sym))
}

/// The pitch classes of the offsets above `root`, reduced modulo 12, in
/// offset order and with any repeats kept.
pub open spec fn chord_tones(root: u8, offsets: Seq<u8>) -> Seq<u8> {
    offsets.map_values(|o: u8| ((root + o) % 12) as u8)
}

/// The tones with the bass put in front, when the bass spelling is given,
/// names a pitch class, and that pitch class is not yet among the tones.
pub open spec fn with_bass(tones: Seq<u8>, bass: Seq<char>) -> Seq<u8> {
    if bass.len() > 0 {
        match note_pitch_class(bass) {
            Some(b) => if tones.contains(b) {
                tones
            } else {
                seq![b] + tones
            },
            None => tones,
        }
    } else {
        tones
    }
}

/// "root/bass" when a bass spelling is given, whether or not it names a
/// note; the root spelling otherwise.
pub open spec fn display_of(root: Seq<char>, bass: Seq<char>) -> Seq<char> {
    if bass.len() > 0 {
        root + "/"@ + bass
    } else {
        root
    }
}

/// What a chord symbol, already trimmed, reads as.
pub open spec fn chord_of(s: Seq<char>) -> ChordModel {
    if s.len() == 0 {
        ChordModel { display_name: "?"@, quality: Seq::empty(), root: None, pitch_classes: Seq::empty() }
    } else {
        let sym = symbol_part(s);
        let bass = bass_part(s);
        let root = root_part(sym);
        match note_pitch_class(root) {
            None => ChordModel {
                display_name: "Err:"@ + root,
                quality: Seq::empty(),
                root: None,
                pitch_classes: Seq::empty(),
            },
            Some(r) => ChordModel {
                display_name: display_of(root, bass),
                quality: quality_part(sym),
                root: Some(r),
                pitch_classes: with_bass(chord_tones(r, quality_intervals(quality_part(sym))), bass),
            },
        }
    }
}

/// The text of a root spelling followed by a quality, read back: the
/// spelling is the root, the quality is what precedes any '/', and the bass
/// is read from the quality's text alone. A one-letter spelling followed by
/// '#' or 'b' would be read as a two-letter spelling instead.
pub proof fn lemma_root_then_quality(r: Seq<char>, q: Seq<char>)
    requires
        note_pitch_class(r) is Some,
        r.len() == 2 || q.len() == 0 || (q[0] != '#' && q[0] != 'b'),
    ensures
        root_part(symbol_part(r + q)) == r,
        quality_part(symbol_part(r + q)) == symbol_part(q),
        bass_part(r + q) == bass_part(q),
{
    let s = r + q;
    lemma_first_index_of_shape(q, '/');
    let f = first_index_of(q, '/') as int;
    assert forall|k: int| 0 <= k < r.len() + f implies s[k] != '/' by {
        if k >= r.len() {
            assert(s[k] == q[k - r.len()]);
        }
    }
    if f < q.len() {
        assert(s[r.len() + f] == q[f]);
    }
    lemma_first_index_of(s, '/', r.len() + f);
    let sym = symbol_part(s);
    assert(sym =~= r + q.take(f));
    assert(root_part(sym) =~= r);
    assert(quality_part(sym) =~= q.take(f));
    if f < q.len() {
        assert(s.skip(r.len() + f + 1) =~= q.skip(f + 1));
    }
}

/// Two spellings of one pitch class, followed by the same quality, give
/// the same root and the same pitch classes: only the display differs.
pub proof fn lemma_enharmonic_roots(r1: Seq<char>, r2: Seq<char>, q: Seq<char>)
    requires
        note_pitch_class(r1) is Some,
        note_pitch_class(r1) == note_pitch_class(r2),
        r1.len() == 2 || q.len() == 0 || (q[0] != '#' && q[0] != 'b'),
        r2.len() == 2 || q.len() == 0 || (q[0] != '#' && q[0] != 'b'),
    ensures
        chord_of(r1 + q).root == chord_of(r2 + q).root,
        chord_of(r1 + q).pitch_classes == chord_of(r2 + q).pitch_classes,
{
    lemma_root_then_quality(r1, q);
    lemma_root_then_quality(r2, q);
}

/// Whether `v` holds `x`.
pub fn contains_pitch(v: &Vec<u8>, x: u8) -> (r: bool)
    ensures
        r == v@.contains(x),
{
    let mut i: usize = 0;
    while i < v.len()
        invariant
            i <= v@.len(),
            forall|k: int| 0 <= k < i ==> v@[k] != x,
        decreases v@.len() - i,
    {
        if v[i] == x {
            return true;
        }
        i += 1;
    }
    false
}

/// The pitch classes of the offsets above `root`, reduced modulo 12.
fn tones_over(root: u8, offsets: &Vec<u8>) -> (r: Vec<u8>)
    requires
        root < 12,
        forall|j: int| 0 <= j < offsets@.len() ==> offsets@[j] < 24,
    ensures
        r@ == chord_tones(root, offsets@),
        pitch_classes_valid(r@),
{
    let mut r: Vec<u8> = Vec::new();
    let mut i: usize = 0;
    while i < offsets.len()
        invariant
            root < 12,
            forall|j: int| 0 <= j < offsets@.len() ==> offsets@[j] < 24,
            i <= offsets@.len(),
            r@ =~= chord_tones(root, offsets@.take(i as int)),
            pitch_classes_valid(r@),
        decreases offsets@.len() - i,
    {
        r.push((root + offsets[i]) % 12);
        i += 1;
        assert(offsets@.take(i as int) =~= offsets@.take(i - 1).push(offsets@[i - 1]));
    }
    assert(offsets@.take(i as int) =~= offsets@);
    r
}

/// Reads a chord symbol that carries no surrounding whitespace.
pub fn parse_trimmed(s: &str) -> (r: ParsedChord)
    ensures
        r@ == chord_of(s@),
        r.wf(),
{
    let n = s.unicode_len();
    if n == 0 {
        return ParsedChord {
            display_name: String::from_str("?"),
            quality: String::new(),
            root: None,
            pitch_classes: Vec::new(),
        };
    }
    let slash = find_char(s, '/');
    let symbol = s.substring_char(0, slash);
    let bass: &str = if slash < n {
        let rest = s.substring_char(slash + 1, n);
        let end = find_char(rest, '/');
        rest.substring_char(0, end)
    } else {
        ""
    };
    proof {
        reveal_strlit("");
        assert(symbol@ =~= symbol_part(s@));
        if slash < n {
            assert(s@.subrange(slash + 1, n as int) =~= s@.skip(slash + 1));
        }
        assert(bass@ =~= bass_part(s@));
    }
    let sym_len = symbol.unicode_len();
    let cut: usize = if sym_len > 1 {
        let second = symbol.get_char(1);
        if second == '#' || second == 'b' {
            2
        } else {
            1
        }
    } else {
        sym_len
    };
    let root_str = symbol.substring_char(0, cut);
    let quality_str = symbol.substring_char(cut, sym_len);
    assert(root_str@ =~= root_part(symbol@));
    assert(quality_str@ =~= quality_part(symbol@));
    let root = match note_to_pitch_class(root_str) {
        Some(p) => p,
        None => {
            let mut shown = String::from_str("Err:");
            shown.append(root_str);
            return ParsedChord {
                display_name: shown,
                quality: String::new(),
                root: None,
                pitch_classes: Vec::new(),
            };
        },
    };
    let intervals = get_quality_intervals(quality_str);
    let mut notes = tones_over(root, &intervals);
    let ghost tones = notes@;
    let has_bass = bass.unicode_len() > 0;
    if has_bass {
        if let Some(b) = note_to_pitch_class(bass) {
            if !contains_pitch(&notes, b) {
                notes.insert(0, b);
                assert(notes@ =~= seq![b] + tones);
            }
        }
    }
    let mut shown = String::from_str(root_str);
    if has_bass {
        shown.append("/");
        shown.append(bass);
    }
    ParsedChord {
        display_name: shown,
        quality: String::from_str(quality_str),
        root: Some(root),
        pitch_classes: notes,
    }
}

/// Reads a chord symbol: surrounding whitespace is dropped, then the text
/// is read as `parse_trimmed` does.
pub fn parse_chord(input: &str) -> (r: ParsedChord)
    ensures
        r@ == chord_of(trimmed(input@)),
        r.wf(),
{
    parse_trimmed(trim_text(input))
}

} // verus!
