//! The circle-of-fifths key search: which major keys, nearest to the
//! reference centre first, hold most of a chord's pitch classes.

use vstd::prelude::*;
use vstd::math::abs;
use crate::parser::pitch_classes_valid;

verus! {

/// Number of candidate keys: depths -6 through +6.
pub const KEY_COUNT: usize = 13;

/// Whether `d` semitones above a major key's root is a step of its scale.
pub open spec fn is_major_step(d: int) -> bool {
    d == 0 || d == 2 || d == 4 || d == 5 || d == 7 || d == 9 || d == 11
}

/// Whether pitch class `pc` lies in the major scale on `root`.
pub open spec fn in_major_scale(root: int, pc: int) -> bool {
    is_major_step((pc - root) % 12)
}

/// Depth of the `i`th candidate in visiting order 0, +1, -1, +2, -2, ...,
/// +6, -6.
pub open spec fn key_depth(i: int) -> int {
    if i % 2 == 1 {
        (i + 1) / 2
    } else {
        -(i / 2)
    }
}

/// Root pitch class of the `i`th candidate: its depth in fifths above C.
pub open spec fn key_root(i: int) -> int {
    (7 * key_depth(i)) % 12
}

/// Name of the `i`th candidate; depth +6 is F# and depth -6 is Gb.
pub open spec fn key_name(i: int) -> Seq<char> {
    if i == 0 {
        "C"@
    } else if i == 1 {
        "G"@
    } else if i == 2 {
        "F"@
    } else if i == 3 {
        "D"@
    } else if i == 4 {
        "Bb"@
    } else if i == 5 {
        "A"@
    } else if i == 6 {
        "Eb"@
    } else if i == 7 {
        "E"@
    } else if i == 8 {
        "Ab"@
    } else if i == 9 {
        "B"@
    } else if i == 10 {
        "Db"@
    } else if i == 11 {
        "F#"@
    } else {
        "Gb"@
    }
}

/// Number of pitch classes below `n` that occur in `pcs`.
pub open spec fn members_below(pcs: Seq<u8>, n: int) -> nat
    decreases n,
{
    if n <= 0 {
        0
    } else {
        members_below(pcs, n - 1) + if pcs.contains((n - 1) as u8) {
            1nat
        } else {
            0nat
        }
    }
}

/// Number of pitch classes below `n` that occur in `pcs` and lie in the
/// major scale on `root`.
pub open spec fn scale_members_below(pcs: Seq<u8>, root: int, n: int) -> nat
    decreases n,
{
    if n <= 0 {
        0
    } else {
        scale_members_below(pcs, root, n - 1) + if pcs.contains((n - 1) as u8)
            && in_major_scale(root, n - 1) {
            1nat
        } else {
            0nat
        }
    }
}

/// Number of distinct pitch classes in `pcs`.
pub open spec fn distinct_count(pcs: Seq<u8>) -> nat {
    members_below(pcs, 12)
}

/// Number of distinct pitch classes of `pcs` in the major scale on `root`.
pub open spec fn key_score(pcs: Seq<u8>, root: int) -> nat {
    scale_members_below(pcs, root, 12)
}

/// The score of each candidate, its root moved `center` semitones up.
pub open spec fn scores_at(pcs: Seq<u8>, center: int) -> Seq<nat> {
    Seq::new(13, |i: int| key_score(pcs, (key_root(i) + center) % 12))
}

/// Highest of the first `k` scores, and 0 when there are none.
pub open spec fn best_upto(sc: Seq<nat>, k: int) -> nat
    decreases k,
{
    if k <= 0 {
        0
    } else {
        let b = best_upto(sc, k - 1);
        if sc[k - 1] > b {
            sc[k - 1]
        } else {
            b
        }
    }
}

/// Positions, in order, among the first `k` scores, of those equal to `m`.
pub open spec fn ties_upto(sc: Seq<nat>, k: int, m: nat) -> Seq<int>
    decreases k,
{
    if k <= 0 {
        Seq::empty()
    } else {
        let t = ties_upto(sc, k - 1, m);
        if sc[k - 1] == m {
            t.push(k - 1)
        } else {
            t
        }
    }
}

/// The result of a search: candidate positions in visiting order, the best
/// score and whether it covers every distinct pitch class.
pub ghost struct DepthModel {
    pub keys: Seq<int>,
    pub score: nat,
    pub perfect: bool,
}

/// The search over given scores, for a chord of `total` distinct pitch
/// classes. No pitch classes give no candidates, score 0 and no perfect
/// match. Otherwise every candidate with the best score is kept, in
/// visiting order; when that score covers the whole chord only the first,
/// which is the nearest to the centre, is kept.
pub open spec fn search_outcome(sc: Seq<nat>, total: nat) -> DepthModel {
    if total == 0 {
        DepthModel { keys: Seq::empty(), score: 0, perfect: false }
    } else {
        let m = best_upto(sc, 13);
        let t = ties_upto(sc, 13, m);
        if m == total {
            DepthModel { keys: t.take(1), score: m, perfect: true }
        } else {
            DepthModel { keys: t, score: m, perfect: false }
        }
    }
}

/// The search for `pcs` with its candidates moved `center` semitones up.
pub open spec fn nearest_keys_at(pcs: Seq<u8>, center: int) -> DepthModel {
    search_outcome(scores_at(pcs, center), distinct_count(pcs))
}

/// A candidate of the search: its depth, its root pitch class and its name.
#[derive(Clone, Copy, Debug, PartialEq, Eq)]
pub struct KeyCandidate {
    pub depth: i32,
    pub root: u8,
    pub name: &'static str,
}

/// `c` is the `i`th entry of the candidate table.
pub open spec fn candidate_is(c: KeyCandidate, i: int) -> bool {
    &&& c.depth == key_depth(i)
    &&& c.root == key_root(i)
    &&& c.name@ == key_name(i)
}

/// The outcome of a key search.
pub struct TonalDepth {
    pub candidates: Vec<KeyCandidate>,
    pub score: usize,
    pub is_perfect: bool,
}

impl TonalDepth {
    /// The candidates are the table entries that `m` lists, and the score
    /// and perfect flag are those of `m`.
    pub open spec fn describes(&self, m: DepthModel) -> bool {
        &&& self.candidates@.len() == m.keys.len()
        &&& forall|j: int| 0 <= j < m.keys.len() ==> candidate_is(self.candidates@[j], m.keys[j])
        &&& self.score == m.score
        &&& self.is_perfect == m.perfect
    }
}

/// The `i`th entry of the candidate table.
pub fn key_entry(i: usize) -> (r: KeyCandidate)
    requires
        i < KEY_COUNT,
    ensures
        candidate_is(r, i as int),
{
    match i {
        0 => KeyCandidate { depth: 0, root: 0, name: "C" },
        1 => KeyCandidate { depth: 1, root: 7, name: "G" },
        2 => KeyCandidate { depth: -1, root: 5, name: "F" },
        3 => KeyCandidate { depth: 2, root: 2, name: "D" },
        4 => KeyCandidate { depth: -2, root: 10, name: "Bb" },
        5 => KeyCandidate { depth: 3, root: 9, name: "A" },
        6 => KeyCandidate { depth: -3, root: 3, name: "Eb" },
        7 => KeyCandidate { depth: 4, root: 4, name: "E" },
        8 => KeyCandidate { depth: -4, root: 8, name: "Ab" },
        9 => KeyCandidate { depth: 5, root: 11, name: "B" },
        10 => KeyCandidate { depth: -5, root: 1, name: "Db" },
        11 => KeyCandidate { depth: 6, root: 6, name: "F#" },
        _ => KeyCandidate { depth: -6, root: 6, name: "Gb" },
    }
}

/// Whether `pc` lies in the major scale on `root`.
pub fn in_scale(root: u8, pc: u8) -> (r: bool)
    requires
        root < 12,
        pc < 12,
    ensures
        r == in_major_scale(root as int, pc as int),
{
    let d = (pc + 12 - root) % 12;
    assert(d as int == (pc - root) % 12);
    d == 0 || d == 2 || d == 4 || d == 5 || d == 7 || d == 9 || d == 11
}

/// Past its best score, nothing ties: no position among the first `k`
/// has a score above their best.
pub proof fn lemma_no_ties_above_best(sc: Seq<nat>, k: int, m: nat)
    requires
        0 <= k <= sc.len(),
        m > best_upto(sc, k),
    ensures
        ties_upto(sc, k, m) == Seq::<int>::empty(),
    decreases k,
{
    if k > 0 {
        lemma_no_ties_above_best(sc, k - 1, m);
    }
}

/// The tied positions are increasing and lie below `k`.
pub proof fn lemma_ties_increasing(sc: Seq<nat>, k: int, m: nat)
    requires
        0 <= k <= sc.len(),
    ensures
        forall|j: int| 0 <= j < ties_upto(sc, k, m).len() ==> 0 <= #[trigger] ties_upto(sc, k, m)[j] < k,
        forall|a: int, b: int|
            0 <= a < b < ties_upto(sc, k, m).len() ==> ties_upto(sc, k, m)[a] < ties_upto(sc, k, m)[b],
    decreases k,
{
    if k > 0 {
        lemma_ties_increasing(sc, k - 1, m);
        let t = ties_upto(sc, k - 1, m);
        if sc[k - 1] == m {
            let u = t.push(k - 1);
            assert(ties_upto(sc, k, m) == u);
            assert forall|j: int| 0 <= j < u.len() implies 0 <= #[trigger] u[j] < k by {
                if j < t.len() {
                    assert(u[j] == t[j]);
                }
            }
            assert forall|a: int, b: int| 0 <= a < b < u.len() implies u[a] < u[b] by {
                assert(u[a] == t[a]);
                if b < t.len() {
                    assert(u[b] == t[b]);
                }
            }
        }
    }
}

/// Some position attains the best of the first `k` scores.
pub proof fn lemma_best_attained(sc: Seq<nat>, k: int)
    requires
        0 < k <= sc.len(),
    ensures
        ties_upto(sc, k, best_upto(sc, k)).len() > 0,
    decreases k,
{
    if sc[k - 1] < best_upto(sc, k - 1) {
        lemma_best_attained(sc, k - 1);
    }
}

/// Depths grow in absolute value along the visiting order.
pub proof fn lemma_depth_order(a: int, b: int)
    requires
        0 <= a <= b,
    ensures
        abs(key_depth(a)) <= abs(key_depth(b)),
{
}

/// Every pitch class of `pcs` moved `k` semitones up, modulo 12.
pub open spec fn transposed(pcs: Seq<u8>, k: int) -> Seq<u8> {
    pcs.map_values(|p: u8| ((p + k) % 12) as u8)
}

/// Number of positions below `n` at which `f` holds.
pub open spec fn count_where(f: spec_fn(int) -> bool, n: int) -> nat
    decreases n,
{
    if n <= 0 {
        0
    } else {
        count_where(f, n - 1) + if f(n - 1) {
            1nat
        } else {
            0nat
        }
    }
}

proof fn lemma_count_members(pcs: Seq<u8>, f: spec_fn(int) -> bool, n: int)
    requires
        forall|q: int| 0 <= q < 12 ==> #[trigger] f(q) == pcs.contains(q as u8),
        n <= 12,
    ensures
        count_where(f, n) == members_below(pcs, n),
    decreases n,
{
    if n > 0 {
        lemma_count_members(pcs, f, n - 1);
    }
}

proof fn lemma_count_scale_members(pcs: Seq<u8>, root: int, f: spec_fn(int) -> bool, n: int)
    requires
        forall|q: int| 0 <= q < 12 ==> #[trigger] f(q) == (pcs.contains(q as u8) && in_major_scale(root, q)),
        n <= 12,
    ensures
        count_where(f, n) == scale_members_below(pcs, root, n),
    decreases n,
{
    if n > 0 {
        lemma_count_scale_members(pcs, root, f, n - 1);
    }
}

proof fn lemma_count_shifted(f: spec_fn(int) -> bool, g: spec_fn(int) -> bool, n: int)
    requires
        1 <= n,
        forall|q: int| 1 <= q < n ==> #[trigger] g(q) == f(q - 1),
    ensures
        count_where(g, n) == count_where(f, n - 1) + if g(0) {
            1nat
        } else {
            0nat
        },
    decreases n,
{
    reveal_with_fuel(count_where, 2);
    if n > 1 {
        lemma_count_shifted(f, g, n - 1);
        assert(g(n - 1) == f(n - 2));
    }
}

/// A count over the twelve pitch classes does not change when they are
/// turned `k` steps round the circle.
proof fn lemma_count_rotated(f: spec_fn(int) -> bool, g: spec_fn(int) -> bool, k: int)
    requires
        0 <= k < 12,
        forall|q: int| 0 <= q < 12 ==> #[trigger] g(q) == f((q - k) % 12),
    ensures
        count_where(g, 12) == count_where(f, 12),
    decreases k,
{
    if k == 0 {
        assert forall|q: int| 0 <= q < 12 implies #[trigger] g(q) == f(q) by {
            assert((q - 0) % 12 == q);
        }
        lemma_count_rotated_zero(f, g, 12);
    } else {
        let h = |q: int| f((q - (k - 1)) % 12);
        lemma_count_rotated(f, h, k - 1);
        assert forall|q: int| 1 <= q < 12 implies #[trigger] g(q) == h(q - 1) by {
            assert((q - k) % 12 == (q - 1 - (k - 1)) % 12);
        }
        lemma_count_shifted(h, g, 12);
        assert(g(0) == h(11)) by {
            assert((0 - k) % 12 == (11 - (k - 1)) % 12);
        }
        assert(count_where(h, 12) == count_where(h, 11) + if h(11) {
            1nat
        } else {
            0nat
        });
    }
}

proof fn lemma_count_rotated_zero(f: spec_fn(int) -> bool, g: spec_fn(int) -> bool, n: int)
    requires
        n <= 12,
        forall|q: int| 0 <= q < 12 ==> #[trigger] g(q) == f(q),
    ensures
        count_where(g, n) == count_where(f, n),
    decreases n,
{
    if n > 0 {
        lemma_count_rotated_zero(f, g, n - 1);
    }
}

/// A transposed chord holds `q` exactly when the chord holds the pitch
/// class `k` below it.
proof fn lemma_transposed_contains(pcs: Seq<u8>, k: int, q: int)
    requires
        pitch_classes_valid(pcs),
        0 <= k < 12,
        0 <= q < 12,
    ensures
        transposed(pcs, k).contains(q as u8) == pcs.contains(((q - k) % 12) as u8),
{
    let t = transposed(pcs, k);
    if t.contains(q as u8) {
        let w = choose|w: int| 0 <= w < t.len() && t[w] == q as u8;
        assert(pcs[w] == ((q - k) % 12) as u8);
    }
    if pcs.contains(((q - k) % 12) as u8) {
        let w = choose|w: int| 0 <= w < pcs.len() && pcs[w] == ((q - k) % 12) as u8;
        assert(t[w] == q as u8);
    }
}

/// Moving a root and a pitch class by the same amount keeps the interval
/// between them.
proof fn lemma_scale_transposed(r: int, k: int, q: int)
    requires
        0 <= r < 12,
        0 <= k < 12,
        0 <= q < 12,
    ensures
        in_major_scale((r + k) % 12, q) == in_major_scale(r, (q - k) % 12),
{
    let a = (r + k) % 12;
    let b = (q - k) % 12;
    assert(a == r + k || a == r + k - 12);
    assert(b == q - k || b == q - k + 12);
    assert((q - a) % 12 == (b - r) % 12);
}

proof fn lemma_score_transposed(pcs: Seq<u8>, k: int, r: int)
    requires
        pitch_classes_valid(pcs),
        0 <= k < 12,
        0 <= r < 12,
        forall|q: int| 0 <= q < 12 ==> #[trigger] transposed(pcs, k).contains(q as u8) == pcs.contains(((q - k) % 12) as u8),
    ensures
        key_score(transposed(pcs, k), (r + k) % 12) == key_score(pcs, r),
{
    let t = transposed(pcs, k);
    let fr = |q: int| pcs.contains(q as u8) && in_major_scale(r, q);
    let gr = |q: int| t.contains(q as u8) && in_major_scale((r + k) % 12, q);
    assert forall|q: int| 0 <= q < 12 implies #[trigger] gr(q) == fr((q - k) % 12) by {
        lemma_scale_transposed(r, k, q);
    }
    lemma_count_rotated(fr, gr, k);
    lemma_count_scale_members(pcs, r, fr, 12);
    lemma_count_scale_members(t, (r + k) % 12, gr, 12);
}

/// Transposition: moving every pitch class of a chord `k` semitones up,
/// and the candidate table with it, leaves the candidates found (hence
/// their depths), the score and the perfect-match flag unchanged.
pub proof fn lemma_transposition_invariant(pcs: Seq<u8>, k: int)
    requires
        pitch_classes_valid(pcs),
        0 <= k < 12,
    ensures
        nearest_keys_at(transposed(pcs, k), k) == nearest_keys_at(pcs, 0),
{
    let t = transposed(pcs, k);
    assert forall|q: int| 0 <= q < 12 implies #[trigger] t.contains(q as u8) == pcs.contains(((q - k) % 12) as u8) by {
        lemma_transposed_contains(pcs, k, q);
    }
    let f = |q: int| pcs.contains(q as u8);
    let g = |q: int| t.contains(q as u8);
    lemma_count_rotated(f, g, k);
    lemma_count_members(pcs, f, 12);
    lemma_count_members(t, g, 12);
    assert forall|i: int| 0 <= i < 13 implies scores_at(t, k)[i] == scores_at(pcs, 0)[i] by {
        lemma_score_transposed(pcs, k, key_root(i));
    }
    assert(scores_at(t, k) =~= scores_at(pcs, 0));
}

/// For each pitch class below 12, whether `pcs` holds it.
fn presence(pcs: &[u8]) -> (r: Vec<bool>)
    ensures
        r@.len() == 12,
        forall|p: int| 0 <= p < 12 ==> r@[p] == pcs@.contains(p as u8),
{
    let mut r: Vec<bool> = vec![false; 12];
    let mut i: usize = 0;
    while i < pcs.len()
        invariant
            i <= pcs@.len(),
            r@.len() == 12,
            forall|p: int| 0 <= p < 12 ==> r@[p] == pcs@.take(i as int).contains(p as u8),
        decreases pcs@.len() - i,
    {
        let x = pcs[i];
        let ghost before = pcs@.take(i as int);
        if x < 12 {
            r.set(x as usize, true);
        }
        i += 1;
        assert(pcs@.take(i as int) =~= before.push(x));
        assert forall|p: int| 0 <= p < 12 implies r@[p] == pcs@.take(i as int).contains(p as u8) by {
            let now = pcs@.take(i as int);
            if now.contains(p as u8) && !before.contains(p as u8) {
                let w = choose|w: int| 0 <= w < now.len() && now[w] == p as u8;
                if w < before.len() {
                    assert(before[w] == now[w]);
                }
            }
            if before.contains(p as u8) {
                let w = choose|w: int| 0 <= w < before.len() && before[w] == p as u8;
                assert(now[w] == before[w]);
            }
            if p == x as int {
                assert(now[i - 1] == x);
            }
        }
    }
    assert(pcs@.take(pcs@.len() as int) =~= pcs@);
    r
}

/// Number of distinct pitch classes that `present` marks.
fn count_present(present: &Vec<bool>, Ghost(pcs): Ghost<Seq<u8>>) -> (r: usize)
    requires
        present@.len() == 12,
        forall|p: int| 0 <= p < 12 ==> present@[p] == pcs.contains(p as u8),
    ensures
        r == distinct_count(pcs),
{
    let mut n: usize = 0;
    let mut p: usize = 0;
    while p < 12
        invariant
            p <= 12,
            present@.len() == 12,
            forall|q: int| 0 <= q < 12 ==> present@[q] == pcs.contains(q as u8),
            n == members_below(pcs, p as int),
            n <= p,
        decreases 12 - p,
    {
        if present[p] {
            n += 1;
        }
        p += 1;
    }
    n
}

/// Number of distinct pitch classes that `present` marks in the major
/// scale on `root`.
fn count_in_scale(present: &Vec<bool>, root: u8, Ghost(pcs): Ghost<Seq<u8>>) -> (r: usize)
    requires
        root < 12,
        present@.len() == 12,
        forall|p: int| 0 <= p < 12 ==> present@[p] == pcs.contains(p as u8),
    ensures
        r == key_score(pcs, root as int),
        r <= 12,
{
    let mut n: usize = 0;
    let mut p: u8 = 0;
    while p < 12
        invariant
            root < 12,
            p <= 12,
            present@.len() == 12,
            forall|q: int| 0 <= q < 12 ==> present@[q] == pcs.contains(q as u8),
            n == scale_members_below(pcs, root as int, p as int),
            n <= p,
        decreases 12 - p,
    {
        if present[p as usize] && in_scale(root, p) {
            n += 1;
        }
        p += 1;
    }
    n
}

/// Searches the circle of fifths, from depth 0 outwards, for the major keys
/// whose scales hold most of the distinct pitch classes of `chord_notes`.
pub fn calculate_tonal_depth(chord_notes: &[u8]) -> (r: TonalDepth)
    requires
        pitch_classes_valid(chord_notes@),
    ensures
        r.describes(nearest_keys_at(chord_notes@, 0)),
        r.is_perfect ==> r.candidates@.len() == 1,
        r.is_perfect ==> forall|j: int| 0 <= j < ties_upto(scores_at(chord_notes@, 0), 13, r.score as nat).len()
            ==> abs(r.candidates@[0].depth as int) <= abs(key_depth(
                #[trigger] ties_upto(scores_at(chord_notes@, 0), 13, r.score as nat)[j],
            )),
{
    let ghost pcs = chord_notes@;
    let ghost sc = scores_at(pcs, 0);
    let present = presence(chord_notes);
    let total = count_present(&present, Ghost(pcs));
    if total == 0 {
        return TonalDepth { candidates: Vec::new(), score: 0, is_perfect: false };
    }
    let mut best: usize = 0;
    let mut candidates: Vec<KeyCandidate> = Vec::new();
    let mut i: usize = 0;
    while i < KEY_COUNT
        invariant
            i <= KEY_COUNT,
            sc == scores_at(pcs, 0),
            present@.len() == 12,
            forall|p: int| 0 <= p < 12 ==> present@[p] == pcs.contains(p as u8),
            best == best_upto(sc, i as int),
            best <= 12,
            candidates@.len() == ties_upto(sc, i as int, best as nat).len(),
            forall|j: int| 0 <= j < candidates@.len()
                ==> candidate_is(candidates@[j], ties_upto(sc, i as int, best as nat)[j]),
        decreases KEY_COUNT - i,
    {
        let entry = key_entry(i);
        let score = count_in_scale(&present, entry.root, Ghost(pcs));
        assert(sc[i as int] == score);
        if score > best {
            proof {
                lemma_no_ties_above_best(sc, i as int, score as nat);
            }
            best = score;
            candidates = Vec::new();
            candidates.push(entry);
        } else if score == best {
            candidates.push(entry);
        }
        i += 1;
    }
    let is_perfect = best == total;
    proof {
        lemma_ties_increasing(sc, 13, best as nat);
        lemma_best_attained(sc, 13);
    }
    if is_perfect {
        candidates.truncate(1);
        proof {
            let t = ties_upto(sc, 13, best as nat);
            assert(candidate_is(candidates@[0], t.take(1)[0]));
        }
        proof {
            let t = ties_upto(sc, 13, best as nat);
            assert forall|j: int| 0 <= j < t.len() implies abs(candidates@[0].depth as int) <= abs(
                key_depth(#[trigger] t[j]),
            ) by {
                if j > 0 {
                    assert(t[0] < t[j]);
                }
                lemma_depth_order(t[0], t[j]);
            }
        }
    }
    TonalDepth { candidates, score: best, is_perfect }
}

} // verus!
