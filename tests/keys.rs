use chord_depth::analysis::analyze_chord;
use chord_depth::depth::{calculate_tonal_depth, in_scale, key_entry};
use chord_depth::interval::get_interval_label;
use chord_depth::parser::parse_chord;

fn depths_and_names(notes: &[u8]) -> (Vec<(i32, &'static str)>, usize, bool) {
    let r = calculate_tonal_depth(notes);
    (r.candidates.iter().map(|c| (c.depth, c.name)).collect(), r.score, r.is_perfect)
}

#[test]
fn major_triad_collapses_to_its_own_key() {
    let (c, score, perfect) = depths_and_names(&[0, 4, 7]);
    assert_eq!(c, vec![(0, "C")]);
    assert_eq!(score, 3);
    assert!(perfect);
}

#[test]
fn diminished_seventh_stays_ambiguous() {
    let (c, score, perfect) = depths_and_names(&[1, 4, 7, 10]);
    assert!(!perfect);
    assert!(c.len() > 1);
    assert_eq!(c, vec![(-1, "F"), (2, "D"), (-4, "Ab"), (5, "B")]);
    assert_eq!(score, 3);
}

#[test]
fn repeated_pitch_classes_count_once() {
    let (c, score, perfect) = depths_and_names(&[0, 4, 7, 0, 7]);
    assert_eq!(c, vec![(0, "C")]);
    assert_eq!(score, 3);
    assert!(perfect);
}

#[test]
fn empty_chord_has_no_candidates() {
    let r = calculate_tonal_depth(&[]);
    assert!(r.candidates.is_empty());
    assert_eq!(r.score, 0);
    assert!(!r.is_perfect);
}

#[test]
fn perfect_match_keeps_nearest() {
    let (c, score, perfect) = depths_and_names(&[6]);
    assert_eq!(c, vec![(1, "G")]);
    assert_eq!(score, 1);
    assert!(perfect);
    let (d, _, _) = depths_and_names(&[5, 8, 0, 3, 7]);
    assert_eq!(d, vec![(-3, "Eb")]);
    let (e, _, _) = depths_and_names(&[10, 0, 4, 7]);
    assert_eq!(e, vec![(-1, "F")]);
}

#[test]
fn candidate_table() {
    let first = key_entry(0);
    assert_eq!((first.depth, first.root, first.name), (0, 0, "C"));
    let sharp = key_entry(11);
    let flat = key_entry(12);
    assert_eq!((sharp.depth, sharp.root, sharp.name), (6, 6, "F#"));
    assert_eq!((flat.depth, flat.root, flat.name), (-6, 6, "Gb"));
    let f = key_entry(2);
    assert_eq!((f.depth, f.root, f.name), (-1, 5, "F"));
}

#[test]
fn major_scale_membership() {
    assert!(in_scale(0, 0));
    assert!(in_scale(0, 11));
    assert!(!in_scale(0, 1));
    assert!(in_scale(7, 6));
    assert!(!in_scale(7, 5));
    assert!(in_scale(10, 3));
}

#[test]
fn transposition_keeps_depths_and_score() {
    let tuning: Vec<u8> = vec![];
    for (c_sym, d_sym, k) in [("C", "D", 2u8), ("Dbdim7", "Ddim7", 1), ("Fm9", "Am9", 4), ("C7", "B7", 11)] {
        let at_c = analyze_chord(&parse_chord(c_sym), &tuning, 0);
        let moved = analyze_chord(&parse_chord(d_sym), &tuning, k);
        let a: Vec<i32> = at_c.depth.candidates.iter().map(|c| c.depth).collect();
        let b: Vec<i32> = moved.depth.candidates.iter().map(|c| c.depth).collect();
        assert_eq!(a, b);
        assert_eq!(at_c.depth.score, moved.depth.score);
        assert_eq!(at_c.depth.is_perfect, moved.depth.is_perfect);
        for (x, y) in at_c.depth.candidates.iter().zip(moved.depth.candidates.iter()) {
            assert_eq!((x.root + k) % 12, y.root);
        }
    }
}

#[test]
fn interval_labels() {
    assert_eq!(get_interval_label(0, 1), "b9");
    assert_eq!(get_interval_label(0, 7), "5");
    assert_eq!(get_interval_label(5, 0), "5");
    assert_eq!(get_interval_label(0, 0), "R");
    assert_eq!(get_interval_label(0, 6), "#11");
    assert_eq!(get_interval_label(0, 11), "M7");
    assert_eq!(get_interval_label(11, 10), "M7");
    assert_eq!(get_interval_label(2, 11), "13");
}

#[test]
fn analysis_of_minor_ninth() {
    let chord = parse_chord("Fm9");
    let a = analyze_chord(&chord, &[0, 7, 2, 7, 9, 2], 0);
    let keys: Vec<(i32, u8, &str)> = a.depth.candidates.iter().map(|c| (c.depth, c.root, c.name)).collect();
    assert_eq!(keys, vec![(-3, 3, "Eb")]);
    assert_eq!(a.depth.score, 5);
    assert!(a.depth.is_perfect);
    let labels: Vec<&str> = a.strings.iter().map(|s| s.label).collect();
    assert_eq!(labels, vec!["5", "9", "13", "9", "M3", "13"]);
    let in_chord: Vec<bool> = a.strings.iter().map(|s| s.in_chord).collect();
    assert_eq!(in_chord, vec![true, true, false, true, false, false]);
    let in_scale: Vec<bool> = a.strings.iter().map(|s| s.in_scale).collect();
    assert_eq!(in_scale, vec![true, true, true, true, false, true]);
}

#[test]
fn analysis_names_keys_absolutely() {
    let chord = parse_chord("D");
    let a = analyze_chord(&chord, &[2, 6], 2);
    let keys: Vec<(i32, u8, &str)> = a.depth.candidates.iter().map(|c| (c.depth, c.root, c.name)).collect();
    assert_eq!(keys, vec![(0, 2, "D")]);
    let b = analyze_chord(&parse_chord("F#"), &[], 0);
    let keys_b: Vec<(i32, u8, &str)> = b.depth.candidates.iter().map(|c| (c.depth, c.root, c.name)).collect();
    assert_eq!(keys_b, vec![(5, 11, "B")]);
}

#[test]
fn analysis_of_unparsed_chord() {
    let chord = parse_chord("H7");
    let a = analyze_chord(&chord, &[0, 4], 3);
    assert!(a.depth.candidates.is_empty());
    assert_eq!(a.depth.score, 0);
    assert!(!a.depth.is_perfect);
    let labels: Vec<&str> = a.strings.iter().map(|s| s.label).collect();
    assert_eq!(labels, vec!["R", "M3"]);
    assert!(a.strings.iter().all(|s| !s.in_chord));
    assert!(a.strings[0].in_scale);
}
