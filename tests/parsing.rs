use chord_depth::parser::parse_chord;
use chord_depth::pitch::{idx_to_note_name, note_to_pitch_class};
use chord_depth::quality::get_quality_intervals;

#[test]
fn enharmonic_roots_give_same_pitch_classes() {
    for q in ["", "m7", "dim7", "m9", "13", "7#9", "unknown"] {
        let sharp = parse_chord(&format!("C#{}", q));
        let flat = parse_chord(&format!("Db{}", q));
        assert_eq!(sharp.pitch_classes, flat.pitch_classes);
        assert_eq!(sharp.root, flat.root);
        assert_ne!(sharp.display_name, flat.display_name);
    }
    let a = parse_chord("A#m");
    let b = parse_chord("Bbm");
    assert_eq!(a.pitch_classes, vec![10, 1, 5]);
    assert_eq!(a.pitch_classes, b.pitch_classes);
}

#[test]
fn half_diminished_aliases_agree() {
    let expected: Vec<u8> = vec![0, 3, 6, 10];
    assert_eq!(get_quality_intervals("m7b5"), expected);
    assert_eq!(get_quality_intervals("m7-5"), expected);
    assert_eq!(get_quality_intervals("half-dim"), expected);
    assert_eq!(get_quality_intervals("ø"), expected);
}

#[test]
fn quality_table_entries() {
    assert_eq!(get_quality_intervals(""), vec![0, 4, 7]);
    assert_eq!(get_quality_intervals("maj"), vec![0, 4, 7]);
    assert_eq!(get_quality_intervals("-"), vec![0, 3, 7]);
    assert_eq!(get_quality_intervals("o7"), vec![0, 3, 6, 9]);
    assert_eq!(get_quality_intervals("jq"), vec![0, 4, 7, 11]);
    assert_eq!(get_quality_intervals("mMaj7"), vec![0, 3, 7, 11]);
    assert_eq!(get_quality_intervals("add9"), vec![0, 4, 7, 14]);
    assert_eq!(get_quality_intervals("m11"), vec![0, 3, 7, 10, 14, 17]);
    assert_eq!(get_quality_intervals("M13"), vec![0, 4, 7, 11, 14, 21]);
    assert_eq!(get_quality_intervals("7b9"), vec![0, 4, 7, 10, 13]);
    assert_eq!(get_quality_intervals("aug7"), vec![0, 4, 8, 10]);
    assert_eq!(get_quality_intervals("sus"), vec![0, 5, 7]);
}

#[test]
fn unknown_quality_falls_back_to_power_chord() {
    assert_eq!(get_quality_intervals("xyz"), vec![0, 7]);
    assert_eq!(get_quality_intervals("m7b5 "), vec![0, 7]);
    let c = parse_chord("Gweird");
    assert_eq!(c.pitch_classes, vec![7, 2]);
    assert_eq!(c.quality, "weird");
}

#[test]
fn minor_ninth_round_trip() {
    let c = parse_chord("Fm9");
    assert_eq!(c.pitch_classes, vec![5, 8, 0, 3, 7]);
    assert_eq!(c.display_name, "F");
    assert_eq!(c.quality, "m9");
    assert_eq!(c.root, Some(5));
}

#[test]
fn slash_bass_goes_first() {
    let c = parse_chord("C/Bb");
    assert_eq!(c.pitch_classes, vec![10, 0, 4, 7]);
    assert_eq!(c.display_name, "C/Bb");
    assert_eq!(c.quality, "");
    assert_eq!(c.root, Some(0));
}

#[test]
fn slash_bass_already_in_chord_is_not_repeated() {
    let c = parse_chord("C/E");
    assert_eq!(c.pitch_classes, vec![0, 4, 7]);
    assert_eq!(c.display_name, "C/E");
}

#[test]
fn unknown_bass_is_ignored_but_shown() {
    let c = parse_chord("Am/H");
    assert_eq!(c.pitch_classes, vec![9, 0, 4]);
    assert_eq!(c.display_name, "A/H");
    let d = parse_chord("C/Bb/E");
    assert_eq!(d.pitch_classes, vec![10, 0, 4, 7]);
    assert_eq!(d.display_name, "C/Bb");
    let e = parse_chord("C/");
    assert_eq!(e.display_name, "C");
    assert_eq!(e.pitch_classes, vec![0, 4, 7]);
}

#[test]
fn unknown_root_is_reported() {
    let c = parse_chord("H");
    assert!(c.display_name.starts_with("Err:"));
    assert_eq!(c.display_name, "Err:H");
    assert!(c.pitch_classes.is_empty());
    assert_eq!(c.root, None);
    let d = parse_chord("Cbm7");
    assert_eq!(d.display_name, "Err:Cb");
    assert!(d.pitch_classes.is_empty());
    let e = parse_chord("/E");
    assert_eq!(e.display_name, "Err:");
}

#[test]
fn empty_input_is_degraded() {
    let c = parse_chord("");
    assert_eq!(c.display_name, "?");
    assert!(c.pitch_classes.is_empty());
    assert_eq!(c.root, None);
    let d = parse_chord("   \t ");
    assert_eq!(d.display_name, "?");
}

#[test]
fn surrounding_whitespace_is_dropped() {
    let c = parse_chord("  G13\n");
    assert_eq!(c.display_name, "G");
    assert_eq!(c.quality, "13");
    assert_eq!(c.pitch_classes, vec![7, 11, 2, 5, 9, 4]);
}

#[test]
fn non_ascii_symbols_do_not_panic() {
    let c = parse_chord("Bø");
    assert_eq!(c.quality, "ø");
    assert_eq!(c.pitch_classes, vec![11, 2, 5, 9]);
    let d = parse_chord("ø");
    assert_eq!(d.display_name, "Err:ø");
    let e = parse_chord("øb7");
    assert_eq!(e.display_name, "Err:øb");
}

#[test]
fn note_spellings() {
    assert_eq!(note_to_pitch_class("C"), Some(0));
    assert_eq!(note_to_pitch_class("C#"), Some(1));
    assert_eq!(note_to_pitch_class("Db"), Some(1));
    assert_eq!(note_to_pitch_class("Gb"), Some(6));
    assert_eq!(note_to_pitch_class("A#"), Some(10));
    assert_eq!(note_to_pitch_class("B"), Some(11));
    assert_eq!(note_to_pitch_class("E#"), None);
    assert_eq!(note_to_pitch_class("Fb"), None);
    assert_eq!(note_to_pitch_class("c"), None);
    assert_eq!(note_to_pitch_class(""), None);
    assert_eq!(note_to_pitch_class("C##"), None);
}

#[test]
fn canonical_names() {
    assert_eq!(idx_to_note_name(0), "C");
    assert_eq!(idx_to_note_name(1), "Db");
    assert_eq!(idx_to_note_name(6), "F#");
    assert_eq!(idx_to_note_name(10), "Bb");
    assert_eq!(idx_to_note_name(11), "B");
    assert_eq!(idx_to_note_name(13), "Db");
}
