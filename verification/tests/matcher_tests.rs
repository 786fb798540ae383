use handpan_score::matcher::{midi_to_note_and_octave_with_tpc, nearest_scale_match, note_label};

#[test]
fn nearest_match_first_seen_wins_ties() {
    // |62 - 60| == |62 - 64|: the first candidate reached, 60, keeps the
    // delta, which is transposed minus scale pitch, so +2
    assert_eq!(nearest_scale_match(62, &[60, 64]), (2, None));
}

#[test]
fn nearest_match_exact_hit_records_index() {
    assert_eq!(nearest_scale_match(64, &[60, 64]), (0, Some(1)));
    assert_eq!(nearest_scale_match(60, &[60, 64]), (0, Some(0)));
}

#[test]
fn nearest_match_keeps_signed_delta() {
    assert_eq!(nearest_scale_match(59, &[60, 64]), (-1, None));
    assert_eq!(nearest_scale_match(66, &[60, 64]), (2, None));
}

#[test]
fn nearest_match_empty_scale() {
    assert_eq!(nearest_scale_match(60, &[]), (i32::MAX, None));
}

#[test]
fn note_names_follow_spelling_codes() {
    assert_eq!(midi_to_note_and_octave_with_tpc(60, 14), ("C".to_string(), 4));
    assert_eq!(midi_to_note_and_octave_with_tpc(62, 16), ("D".to_string(), 4));
    assert_eq!(midi_to_note_and_octave_with_tpc(61, 21), ("C♯".to_string(), 4));
    assert_eq!(midi_to_note_and_octave_with_tpc(61, 9), ("D♭".to_string(), 4));
    assert_eq!(midi_to_note_and_octave_with_tpc(59, -1), ("F♭♭".to_string(), 3));
    assert_eq!(midi_to_note_and_octave_with_tpc(59, 33), ("B♯♯".to_string(), 3));
}

#[test]
fn out_of_range_spelling_is_permissive() {
    assert_eq!(midi_to_note_and_octave_with_tpc(60, 34), ("Invalid TPC".to_string(), 4));
    assert_eq!(midi_to_note_and_octave_with_tpc(60, -2), ("Invalid TPC".to_string(), 4));
}

#[test]
fn octave_follows_midi_numbering() {
    assert_eq!(midi_to_note_and_octave_with_tpc(0, 14).1, -1);
    assert_eq!(midi_to_note_and_octave_with_tpc(11, 14).1, -1);
    assert_eq!(midi_to_note_and_octave_with_tpc(12, 14).1, 0);
    assert_eq!(midi_to_note_and_octave_with_tpc(127, 19).1, 9);
}

#[test]
fn labels_join_name_and_octave() {
    assert_eq!(note_label(60, 14), "C4");
    assert_eq!(note_label(61, 9), "D♭4");
    assert_eq!(note_label(0, 14), "C-1");
}
