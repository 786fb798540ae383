use handpan_score::transpose::{find_best_transposition_with_harmonic_context, transpose_pitch_and_tpc};

#[test]
fn transpose_zero_is_identity() {
    // shift 0 keeps both the pitch and the original spelling
    assert_eq!(transpose_pitch_and_tpc(60, Some(14), 0), Some((60, 14)));
    assert_eq!(transpose_pitch_and_tpc(0, Some(-1), 0), Some((0, -1)));
    assert_eq!(transpose_pitch_and_tpc(127, Some(33), 0), Some((127, 33)));
}

#[test]
fn transpose_without_spelling_fails() {
    assert_eq!(transpose_pitch_and_tpc(60, None, 5), None);
    assert_eq!(transpose_pitch_and_tpc(60, None, 0), None);
}

#[test]
fn transpose_positive_uses_sharps() {
    // 60 + 3 = 63, pitch class 3 -> D sharp (23)
    assert_eq!(transpose_pitch_and_tpc(60, Some(14), 3), Some((63, 23)));
    // 64 + 2 = 66, pitch class 6 -> F sharp (20)
    assert_eq!(transpose_pitch_and_tpc(64, Some(18), 2), Some((66, 20)));
}

#[test]
fn transpose_negative_uses_flats() {
    // 60 - 2 = 58, pitch class 10 -> B flat (12)
    assert_eq!(transpose_pitch_and_tpc(60, Some(14), -2), Some((58, 12)));
    // 62 - 1 = 61, pitch class 1 -> D flat (9)
    assert_eq!(transpose_pitch_and_tpc(62, Some(16), -1), Some((61, 9)));
}

#[test]
fn transpose_clamps_to_pitch_range() {
    // 126 + 5 clamps to 127, pitch class 7 -> G with sharps (15)
    assert_eq!(transpose_pitch_and_tpc(126, Some(14), 5), Some((127, 15)));
    // 1 - 5 clamps to 0, pitch class 0 -> C with flats (14)
    assert_eq!(transpose_pitch_and_tpc(1, Some(14), -5), Some((0, 14)));
}

#[test]
fn transpose_interior_range_never_clamps() {
    for p in [12u8, 50, 90, 115] {
        for s in [-12i32, -1, 1, 12] {
            let (np, _) = transpose_pitch_and_tpc(p, Some(14), s).unwrap();
            assert_eq!(np as i32, p as i32 + s);
        }
    }
}

#[test]
fn best_shift_keeps_matching_history_in_place() {
    // all three pitches already in the scale: shift 0 wins
    let shift = find_best_transposition_with_harmonic_context(
        &[60, 62, 64],
        &[60, 62, 64, 65, 67, 69, 71],
    );
    assert_eq!(shift, 0);
}

#[test]
fn best_shift_finds_lowest_winning_candidate() {
    // 60 lands in {62, 64, 66} for shifts 2, 4 and 6: the lowest wins
    assert_eq!(find_best_transposition_with_harmonic_context(&[60], &[62, 64, 66]), 2);
    // a single semitone down beats nothing else
    assert_eq!(find_best_transposition_with_harmonic_context(&[61], &[60]), -1);
}

#[test]
fn best_shift_defaults_to_zero() {
    // empty history: no candidate scores above zero
    assert_eq!(find_best_transposition_with_harmonic_context(&[], &[60, 62]), 0);
    // nothing can reach the scale within an octave
    assert_eq!(find_best_transposition_with_harmonic_context(&[60], &[90]), 0);
}
