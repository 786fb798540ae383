use handpan_score::scales::{get_handpan_scale, scales_list};

#[test]
fn catalog_has_dense_ids_in_generation_order() {
    let scales = scales_list();
    // 9 scales of >= 9 notes, 6 of >= 10, 5 of >= 11, 4 of >= 12, 3 of >= 13
    assert_eq!(scales.len(), 27);
    for (i, entry) in scales.iter().enumerate() {
        assert_eq!(entry.0, i);
        assert_eq!(entry.2.len(), entry.3.len());
    }
}

#[test]
fn catalog_starts_with_nine_note_variants() {
    let scales = scales_list();
    assert_eq!(scales[0].1, "D Kurd");
    assert_eq!(scales[0].2, vec![50, 57, 58, 60, 62, 64, 65, 67, 69]);
    assert_eq!(scales[0].3, vec![16, 17, 12, 14, 16, 18, 13, 15, 17]);
    for entry in scales.iter().take(9) {
        assert_eq!(entry.2.len(), 9);
    }
    // the first ten-note variant follows the nine-note block
    assert_eq!(scales[9].1, "D Kurd");
    assert_eq!(scales[9].2.len(), 10);
    // the catalog ends with the thirteen-note variants
    assert_eq!(scales[24].1, "D Kurd");
    assert_eq!(scales[25].1, "Celtic");
    assert_eq!(scales[26].1, "Integral");
    assert_eq!(scales[26].2.len(), 13);
}

#[test]
fn nine_note_variant_is_strict_prefix_of_thirteen() {
    let scales = scales_list();
    // same scale name, lengths 9 and 13
    let nine = &scales[0];
    let thirteen = &scales[24];
    assert_eq!(nine.1, thirteen.1);
    assert_eq!(nine.2.len(), 9);
    assert_eq!(thirteen.2.len(), 13);
    assert_eq!(&thirteen.2[..9], &nine.2[..]);
    assert_eq!(&thirteen.3[..9], &nine.3[..]);
}

#[test]
fn scale_lookup_by_id() {
    let (name, notes, tpc) = get_handpan_scale(0).unwrap();
    assert_eq!(name, "D Kurd");
    assert_eq!(notes, vec![50, 57, 58, 60, 62, 64, 65, 67, 69]);
    assert_eq!(tpc, vec![16, 17, 12, 14, 16, 18, 13, 15, 17]);
    let (name13, notes13, _) = get_handpan_scale(26).unwrap();
    assert_eq!(name13, "Integral");
    assert_eq!(notes13.len(), 13);
}

#[test]
fn scale_lookup_unknown_id_is_absent() {
    assert!(get_handpan_scale(27).is_none());
    assert!(get_handpan_scale(usize::MAX).is_none());
}
