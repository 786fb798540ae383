//! Scale catalog: a fixed table of named handpan scales, each emitted in
//! several length variants, with a dense id assigned in generation order.

use vstd::prelude::*;

verus! {

/// The full scale definitions, in fixed order: name, absolute MIDI pitches
/// (the instrument's physical layout, ascending) and the parallel
/// pitch-class spelling codes.
pub open spec fn spec_full_scales() -> Seq<(Seq<char>, Seq<u8>, Seq<i8>)> {
    seq![
        (
            "D Kurd"@,
            seq![50u8, 57, 58, 60, 62, 64, 65, 67, 69, 70, 72, 74, 77],
            seq![16i8, 17, 12, 14, 16, 18, 13, 15, 17, 12, 14, 16, 13],
        ),
        (
            "Celtic"@,
            seq![50u8, 57, 60, 62, 64, 65, 67, 69, 72, 74, 77, 79, 81],
            seq![16i8, 10, 14, 16, 18, 19, 21, 23, 26, 28, 31, 33, 35],
        ),
        (
            "Integral"@,
            seq![45u8, 48, 50, 52, 55, 57, 60, 62, 64, 67, 69, 72, 74],
            seq![10i8, 13, 16, 18, 21, 23, 26, 28, 30, 33, 35, 38, 40],
        ),
        (
            "Equinox"@,
            seq![50u8, 57, 60, 62, 65, 67, 69, 72, 74, 77, 79, 81],
            seq![16i8, 10, 14, 16, 19, 21, 23, 26, 28, 31, 33, 35],
        ),
        (
            "Pygmy"@,
            seq![43u8, 46, 48, 51, 55, 58, 60, 63, 67],
            seq![10i8, 13, 14, 16, 19, 20, 22, 23, 26],
        ),
        (
            "Hijaz"@,
            seq![50u8, 51, 55, 57, 61, 62, 65, 66, 69],
            seq![16i8, 17, 21, 23, 25, 26, 28, 29, 32],
        ),
        (
            "C# Annaziska"@,
            seq![49u8, 56, 58, 60, 62, 63, 66, 68, 71],
            seq![15i8, 22, 24, 26, 28, 29, 32, 34, 37],
        ),
        (
            "Melog Selisir"@,
            seq![50u8, 53, 55, 58, 60, 62, 65, 67, 70, 72],
            seq![16i8, 19, 21, 24, 26, 28, 31, 33, 36, 38],
        ),
        (
            "Asha"@,
            seq![45u8, 48, 50, 52, 55, 57, 60, 62, 64, 67, 69],
            seq![10i8, 13, 16, 18, 21, 23, 26, 28, 30, 33, 35],
        ),
    ]
}

/// The variants of note count `count` drawn from the first `i` full scales,
/// in definition order: a full scale contributes its first `count` pitches
/// and spellings exactly when it has at least `count` notes.
pub open spec fn spec_variants_upto(count: int, i: int) -> Seq<(Seq<char>, Seq<u8>, Seq<i8>)>
    decreases i,
{
    if i <= 0 {
        Seq::empty()
    } else {
        let s = spec_full_scales()[i - 1];
        let prev = spec_variants_upto(count, i - 1);
        if s.1.len() >= count {
            prev.push((s.0, s.1.take(count), s.2.take(count)))
        } else {
            prev
        }
    }
}

/// All catalog entries for note counts `9..c`: the outer walk is over the
/// note count, the inner walk over the scale definitions.
pub open spec fn spec_counts_upto(c: int) -> Seq<(Seq<char>, Seq<u8>, Seq<i8>)>
    decreases c,
{
    if c <= 9 {
        Seq::empty()
    } else {
        spec_counts_upto(c - 1) + spec_variants_upto(c - 1, spec_full_scales().len() as int)
    }
}

/// The whole catalog: note counts 9 through 13, each over the full scale
/// list, in that order. Position in this sequence is the entry's id.
pub open spec fn spec_catalog() -> Seq<(Seq<char>, Seq<u8>, Seq<i8>)> {
    spec_counts_upto(14)
}

/// Every full scale pairs as many spelling codes as pitches, and holds
/// between 9 and 13 notes.
pub proof fn lemma_full_scales_wf()
    ensures
        spec_full_scales().len() == 9,
        forall|k: int|
            0 <= k < 9 ==> 9 <= #[trigger] spec_full_scales()[k].1.len() <= 13
                && spec_full_scales()[k].1.len() == spec_full_scales()[k].2.len(),
{
    assert forall|k: int| 0 <= k < 9 implies 9 <= #[trigger] spec_full_scales()[k].1.len() <= 13
        && spec_full_scales()[k].1.len() == spec_full_scales()[k].2.len() by {
        if k == 0 {
            assert(spec_full_scales()[0].1.len() == 13 && spec_full_scales()[0].2.len() == 13);
        } else if k == 1 {
            assert(spec_full_scales()[1].1.len() == 13 && spec_full_scales()[1].2.len() == 13);
        } else if k == 2 {
            assert(spec_full_scales()[2].1.len() == 13 && spec_full_scales()[2].2.len() == 13);
        } else if k == 3 {
            assert(spec_full_scales()[3].1.len() == 12 && spec_full_scales()[3].2.len() == 12);
        } else if k == 4 {
            assert(spec_full_scales()[4].1.len() == 9 && spec_full_scales()[4].2.len() == 9);
        } else if k == 5 {
            assert(spec_full_scales()[5].1.len() == 9 && spec_full_scales()[5].2.len() == 9);
        } else if k == 6 {
            assert(spec_full_scales()[6].1.len() == 9 && spec_full_scales()[6].2.len() == 9);
        } else if k == 7 {
            assert(spec_full_scales()[7].1.len() == 10 && spec_full_scales()[7].2.len() == 10);
        } else {
            assert(spec_full_scales()[8].1.len() == 11 && spec_full_scales()[8].2.len() == 11);
        }
    }
}

/// The full scale definition at position `s`, as executable values.
fn full_scale_entry(s: usize) -> (r: (&'static str, Vec<u8>, Vec<i8>))
    requires
        s < 9,
    ensures
        r.0@ == spec_full_scales()[s as int].0,
        r.1@ == spec_full_scales()[s as int].1,
        r.2@ == spec_full_scales()[s as int].2,
{
    match s {
        0 => (
            "D Kurd",
            vec![50u8, 57, 58, 60, 62, 64, 65, 67, 69, 70, 72, 74, 77],
            vec![16i8, 17, 12, 14, 16, 18, 13, 15, 17, 12, 14, 16, 13],
        ),
        1 => (
            "Celtic",
            vec![50u8, 57, 60, 62, 64, 65, 67, 69, 72, 74, 77, 79, 81],
            vec![16i8, 10, 14, 16, 18, 19, 21, 23, 26, 28, 31, 33, 35],
        ),
        2 => (
            "Integral",
            vec![45u8, 48, 50, 52, 55, 57, 60, 62, 64, 67, 69, 72, 74],
            vec![10i8, 13, 16, 18, 21, 23, 26, 28, 30, 33, 35, 38, 40],
        ),
        3 => (
            "Equinox",
            vec![50u8, 57, 60, 62, 65, 67, 69, 72, 74, 77, 79, 81],
            vec![16i8, 10, 14, 16, 19, 21, 23, 26, 28, 31, 33, 35],
        ),
        4 => (
            "Pygmy",
            vec![43u8, 46, 48, 51, 55, 58, 60, 63, 67],
            vec![10i8, 13, 14, 16, 19, 20, 22, 23, 26],
        ),
        5 => (
            "Hijaz",
            vec![50u8, 51, 55, 57, 61, 62, 65, 66, 69],
            vec![16i8, 17, 21, 23, 25, 26, 28, 29, 32],
        ),
        6 => (
            "C# Annaziska",
            vec![49u8, 56, 58, 60, 62, 63, 66, 68, 71],
            vec![15i8, 22, 24, 26, 28, 29, 32, 34, 37],
        ),
        7 => (
            "Melog Selisir",
            vec![50u8, 53, 55, 58, 60, 62, 65, 67, 70, 72],
            vec![16i8, 19, 21, 24, 26, 28, 31, 33, 36, 38],
        ),
        _ => (
            "Asha",
            vec![45u8, 48, 50, 52, 55, 57, 60, 62, 64, 67, 69],
            vec![10i8, 13, 16, 18, 21, 23, 26, 28, 30, 33, 35],
        ),
    }
}

/// Generate the list of handpan scales with note counts 9 through 13: for
/// each count, every full scale with at least that many notes contributes
/// its first `count` notes, and each emitted variant receives the next
/// dense id, so an entry's id equals its position.
pub fn scales_list() -> (r: Vec<(usize, &'static str, Vec<u8>, Vec<i8>)>)
    ensures
        r@.len() == spec_catalog().len(),
        forall|i: int| #![trigger r@[i]]
            0 <= i < r@.len() ==> r@[i].0 == i && r@[i].1@ == spec_catalog()[i].0
                && r@[i].2@ == spec_catalog()[i].1 && r@[i].3@ == spec_catalog()[i].2,
{
    let mut scales: Vec<(usize, &'static str, Vec<u8>, Vec<i8>)> = Vec::new();

    let mut note_count: usize = 9;
    while note_count <= 13
        invariant
            9 <= note_count <= 14,
            scales@.len() == spec_counts_upto(note_count as int).len(),
            forall|i: int| #![trigger scales@[i]]
                0 <= i < scales@.len() ==> scales@[i].0 == i && scales@[i].1@
                    == spec_counts_upto(note_count as int)[i].0 && scales@[i].2@
                    == spec_counts_upto(note_count as int)[i].1 && scales@[i].3@
                    == spec_counts_upto(note_count as int)[i].2,
        decreases 14 - note_count,
    {
        let ghost base = spec_counts_upto(note_count as int);
        let mut s: usize = 0;
        while s < 9
            invariant
                0 <= s <= 9,
                9 <= note_count <= 13,
                base == spec_counts_upto(note_count as int),
                scales@.len() == base.len() + spec_variants_upto(note_count as int, s as int).len(),
                forall|i: int| #![trigger scales@[i]]
                    0 <= i < scales@.len() ==> scales@[i].0 == i,
                forall|i: int| #![trigger scales@[i]]
                    0 <= i < base.len() ==> scales@[i].1@ == base[i].0 && scales@[i].2@
                        == base[i].1 && scales@[i].3@ == base[i].2,
                forall|i: int| #![trigger scales@[i]]
                    base.len() <= i < scales@.len() ==> scales@[i].1@
                        == spec_variants_upto(note_count as int, s as int)[i - base.len()].0
                        && scales@[i].2@ == spec_variants_upto(note_count as int, s as int)[i
                        - base.len()].1 && scales@[i].3@ == spec_variants_upto(
                        note_count as int,
                        s as int,
                    )[i - base.len()].2,
            decreases 9 - s,
        {
            proof {
                lemma_full_scales_wf();
            }
            let (name, full_midi, full_tpc) = full_scale_entry(s);
            if full_midi.len() >= note_count {
                let mut clipped_midi: Vec<u8> = Vec::new();
                let mut clipped_tpc: Vec<i8> = Vec::new();
                let mut j: usize = 0;
                while j < note_count
                    invariant
                        0 <= j <= note_count,
                        note_count <= full_midi@.len(),
                        full_midi@.len() == full_tpc@.len(),
                        clipped_midi@ == full_midi@.take(j as int),
                        clipped_tpc@ == full_tpc@.take(j as int),
                    decreases note_count - j,
                {
                    clipped_midi.push(full_midi[j]);
                    clipped_tpc.push(full_tpc[j]);
                    proof {
                        assert(clipped_midi@ =~= full_midi@.take(j + 1));
                        assert(clipped_tpc@ =~= full_tpc@.take(j + 1));
                    }
                    j += 1;
                }
                let id_counter = scales.len();
                scales.push((id_counter, name, clipped_midi, clipped_tpc));
            }
            proof {
                reveal_with_fuel(spec_variants_upto, 2);
                assert(spec_variants_upto(note_count as int, s + 1) == if spec_full_scales()[s as int].1.len()
                    >= note_count as int {
                    spec_variants_upto(note_count as int, s as int).push(
                        (
                            spec_full_scales()[s as int].0,
                            spec_full_scales()[s as int].1.take(note_count as int),
                            spec_full_scales()[s as int].2.take(note_count as int),
                        ),
                    )
                } else {
                    spec_variants_upto(note_count as int, s as int)
                });
            }
            s += 1;
        }
        proof {
            reveal_with_fuel(spec_counts_upto, 2);
            assert(spec_counts_upto(note_count + 1) == spec_counts_upto(note_count as int)
                + spec_variants_upto(note_count as int, 9));
            assert(forall|i: int| #![trigger scales@[i]]
                0 <= i < scales@.len() ==> scales@[i].1@ == spec_counts_upto(
                    note_count + 1,
                )[i].0 && scales@[i].2@ == spec_counts_upto(note_count + 1)[i].1 && scales@[i].3@
                == spec_counts_upto(note_count + 1)[i].2);
        }
        note_count += 1;
    }
    scales
}

/// Look a scale up by its catalog id. An id below the catalog length yields
/// exactly that entry's name, pitches and spellings; any other id yields
/// nothing.
pub fn get_handpan_scale(scale_index: usize) -> (r: Option<(String, Vec<u8>, Vec<i8>)>)
    ensures
        scale_index < spec_catalog().len() ==> (r matches Some(e) && e.0@ == spec_catalog()[
            scale_index as int
        ].0 && e.1@ == spec_catalog()[scale_index as int].1 && e.2@ == spec_catalog()[
            scale_index as int
        ].2),
        scale_index >= spec_catalog().len() ==> r is None,
{
    let scales = scales_list();
    let n = scales.len();
    let mut i: usize = 0;
    while i < n
        invariant
            0 <= i <= n,
            n == spec_catalog().len(),
            scales@.len() == n,
            forall|k: int| #![trigger scales@[k]]
                0 <= k < n ==> scales@[k].0 == k && scales@[k].1@ == spec_catalog()[k].0
                    && scales@[k].2@ == spec_catalog()[k].1 && scales@[k].3@ == spec_catalog()[k].2,
            forall|k: int| #![trigger scales@[k]] 0 <= k < i ==> scales@[k].0 != scale_index,
        decreases n - i,
    {
        if scales[i].0 == scale_index {
            proof {
                assert(scales@[i as int].0 == i);
            }
            let (_, name, notes, tpc) = (
                scales[i].0,
                scales[i].1,
                scales[i].2.clone(),
                scales[i].3.clone(),
            );
            return Some((String::from_str(name), notes, tpc));
        }
        i += 1;
    }
    proof {
        if (scale_index as int) < n as int {
            assert(scales@[scale_index as int].0 == scale_index);
            assert(false);
        }
    }
    None
}

/// Every catalog variant of note count `count`, among those drawn from the
/// first `i` full scales, is a front truncation of one of them; the witness
/// index is returned.
proof fn lemma_variants_entry(count: int, i: int, idx: int) -> (k: int)
    requires
        0 < count,
        0 <= i <= 9,
        0 <= idx < spec_variants_upto(count, i).len(),
    ensures
        0 <= k < i,
        spec_full_scales()[k].1.len() >= count,
        spec_variants_upto(count, i)[idx] == (
            spec_full_scales()[k].0,
            spec_full_scales()[k].1.take(count),
            spec_full_scales()[k].2.take(count),
        ),
    decreases i,
{
    let s = spec_full_scales()[i - 1];
    let prev = spec_variants_upto(count, i - 1);
    if s.1.len() >= count && idx == prev.len() {
        i - 1
    } else {
        lemma_variants_entry(count, i - 1, idx)
    }
}

/// Every entry of the catalog prefix for note counts below `c` is the front
/// truncation of a full scale; the witness note count and scale index are
/// returned.
proof fn lemma_counts_entry(c: int, idx: int) -> (r: (int, int))
    requires
        9 <= c <= 14,
        0 <= idx < spec_counts_upto(c).len(),
    ensures
        9 <= r.0 < c,
        0 <= r.1 < 9,
        spec_full_scales()[r.1].1.len() >= r.0,
        spec_counts_upto(c)[idx] == (
            spec_full_scales()[r.1].0,
            spec_full_scales()[r.1].1.take(r.0),
            spec_full_scales()[r.1].2.take(r.0),
        ),
    decreases c,
{
    let prev = spec_counts_upto(c - 1);
    if idx < prev.len() {
        lemma_counts_entry(c - 1, idx)
    } else {
        let k = lemma_variants_entry(c - 1, 9, idx - prev.len());
        (c - 1, k)
    }
}

/// The nine full scale names are pairwise distinct.
proof fn lemma_names_distinct(k1: int, k2: int)
    requires
        0 <= k1 < 9,
        0 <= k2 < 9,
        spec_full_scales()[k1].0 == spec_full_scales()[k2].0,
    ensures
        k1 == k2,
{
    reveal_strlit("D Kurd");
    reveal_strlit("Celtic");
    reveal_strlit("Integral");
    reveal_strlit("Equinox");
    reveal_strlit("Pygmy");
    reveal_strlit("Hijaz");
    reveal_strlit("C# Annaziska");
    reveal_strlit("Melog Selisir");
    reveal_strlit("Asha");
    assert(("D Kurd"@)[0] != ("Celtic"@)[0]);
    assert(("Pygmy"@)[0] != ("Hijaz"@)[0]);
    assert(("D Kurd"@).len() == 6);
    assert(("Celtic"@).len() == 6);
    assert(("Integral"@).len() == 8);
    assert(("Equinox"@).len() == 7);
    assert(("Pygmy"@).len() == 5);
    assert(("Hijaz"@).len() == 5);
    assert(("C# Annaziska"@).len() == 12);
    assert(("Melog Selisir"@).len() == 13);
    assert(("Asha"@).len() == 4);
}

/// Catalog truncation law: two catalog entries with the same scale name are
/// front truncations of the same full scale, so the pitch list and the
/// spelling list of the entry with fewer notes are exactly the first notes
/// of the longer entry's lists. In particular a scale's 9-note variant is a
/// strict prefix, by pitch and by spelling, of its 13-note variant.
pub proof fn lemma_catalog_truncation(i: int, j: int)
    requires
        0 <= i < spec_catalog().len(),
        0 <= j < spec_catalog().len(),
        spec_catalog()[i].0 == spec_catalog()[j].0,
        spec_catalog()[i].1.len() <= spec_catalog()[j].1.len(),
    ensures
        spec_catalog()[i].1 == spec_catalog()[j].1.take(spec_catalog()[i].1.len() as int),
        spec_catalog()[i].2 == spec_catalog()[j].2.take(spec_catalog()[i].1.len() as int),
        spec_catalog()[i].2.len() == spec_catalog()[i].1.len(),
{
    let wi = lemma_counts_entry(14, i);
    let wj = lemma_counts_entry(14, j);
    lemma_full_scales_wf();
    lemma_names_distinct(wi.1, wj.1);
    let s = spec_full_scales()[wi.1];
    assert(spec_catalog()[i].1.len() == wi.0);
    assert(spec_catalog()[j].1.len() == wj.0);
    assert(s.1.take(wj.0).take(wi.0) =~= s.1.take(wi.0));
    assert(s.2.take(wj.0).take(wi.0) =~= s.2.take(wi.0));
}

} // verus!
