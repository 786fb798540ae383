//! Transposition engine: shifting a pitch by a signed number of semitones,
//! re-deriving its pitch-class spelling, and searching for the best uniform
//! shift against a target scale.

use vstd::prelude::*;

verus! {

/// Clamp an arbitrary integer into the MIDI pitch range `0..=127`.
pub open spec fn spec_clamp_pitch(v: int) -> int {
    if v < 0 {
        0
    } else if v > 127 {
        127
    } else {
        v
    }
}

/// Pitch-class spelling code preferring sharps, for pitch class `0..=11`.
/// Out-of-range classes keep the fallback spelling `t`.
pub open spec fn spec_sharp_tpc(class: int, t: int) -> int {
    if class == 0 {
        14
    } else if class == 1 {
        21
    } else if class == 2 {
        16
    } else if class == 3 {
        23
    } else if class == 4 {
        18
    } else if class == 5 {
        13
    } else if class == 6 {
        20
    } else if class == 7 {
        15
    } else if class == 8 {
        22
    } else if class == 9 {
        17
    } else if class == 10 {
        24
    } else if class == 11 {
        19
    } else {
        t
    }
}

/// Pitch-class spelling code preferring flats, for pitch class `0..=11`.
/// Out-of-range classes keep the fallback spelling `t`.
pub open spec fn spec_flat_tpc(class: int, t: int) -> int {
    if class == 0 {
        14
    } else if class == 1 {
        9
    } else if class == 2 {
        16
    } else if class == 3 {
        11
    } else if class == 4 {
        18
    } else if class == 5 {
        13
    } else if class == 6 {
        8
    } else if class == 7 {
        15
    } else if class == 8 {
        10
    } else if class == 9 {
        17
    } else if class == 10 {
        12
    } else if class == 11 {
        19
    } else {
        t
    }
}

/// What transposing yields: `None` exactly when no pitch-class spelling is
/// present; otherwise the clamped shifted pitch, with a spelling re-derived
/// from the new pitch class (sharps for a positive shift, flats for a
/// negative one, the original spelling unchanged for shift zero).
pub open spec fn spec_transpose(pitch: u8, tpc: Option<i8>, shift: int) -> Option<(u8, i8)> {
    match tpc {
        None => None,
        Some(t) => {
            let np = spec_clamp_pitch(pitch + shift);
            let class = np % 12;
            let nt = if shift > 0 {
                spec_sharp_tpc(class, t as int)
            } else if shift < 0 {
                spec_flat_tpc(class, t as int)
            } else {
                t as int
            };
            Some((np as u8, nt as i8))
        },
    }
}

/// Transpose a MIDI pitch by `transpose` semitones and re-derive its
/// pitch-class spelling; succeeds if and only if a spelling is present.
pub fn transpose_pitch_and_tpc(pitch: u8, tpc: Option<i8>, transpose: i32) -> (r: Option<(u8, i8)>)
    ensures
        r == spec_transpose(pitch, tpc, transpose as int),
        r is Some <==> tpc is Some,
{
    match tpc {
        None => None,
        Some(t) => {
            let shifted: i64 = pitch as i64 + transpose as i64;
            let new_pitch: u8 = if shifted < 0 {
                0
            } else if shifted > 127 {
                127
            } else {
                shifted as u8
            };
            let note_class: u8 = new_pitch % 12;
            let new_tpc: i8 = if transpose > 0 {
                match note_class {
                    0 => 14,
                    1 => 21,
                    2 => 16,
                    3 => 23,
                    4 => 18,
                    5 => 13,
                    6 => 20,
                    7 => 15,
                    8 => 22,
                    9 => 17,
                    10 => 24,
                    11 => 19,
                    _ => t,
                }
            } else if transpose < 0 {
                match note_class {
                    0 => 14,
                    1 => 9,
                    2 => 16,
                    3 => 11,
                    4 => 18,
                    5 => 13,
                    6 => 8,
                    7 => 15,
                    8 => 10,
                    9 => 17,
                    10 => 12,
                    11 => 19,
                    _ => t,
                }
            } else {
                t
            };
            Some((new_pitch, new_tpc))
        },
    }
}

/// Transposing by zero semitones returns any in-range pitch and its spelling
/// unchanged.
pub proof fn lemma_transpose_zero_identity(pitch: u8, tpc: i8)
    requires
        pitch <= 127,
    ensures
        spec_transpose(pitch, Some(tpc), 0) == Some((pitch, tpc)),
{
}

/// Inside the interior pitch range, a shift of at most an octave in either
/// direction never triggers clamping.
pub proof fn lemma_clamp_interior(p: int, s: int)
    requires
        12 <= p <= 115,
        -12 <= s <= 12,
    ensures
        spec_clamp_pitch(p + s) == p + s,
{
}

/// A pitch shifted by `t` semitones, reduced into the eight-bit range the
/// candidate search works in (a shift below zero or above 255 wraps).
pub open spec fn spec_wrapped_shift(p: u8, t: int) -> u8 {
    (((p + t) % 256) as u8)
}

/// How many pitches of `notes`, shifted by `t`, land on a pitch of `scale`.
pub open spec fn spec_match_count(notes: Seq<u8>, scale: Seq<u8>, t: int) -> int
    decreases notes.len(),
{
    if notes.len() == 0 {
        0
    } else {
        spec_match_count(notes.drop_last(), scale, t) + (if scale.contains(
            spec_wrapped_shift(notes.last(), t),
        ) {
            1int
        } else {
            0int
        })
    }
}

/// The winning shift of the candidate walk from `t` up to 12, carrying the
/// best candidate so far and its score: a candidate replaces the carried one
/// only on a strictly greater score, so the lowest shift wins ties.
pub open spec fn spec_best_from(
    notes: Seq<u8>,
    scale: Seq<u8>,
    t: int,
    best: int,
    best_score: int,
) -> int
    decreases 13 - t,
{
    if t > 12 {
        best
    } else {
        let sc = spec_match_count(notes, scale, t);
        if sc > best_score {
            spec_best_from(notes, scale, t + 1, t, sc)
        } else {
            spec_best_from(notes, scale, t + 1, best, best_score)
        }
    }
}

/// The best uniform shift in `-12..=12` for `notes` against `scale`: the
/// lowest shift with the strictly greatest match count, and 0 when no
/// candidate scores above zero.
pub open spec fn spec_best_shift(notes: Seq<u8>, scale: Seq<u8>) -> int {
    spec_best_from(notes, scale, -12, 0, 0)
}

/// Linear membership scan over a pitch slice.
fn scale_contains(scale: &[u8], x: u8) -> (b: bool)
    ensures
        b == scale@.contains(x),
{
    let n = scale.len();
    let mut j: usize = 0;
    while j < n
        invariant
            j <= n,
            n == scale@.len(),
            forall|k: int| 0 <= k < j ==> scale@[k] != x,
        decreases n - j,
    {
        if *vstd::slice::slice_index_get(scale, j) == x {
            proof {
                assert(scale@[j as int] == x);
            }
            return true;
        }
        j += 1;
    }
    proof {
        assert(!scale@.contains(x));
    }
    false
}

/// Count how many pitches of `notes`, shifted by `t`, are members of `scale`.
fn count_matches(notes: &[u8], scale: &[u8], t: i32) -> (c: usize)
    requires
        -12 <= t <= 12,
    ensures
        c == spec_match_count(notes@, scale@, t as int),
{
    let n = notes.len();
    let mut c: usize = 0;
    let mut i: usize = 0;
    while i < n
        invariant
            i <= n,
            n == notes@.len(),
            -12 <= t <= 12,
            c <= i,
            c == spec_match_count(notes@.take(i as int), scale@, t as int),
        decreases n - i,
    {
        let p = *vstd::slice::slice_index_get(notes, i);
        let s: i32 = p as i32 + t;
        let w: u8 = if s < 0 {
            (s + 256) as u8
        } else if s > 255 {
            (s - 256) as u8
        } else {
            s as u8
        };
        proof {
            assert(w == spec_wrapped_shift(p, t as int));
            assert(notes@.take(i + 1).drop_last() =~= notes@.take(i as int));
            assert(notes@.take(i + 1).last() == notes@[i as int]);
        }
        if scale_contains(scale, w) {
            c += 1;
        }
        i += 1;
    }
    proof {
        assert(notes@.take(n as int) =~= notes@);
    }
    c
}

/// Search the shifts `-12..=12` for the one that lands the most pitches of
/// `notes` on the scale. The interval-preservation penalty of the score is
/// the difference between an interval and the same interval under a uniform
/// shift, which is zero for every pair, so the score reduces to the match
/// count. Ties keep the lowest candidate; shift 0 wins when nothing scores
/// above zero.
pub fn find_best_transposition_with_harmonic_context(notes: &[u8], scale_notes: &[u8]) -> (r: i32)
    ensures
        r == spec_best_shift(notes@, scale_notes@),
        -12 <= r <= 12,
{
    let mut best: i32 = 0;
    let mut best_score: usize = 0;
    let mut t: i32 = -12;
    while t <= 12
        invariant
            -12 <= t <= 13,
            -12 <= best <= 12,
            best_score <= notes@.len(),
            spec_best_shift(notes@, scale_notes@) == spec_best_from(
                notes@,
                scale_notes@,
                t as int,
                best as int,
                best_score as int,
            ),
        decreases 13 - t,
    {
        let sc = count_matches(notes, scale_notes, t);
        proof {
            lemma_match_count_bound(notes@, scale_notes@, t as int);
        }
        if sc > best_score {
            best_score = sc;
            best = t;
        }
        t += 1;
    }
    best
}

/// The match count never exceeds the number of pitches scored.
proof fn lemma_match_count_bound(notes: Seq<u8>, scale: Seq<u8>, t: int)
    ensures
        0 <= spec_match_count(notes, scale, t) <= notes.len(),
    decreases notes.len(),
{
    if notes.len() > 0 {
        lemma_match_count_bound(notes.drop_last(), scale, t);
    }
}

proof fn lemma_best_from_props(notes: Seq<u8>, scale: Seq<u8>, t0: int, best0: int, score0: int)
    requires
        -12 <= t0 <= 13,
        0 <= score0 <= spec_match_count(notes, scale, best0),
    ensures
        ({
            let b = spec_best_from(notes, scale, t0, best0, score0);
            &&& spec_match_count(notes, scale, b) >= score0
            &&& forall|t: int|
                t0 <= t <= 12 ==> #[trigger] spec_match_count(notes, scale, t)
                    <= spec_match_count(notes, scale, b)
            &&& ((b == best0 && forall|t: int|
                t0 <= t <= 12 ==> #[trigger] spec_match_count(notes, scale, t) <= score0) || (t0
                <= b <= 12 && spec_match_count(notes, scale, b) > score0 && forall|t: int|
                t0 <= t < b ==> #[trigger] spec_match_count(notes, scale, t) < spec_match_count(
                    notes,
                    scale,
                    b,
                )))
        }),
    decreases 13 - t0,
{
    if t0 <= 12 {
        let sc = spec_match_count(notes, scale, t0);
        lemma_match_count_bound(notes, scale, t0);
        if sc > score0 {
            lemma_best_from_props(notes, scale, t0 + 1, t0, sc);
        } else {
            lemma_best_from_props(notes, scale, t0 + 1, best0, score0);
        }
    }
}

/// Best-shift optimality law: the search returns a shift in `-12..=12`
/// whose match count no candidate exceeds; every candidate below the
/// winner scores strictly less (the lowest shift wins ties); and when no
/// candidate matches anything, the winner is the default shift 0.
pub proof fn lemma_best_shift_optimal(notes: Seq<u8>, scale: Seq<u8>)
    ensures
        -12 <= spec_best_shift(notes, scale) <= 12,
        forall|t: int|
            -12 <= t <= 12 ==> #[trigger] spec_match_count(notes, scale, t) <= spec_match_count(
                notes,
                scale,
                spec_best_shift(notes, scale),
            ),
        spec_match_count(notes, scale, spec_best_shift(notes, scale)) > 0 ==> forall|t: int|
            -12 <= t < spec_best_shift(notes, scale) ==> #[trigger] spec_match_count(
                notes,
                scale,
                t,
            ) < spec_match_count(notes, scale, spec_best_shift(notes, scale)),
        spec_match_count(notes, scale, spec_best_shift(notes, scale)) == 0 ==> spec_best_shift(
            notes,
            scale,
        ) == 0,
{
    lemma_match_count_bound(notes, scale, 0);
    lemma_best_from_props(notes, scale, -12, 0, 0);
}

} // verus!
