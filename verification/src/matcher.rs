//! Scale matcher and note namer: nearest-scale lookup for a transposed
//! pitch, and the human-readable note name and octave derived from a
//! pitch-class spelling code.

use vstd::prelude::*;

verus! {

pub open spec fn spec_abs(v: int) -> int {
    if v < 0 {
        -v
    } else {
        v
    }
}

/// The running (delta, argmin) pair after scanning the first `i` scale
/// pitches: the scan starts from `i32::MAX` with no index and keeps the
/// first delta of strictly smallest absolute value, so the first scale
/// pitch reaching a given distance wins ties.
pub open spec fn spec_nearest_upto(pitch: int, scale: Seq<u8>, i: int) -> (int, Option<int>)
    decreases i,
{
    if i <= 0 {
        (i32::MAX as int, None)
    } else {
        let prev = spec_nearest_upto(pitch, scale, i - 1);
        let d = pitch - scale[i - 1];
        if spec_abs(d) < spec_abs(prev.0) {
            (d, Some(i - 1))
        } else {
            prev
        }
    }
}

/// The signed delta to the nearest scale pitch and its argmin index.
pub open spec fn spec_nearest(pitch: int, scale: Seq<u8>) -> (int, Option<int>) {
    spec_nearest_upto(pitch, scale, scale.len() as int)
}

/// Find the nearest scale pitch for a (transposed) pitch: the returned
/// delta is `pitch - scale_pitch` for the first scale pitch of smallest
/// absolute distance, and the index is present exactly when the delta is
/// zero (an exact scale hit). An empty scale yields `(i32::MAX, None)`.
pub fn nearest_scale_match(pitch: u8, scale_notes: &[u8]) -> (r: (i32, Option<usize>))
    ensures
        r.0 as int == spec_nearest(pitch as int, scale_notes@).0,
        r.0 == 0 ==> (r.1 matches Some(k) && spec_nearest(pitch as int, scale_notes@).1 == Some(
            k as int,
        )),
        r.0 != 0 ==> r.1 is None,
{
    let n = scale_notes.len();
    let mut min_delta: i32 = i32::MAX;
    let mut closest_index: Option<usize> = None;
    let mut i: usize = 0;
    while i < n
        invariant
            0 <= i <= n,
            n == scale_notes@.len(),
            min_delta as int == spec_nearest_upto(pitch as int, scale_notes@, i as int).0,
            match closest_index {
                Some(k) => spec_nearest_upto(pitch as int, scale_notes@, i as int).1 == Some(
                    k as int,
                ) && k < n,
                None => spec_nearest_upto(pitch as int, scale_notes@, i as int).1 is None,
            },
        decreases n - i,
    {
        let s_note = *vstd::slice::slice_index_get(scale_notes, i);
        let current_delta: i32 = pitch as i32 - s_note as i32;
        let cur_abs: i32 = if current_delta < 0 {
            -current_delta
        } else {
            current_delta
        };
        let min_abs: i32 = if min_delta < 0 {
            -min_delta
        } else {
            min_delta
        };
        if cur_abs < min_abs {
            min_delta = current_delta;
            closest_index = Some(i);
        }
        i += 1;
    }
    proof {
        lemma_nearest_none_is_initial(pitch as int, scale_notes@, n as int);
    }
    if min_delta == 0 {
        (min_delta, closest_index)
    } else {
        (min_delta, None)
    }
}

/// While no index has been recorded, the running delta still holds its
/// initial value, so a zero delta always comes with an index.
proof fn lemma_nearest_none_is_initial(pitch: int, scale: Seq<u8>, i: int)
    requires
        0 <= i,
    ensures
        spec_nearest_upto(pitch, scale, i).1 is None ==> spec_nearest_upto(pitch, scale, i).0
            == i32::MAX as int,
    decreases i,
{
    if i > 0 {
        lemma_nearest_none_is_initial(pitch, scale, i - 1);
    }
}

/// The 35 spelling names, indexed by spelling code plus one.
pub open spec fn spec_tpc_names() -> Seq<Seq<char>> {
    seq![
        "F♭♭"@, "C♭♭"@, "G♭♭"@, "D♭♭"@, "A♭♭"@, "E♭♭"@, "B♭♭"@,
        "F♭"@, "C♭"@, "G♭"@, "D♭"@, "A♭"@, "E♭"@, "B♭"@,
        "F"@, "C"@, "G"@, "D"@, "A"@, "E"@, "B"@,
        "F♯"@, "C♯"@, "G♯"@, "D♯"@, "A♯"@, "E♯"@, "B♯"@,
        "F♯♯"@, "C♯♯"@, "G♯♯"@, "D♯♯"@, "A♯♯"@, "E♯♯"@, "B♯♯"@,
    ]
}

/// The display name of a spelling code: a table entry for codes in
/// `-1..=33`, the literal placeholder string for anything else.
pub open spec fn spec_note_name(tpc: i8) -> Seq<char> {
    if -1 <= tpc <= 33 {
        spec_tpc_names()[tpc + 1]
    } else {
        "Invalid TPC"@
    }
}

/// MIDI octave number: the pitch reinterpreted as a signed byte, divided by
/// twelve truncating toward zero, minus one (pitch 60 lies in octave 4).
pub open spec fn spec_octave(midi: u8) -> int {
    let s: int = if midi >= 128 {
        midi - 256
    } else {
        midi as int
    };
    (if s >= 0 {
        s / 12
    } else {
        -((-s) / 12)
    }) - 1
}

fn note_name_str(tpc: i8) -> (r: &'static str)
    ensures
        r@ == spec_note_name(tpc),
{
    if tpc >= -1 && tpc <= 33 {
        match tpc {
            -1 => "F♭♭",
            0 => "C♭♭",
            1 => "G♭♭",
            2 => "D♭♭",
            3 => "A♭♭",
            4 => "E♭♭",
            5 => "B♭♭",
            6 => "F♭",
            7 => "C♭",
            8 => "G♭",
            9 => "D♭",
            10 => "A♭",
            11 => "E♭",
            12 => "B♭",
            13 => "F",
            14 => "C",
            15 => "G",
            16 => "D",
            17 => "A",
            18 => "E",
            19 => "B",
            20 => "F♯",
            21 => "C♯",
            22 => "G♯",
            23 => "D♯",
            24 => "A♯",
            25 => "E♯",
            26 => "B♯",
            27 => "F♯♯",
            28 => "C♯♯",
            29 => "G♯♯",
            30 => "D♯♯",
            31 => "A♯♯",
            32 => "E♯♯",
            _ => "B♯♯",
        }
    } else {
        "Invalid TPC"
    }
}

/// The decimal rendering of an octave number.
pub open spec fn spec_octave_str(o: int) -> Seq<char> {
    if o == -11 {
        "-11"@
    } else if o == -10 {
        "-10"@
    } else if o == -9 {
        "-9"@
    } else if o == -8 {
        "-8"@
    } else if o == -7 {
        "-7"@
    } else if o == -6 {
        "-6"@
    } else if o == -5 {
        "-5"@
    } else if o == -4 {
        "-4"@
    } else if o == -3 {
        "-3"@
    } else if o == -2 {
        "-2"@
    } else if o == -1 {
        "-1"@
    } else if o == 0 {
        "0"@
    } else if o == 1 {
        "1"@
    } else if o == 2 {
        "2"@
    } else if o == 3 {
        "3"@
    } else if o == 4 {
        "4"@
    } else if o == 5 {
        "5"@
    } else if o == 6 {
        "6"@
    } else if o == 7 {
        "7"@
    } else if o == 8 {
        "8"@
    } else if o == 9 {
        "9"@
    } else {
        Seq::empty()
    }
}

fn octave_str(o: i8) -> (r: &'static str)
    requires
        -11 <= o <= 9,
    ensures
        r@ == spec_octave_str(o as int),
{
    match o {
        -11 => "-11",
        -10 => "-10",
        -9 => "-9",
        -8 => "-8",
        -7 => "-7",
        -6 => "-6",
        -5 => "-5",
        -4 => "-4",
        -3 => "-3",
        -2 => "-2",
        -1 => "-1",
        0 => "0",
        1 => "1",
        2 => "2",
        3 => "3",
        4 => "4",
        5 => "5",
        6 => "6",
        7 => "7",
        8 => "8",
        _ => "9",
    }
}

/// The full display label of a pitch: spelling name followed by octave.
pub open spec fn spec_note_label(midi: u8, tpc: i8) -> Seq<char> {
    spec_note_name(tpc) + spec_octave_str(spec_octave(midi))
}

/// Render the display label of a pitch, name and octave joined.
pub fn note_label(midi: u8, tpc: i8) -> (r: String)
    ensures
        r@ == spec_note_label(midi, tpc),
{
    let (name, oct) = midi_to_note_and_octave_with_tpc(midi, tpc);
    name.concat(octave_str(oct))
}

fn octave_of(midi: u8) -> (r: i8)
    ensures
        r as int == spec_octave(midi),
        -11 <= r <= 9,
{
    let signed: i32 = if midi >= 128 {
        midi as i32 - 256
    } else {
        midi as i32
    };
    let oct: i32 = if signed >= 0 {
        signed / 12 - 1
    } else {
        -((0 - signed) / 12) - 1
    };
    oct as i8
}

/// Derive the display note name and octave of a MIDI pitch from its
/// pitch-class spelling code.
pub fn midi_to_note_and_octave_with_tpc(midi: u8, tpc: i8) -> (r: (String, i8))
    ensures
        r.0@ == spec_note_name(tpc),
        r.1 as int == spec_octave(midi),
{
    (String::from_str(note_name_str(tpc)), octave_of(midi))
}

} // verus!
