//! Score structure builder: walk the event stream restricted to one staff
//! id, reconstructing measures, time signatures, chords, rests and notes,
//! transposing every pitch and annotating it with its distance from the
//! nearest scale pitch.

use vstd::prelude::*;
use crate::events::{events_view, ev_view, lemma_events_view_index, lemma_events_view_len,
    AttrFetch, AttrV, ParseError, XmlEv, XmlEvV};
use crate::matcher::{nearest_scale_match, note_label, spec_nearest, spec_note_label};
use crate::text::{parse_i8, parse_unsigned, spec_parse_i8, spec_parse_unsigned, spec_trim, str_eq, trim_str};
use crate::transpose::{
    find_best_transposition_with_harmonic_context, spec_best_shift, spec_transpose,
    transpose_pitch_and_tpc,
};
use crate::xml::{doc_events, doc_fails, tokenize};

verus! {

/// One note entry as produced for the renderer: pitch, display label,
/// duration label, signed delta to the nearest scale pitch, and the scale
/// index on an exact hit.
pub type NoteEntry = (u32, String, String, i32, Option<usize>);

/// One measure: 1-based number, time signature text, chord-groups.
pub type Measure = (u32, String, Vec<Vec<NoteEntry>>);

/// The mathematical value of a note entry.
pub struct NoteV {
    pub pitch: int,
    pub label: Seq<char>,
    pub duration: Seq<char>,
    pub delta: int,
    pub index: Option<int>,
}

/// The mathematical value of a measure.
pub struct MeasureV {
    pub number: int,
    pub sig: Seq<char>,
    pub chords: Seq<Seq<NoteV>>,
}

pub open spec fn note_view(n: NoteEntry) -> NoteV {
    NoteV {
        pitch: n.0 as int,
        label: n.1@,
        duration: n.2@,
        delta: n.3 as int,
        index: match n.4 {
            Some(u) => Some(u as int),
            None => None,
        },
    }
}

pub open spec fn chord_view(c: Seq<NoteEntry>) -> Seq<NoteV>
    decreases c.len(),
{
    if c.len() == 0 {
        Seq::empty()
    } else {
        chord_view(c.drop_last()).push(note_view(c.last()))
    }
}

pub open spec fn chords_view(cs: Seq<Vec<NoteEntry>>) -> Seq<Seq<NoteV>>
    decreases cs.len(),
{
    if cs.len() == 0 {
        Seq::empty()
    } else {
        chords_view(cs.drop_last()).push(chord_view(cs.last()@))
    }
}

pub open spec fn measure_view(m: Measure) -> MeasureV {
    MeasureV { number: m.0 as int, sig: m.1@, chords: chords_view(m.2@) }
}

pub open spec fn measures_view(ms: Seq<Measure>) -> Seq<MeasureV>
    decreases ms.len(),
{
    if ms.len() == 0 {
        Seq::empty()
    } else {
        measures_view(ms.drop_last()).push(measure_view(ms.last()))
    }
}

/// Where in the element nesting the walk stands: the expectation modes
/// consume exactly one event (the text of the element just opened),
/// mirroring a reader that reads one event and checks whether it is text.
#[derive(Clone, Copy, PartialEq, Eq, Structural)]
pub enum ScoreMode {
    Normal,
    InTimeSig,
    SigNText,
    SigDText,
    DurText,
    InNote,
    PitchText,
    TpcText,
}

/// The builder's whole state between events.
pub struct ScoreState {
    pub mode: ScoreMode,
    pub in_staff: bool,
    pub measures: Seq<MeasureV>,
    pub cur_duration: Option<Seq<char>>,
    pub cur_sig: Seq<char>,
    pub sig_n: Seq<char>,
    pub sig_d: Seq<char>,
    pub history: Seq<u8>,
    pub measure_chords: Seq<Seq<NoteV>>,
    pub chord_notes: Seq<NoteV>,
    pub final_shift: int,
    pub measure_id: int,
    pub note_pitch: Option<u8>,
    pub note_tpc: Option<i8>,
}

pub open spec fn spec_score_init(manual: i32) -> ScoreState {
    ScoreState {
        mode: ScoreMode::Normal,
        in_staff: false,
        measures: Seq::empty(),
        cur_duration: None,
        cur_sig: Seq::empty(),
        sig_n: Seq::empty(),
        sig_d: Seq::empty(),
        history: Seq::empty(),
        measure_chords: Seq::empty(),
        chord_notes: Seq::empty(),
        final_shift: manual as int,
        measure_id: 0,
        note_pitch: None,
        note_tpc: None,
    }
}

/// The synthetic single entry a rest produces: pitch 0, label "Rest", the
/// rest's duration, delta 0 and no scale index.
pub open spec fn spec_rest_note(d: Seq<char>) -> NoteV {
    NoteV { pitch: 0, label: "Rest"@, duration: d, delta: 0, index: None }
}

/// Close a note element: on a captured pitch the effective shift is
/// derived (a fresh best-shift search over the whole pitch history in auto
/// mode, the manual value otherwise) and recorded as the final shift; a
/// note without a pitch-class spelling is skipped after that; otherwise
/// the transposed pitch is labelled, matched against the scale, and
/// appended to the open chord-group if a duration is in scope.
pub open spec fn spec_close_note(
    st: ScoreState,
    scale: Seq<u8>,
    auto: bool,
    manual: i32,
) -> ScoreState {
    match st.note_pitch {
        None => ScoreState { mode: ScoreMode::Normal, ..st },
        Some(p) => {
            let shift: int = if auto {
                spec_best_shift(st.history, scale)
            } else {
                manual as int
            };
            let st1 = ScoreState { mode: ScoreMode::Normal, final_shift: shift, ..st };
            match spec_transpose(p, st.note_tpc, shift) {
                None => st1,
                Some(tt) => {
                    let label = spec_note_label(tt.0, tt.1);
                    let near = spec_nearest(tt.0 as int, scale);
                    let index: Option<int> = if near.0 == 0 {
                        near.1
                    } else {
                        None
                    };
                    match st.cur_duration {
                        None => st1,
                        Some(d) => ScoreState {
                            chord_notes: st1.chord_notes.push(
                                NoteV {
                                    pitch: tt.0 as int,
                                    label,
                                    duration: d,
                                    delta: near.0,
                                    index,
                                },
                            ),
                            ..st1
                        },
                    }
                },
            }
        },
    }
}

/// One event of the walk; an error is a malformed or non-numeric `Staff`
/// id or undecodable text where an element's value was expected.
pub open spec fn spec_score_step(
    st: ScoreState,
    ev: XmlEvV,
    part_id: u32,
    scale: Seq<u8>,
    auto: bool,
    manual: i32,
) -> Result<ScoreState, ParseError> {
    match st.mode {
        ScoreMode::SigNText => match ev {
            XmlEvV::Text(ot) => match ot {
                Some(s) => Ok(
                    ScoreState { sig_n: spec_trim(s), mode: ScoreMode::InTimeSig, ..st },
                ),
                None => Err(ParseError),
            },
            _ => Ok(ScoreState { mode: ScoreMode::InTimeSig, ..st }),
        },
        ScoreMode::SigDText => match ev {
            XmlEvV::Text(ot) => match ot {
                Some(s) => Ok(
                    ScoreState { sig_d: spec_trim(s), mode: ScoreMode::InTimeSig, ..st },
                ),
                None => Err(ParseError),
            },
            _ => Ok(ScoreState { mode: ScoreMode::InTimeSig, ..st }),
        },
        ScoreMode::DurText => match ev {
            XmlEvV::Text(ot) => match ot {
                Some(s) => Ok(
                    ScoreState {
                        cur_duration: Some(spec_trim(s)),
                        mode: ScoreMode::Normal,
                        ..st
                    },
                ),
                None => Err(ParseError),
            },
            _ => Ok(ScoreState { mode: ScoreMode::Normal, ..st }),
        },
        ScoreMode::PitchText => match ev {
            XmlEvV::Text(ot) => match ot {
                Some(s) => match spec_parse_unsigned(spec_trim(s), 255) {
                    Some(v) => Ok(
                        ScoreState {
                            note_pitch: Some(v as u8),
                            history: st.history.push(v as u8),
                            mode: ScoreMode::InNote,
                            ..st
                        },
                    ),
                    None => Ok(
                        ScoreState { note_pitch: None, mode: ScoreMode::InNote, ..st },
                    ),
                },
                None => Err(ParseError),
            },
            _ => Ok(ScoreState { mode: ScoreMode::InNote, ..st }),
        },
        ScoreMode::TpcText => match ev {
            XmlEvV::Text(ot) => match ot {
                Some(s) => Ok(
                    ScoreState {
                        note_tpc: spec_parse_i8(spec_trim(s)),
                        mode: ScoreMode::InNote,
                        ..st
                    },
                ),
                None => Err(ParseError),
            },
            _ => Ok(ScoreState { mode: ScoreMode::InNote, ..st }),
        },
        ScoreMode::InTimeSig => match ev {
            XmlEvV::Start(name, _ia, _na) => {
                if name == "sigN"@ {
                    Ok(ScoreState { mode: ScoreMode::SigNText, ..st })
                } else if name == "sigD"@ {
                    Ok(ScoreState { mode: ScoreMode::SigDText, ..st })
                } else {
                    Ok(st)
                }
            },
            XmlEvV::End(name) => {
                if name == "TimeSig"@ {
                    Ok(
                        ScoreState {
                            cur_sig: st.sig_n + "|"@ + st.sig_d,
                            mode: ScoreMode::Normal,
                            ..st
                        },
                    )
                } else {
                    Ok(st)
                }
            },
            _ => Ok(st),
        },
        ScoreMode::InNote => match ev {
            XmlEvV::Start(name, _ia, _na) => {
                if name == "pitch"@ {
                    Ok(ScoreState { mode: ScoreMode::PitchText, ..st })
                } else if name == "tpc"@ {
                    Ok(ScoreState { mode: ScoreMode::TpcText, ..st })
                } else {
                    Ok(st)
                }
            },
            XmlEvV::End(name) => {
                if name == "Note"@ {
                    Ok(spec_close_note(st, scale, auto, manual))
                } else {
                    Ok(st)
                }
            },
            _ => Ok(st),
        },
        ScoreMode::Normal => match ev {
            XmlEvV::Start(name, id_attr, _na) => {
                if name == "Staff"@ {
                    match id_attr {
                        AttrV::Missing => Ok(st),
                        AttrV::Malformed => Err(ParseError),
                        AttrV::Value(v) => match spec_parse_unsigned(
                            v,
                            u32::MAX as int,
                        ) {
                            None => Err(ParseError),
                            Some(id) => {
                                if id == part_id {
                                    Ok(ScoreState { in_staff: true, ..st })
                                } else {
                                    Ok(st)
                                }
                            },
                        },
                    }
                } else if !st.in_staff {
                    Ok(st)
                } else if name == "Measure"@ {
                    Ok(
                        ScoreState {
                            measure_id: st.measure_id + 1,
                            measures: st.measures.push(
                                MeasureV {
                                    number: st.measure_id + 1,
                                    sig: Seq::empty(),
                                    chords: Seq::empty(),
                                },
                            ),
                            cur_sig: Seq::empty(),
                            measure_chords: Seq::empty(),
                            ..st
                        },
                    )
                } else if name == "TimeSig"@ {
                    Ok(
                        ScoreState {
                            sig_n: Seq::empty(),
                            sig_d: Seq::empty(),
                            mode: ScoreMode::InTimeSig,
                            ..st
                        },
                    )
                } else if name == "Chord"@ {
                    Ok(ScoreState { cur_duration: None, chord_notes: Seq::empty(), ..st })
                } else if name == "Rest"@ {
                    Ok(ScoreState { cur_duration: None, chord_notes: Seq::empty(), ..st })
                } else if name == "durationType"@ {
                    Ok(ScoreState { mode: ScoreMode::DurText, ..st })
                } else if name == "Note"@ {
                    Ok(
                        ScoreState {
                            note_pitch: None,
                            note_tpc: None,
                            mode: ScoreMode::InNote,
                            ..st
                        },
                    )
                } else {
                    Ok(st)
                }
            },
            XmlEvV::End(name) => {
                if name == "Staff"@ {
                    if st.in_staff {
                        Ok(ScoreState { in_staff: false, ..st })
                    } else {
                        Ok(st)
                    }
                } else if !st.in_staff {
                    Ok(st)
                } else if name == "Measure"@ {
                    if st.measures.len() > 0 {
                        let last = st.measures.last();
                        Ok(
                            ScoreState {
                                measures: st.measures.update(
                                    st.measures.len() - 1,
                                    MeasureV {
                                        number: last.number,
                                        sig: st.cur_sig,
                                        chords: st.measure_chords,
                                    },
                                ),
                                ..st
                            },
                        )
                    } else {
                        Ok(st)
                    }
                } else if name == "Chord"@ {
                    if st.chord_notes.len() > 0 {
                        Ok(
                            ScoreState {
                                measure_chords: st.measure_chords.push(st.chord_notes),
                                ..st
                            },
                        )
                    } else {
                        Ok(st)
                    }
                } else if name == "Rest"@ {
                    match st.cur_duration {
                        Some(d) => {
                            let with_rest = st.chord_notes.push(spec_rest_note(d));
                            Ok(
                                ScoreState {
                                    chord_notes: with_rest,
                                    measure_chords: st.measure_chords.push(with_rest),
                                    ..st
                                },
                            )
                        },
                        None => Ok(st),
                    }
                } else {
                    Ok(st)
                }
            },
            _ => Ok(st),
        },
    }
}

/// The state after the first `i` events; an error stops the walk.
pub open spec fn spec_score_run(
    events: Seq<XmlEvV>,
    i: int,
    part_id: u32,
    scale: Seq<u8>,
    auto: bool,
    manual: i32,
) -> Result<ScoreState, ParseError>
    decreases i,
{
    if i <= 0 {
        Ok(spec_score_init(manual))
    } else {
        match spec_score_run(events, i - 1, part_id, scale, auto, manual) {
            Ok(st) => spec_score_step(st, events[i - 1], part_id, scale, auto, manual),
            Err(e) => Err(e),
        }
    }
}

/// What the builder yields over a whole event stream: the measure list and
/// the effective shift used for the last processed note.
pub open spec fn spec_score(
    events: Seq<XmlEvV>,
    part_id: u32,
    scale: Seq<u8>,
    auto: bool,
    manual: i32,
) -> Result<(Seq<MeasureV>, int), ParseError> {
    match spec_score_run(events, events.len() as int, part_id, scale, auto, manual) {
        Ok(st) => Ok((st.measures, st.final_shift)),
        Err(e) => Err(e),
    }
}

proof fn lemma_score_run_err(
    events: Seq<XmlEvV>,
    i: int,
    j: int,
    part_id: u32,
    scale: Seq<u8>,
    auto: bool,
    manual: i32,
)
    requires
        0 <= i <= j,
        spec_score_run(events, i, part_id, scale, auto, manual) is Err,
    ensures
        spec_score_run(events, j, part_id, scale, auto, manual) == spec_score_run(
            events,
            i,
            part_id,
            scale,
            auto,
            manual,
        ),
    decreases j - i,
{
    if j > i {
        lemma_score_run_err(events, i, j - 1, part_id, scale, auto, manual);
    }
}

/// An element-wise copy of a chord-group.
fn clone_notes(v: &Vec<NoteEntry>) -> (r: Vec<NoteEntry>)
    ensures
        r@ == v@,
{
    let mut r: Vec<NoteEntry> = Vec::new();
    let n = v.len();
    let mut i: usize = 0;
    while i < n
        invariant
            0 <= i <= n,
            n == v@.len(),
            r@ == v@.take(i as int),
        decreases n - i,
    {
        let e = (v[i].0, v[i].1.clone(), v[i].2.clone(), v[i].3, v[i].4);
        r.push(e);
        proof {
            assert(e == v@[i as int]);
            assert(r@ =~= v@.take(i + 1));
        }
        i += 1;
    }
    proof {
        assert(v@.take(n as int) =~= v@);
    }
    r
}

/// An element-wise copy of a chord-group list, equal under the view.
fn clone_chords(v: &Vec<Vec<NoteEntry>>) -> (r: Vec<Vec<NoteEntry>>)
    ensures
        chords_view(r@) == chords_view(v@),
{
    let mut r: Vec<Vec<NoteEntry>> = Vec::new();
    let n = v.len();
    let mut i: usize = 0;
    while i < n
        invariant
            0 <= i <= n,
            n == v@.len(),
            chords_view(r@) == chords_view(v@.take(i as int)),
        decreases n - i,
    {
        let ghost before = r@;
        let e = clone_notes(&v[i]);
        r.push(e);
        proof {
            assert(r@.drop_last() =~= before);
            assert(chords_view(r@) == chords_view(before).push(chord_view(e@)));
            assert(v@.take(i + 1).drop_last() =~= v@.take(i as int));
            assert(v@.take(i + 1).last() == v@[i as int]);
            assert(chord_view(e@) == chord_view(v@[i as int]@));
        }
        i += 1;
    }
    proof {
        assert(v@.take(n as int) =~= v@);
    }
    r
}

/// Build the measure list of one staff from an event stream, applying the
/// fixed shift, or in auto mode a best-shift search re-derived per note
/// over the pitch history so far. Succeeds if and only if no `Staff` start
/// carries a malformed or non-numeric id and no expected element text is
/// undecodable; the result then is exactly the walk's measure list and the
/// shift used for the last processed note (the manual shift when no note
/// was processed).
pub fn score_from_events(
    events: &Vec<XmlEv>,
    part_id: u32,
    scale_notes: &[u8],
    auto_transpose: bool,
    transpose_value: i32,
) -> (r: Result<(Vec<Measure>, i32), ParseError>)
    requires
        events@.len() <= u32::MAX,
    ensures
        match r {
            Ok(p) => spec_score(
                events_view(events@),
                part_id,
                scale_notes@,
                auto_transpose,
                transpose_value,
            ) == Ok::<_, ParseError>((measures_view(p.0@), p.1 as int)),
            Err(e) => spec_score(
                events_view(events@),
                part_id,
                scale_notes@,
                auto_transpose,
                transpose_value,
            ) == Err::<(Seq<MeasureV>, int), _>(e),
        },
{
    proof {
        lemma_events_view_len(events@);
    }
    let mut mode = ScoreMode::Normal;
    let mut in_staff = false;
    let mut measures: Vec<Measure> = Vec::new();
    let mut cur_duration: Option<String> = None;
    let mut cur_sig = String::new();
    let mut sig_n = String::new();
    let mut sig_d = String::new();
    let mut history: Vec<u8> = Vec::new();
    let mut measure_chords: Vec<Vec<NoteEntry>> = Vec::new();
    let mut chord_notes: Vec<NoteEntry> = Vec::new();
    let mut final_shift: i32 = transpose_value;
    let mut measure_id: u32 = 0;
    let mut note_pitch: Option<u8> = None;
    let mut note_tpc: Option<i8> = None;

    let n = events.len();
    let mut i: usize = 0;
    while i < n
        invariant
            0 <= i <= n,
            n == events@.len(),
            n <= u32::MAX,
            measure_id <= i,
            spec_score_run(
                events_view(events@),
                i as int,
                part_id,
                scale_notes@,
                auto_transpose,
                transpose_value,
            ) matches Ok(st) && st.mode == mode && st.in_staff == in_staff && st.measures
                == measures_view(measures@) && st.cur_duration == (match cur_duration {
                Some(d) => Some(d@),
                None => None::<Seq<char>>,
            }) && st.cur_sig == cur_sig@ && st.sig_n == sig_n@ && st.sig_d == sig_d@ && st.history
                == history@ && st.measure_chords == chords_view(measure_chords@) && st.chord_notes
                == chord_view(chord_notes@) && st.final_shift == final_shift as int
                && st.measure_id == measure_id as int && st.note_pitch == note_pitch && st.note_tpc
                == note_tpc,
        decreases n - i,
    {
        let ghost pre = spec_score_run(
            events_view(events@),
            i as int,
            part_id,
            scale_notes@,
            auto_transpose,
            transpose_value,
        )->Ok_0;
        proof {
            lemma_events_view_index(events@, i as int);
            assert(spec_score_run(
                events_view(events@),
                i + 1,
                part_id,
                scale_notes@,
                auto_transpose,
                transpose_value,
            ) == spec_score_step(
                pre,
                ev_view(events@[i as int]),
                part_id,
                scale_notes@,
                auto_transpose,
                transpose_value,
            ));
        }
        let ev = &events[i];
        match mode {
            ScoreMode::SigNText => {
                match ev {
                    XmlEv::Text(ot) => match ot {
                        Some(s) => {
                            sig_n = trim_str(s.as_str());
                            mode = ScoreMode::InTimeSig;
                        },
                        None => {
                            proof {
                                lemma_score_run_err(
                                    events_view(events@),
                                    i + 1,
                                    n as int,
                                    part_id,
                                    scale_notes@,
                                    auto_transpose,
                                    transpose_value,
                                );
                            }
                            return Err(ParseError);
                        },
                    },
                    _ => {
                        mode = ScoreMode::InTimeSig;
                    },
                }
            },
            ScoreMode::SigDText => {
                match ev {
                    XmlEv::Text(ot) => match ot {
                        Some(s) => {
                            sig_d = trim_str(s.as_str());
                            mode = ScoreMode::InTimeSig;
                        },
                        None => {
                            proof {
                                lemma_score_run_err(
                                    events_view(events@),
                                    i + 1,
                                    n as int,
                                    part_id,
                                    scale_notes@,
                                    auto_transpose,
                                    transpose_value,
                                );
                            }
                            return Err(ParseError);
                        },
                    },
                    _ => {
                        mode = ScoreMode::InTimeSig;
                    },
                }
            },
            ScoreMode::DurText => {
                match ev {
                    XmlEv::Text(ot) => match ot {
                        Some(s) => {
                            cur_duration = Some(trim_str(s.as_str()));
                            mode = ScoreMode::Normal;
                        },
                        None => {
                            proof {
                                lemma_score_run_err(
                                    events_view(events@),
                                    i + 1,
                                    n as int,
                                    part_id,
                                    scale_notes@,
                                    auto_transpose,
                                    transpose_value,
                                );
                            }
                            return Err(ParseError);
                        },
                    },
                    _ => {
                        mode = ScoreMode::Normal;
                    },
                }
            },
            ScoreMode::PitchText => {
                match ev {
                    XmlEv::Text(ot) => match ot {
                        Some(s) => {
                            let t = trim_str(s.as_str());
                            match parse_unsigned(t.as_str(), 255) {
                                Some(v) => {
                                    let pv = v as u8;
                                    note_pitch = Some(pv);
                                    history.push(pv);
                                },
                                None => {
                                    note_pitch = None;
                                },
                            }
                            mode = ScoreMode::InNote;
                        },
                        None => {
                            proof {
                                lemma_score_run_err(
                                    events_view(events@),
                                    i + 1,
                                    n as int,
                                    part_id,
                                    scale_notes@,
                                    auto_transpose,
                                    transpose_value,
                                );
                            }
                            return Err(ParseError);
                        },
                    },
                    _ => {
                        mode = ScoreMode::InNote;
                    },
                }
            },
            ScoreMode::TpcText => {
                match ev {
                    XmlEv::Text(ot) => match ot {
                        Some(s) => {
                            let t = trim_str(s.as_str());
                            note_tpc = parse_i8(t.as_str());
                            mode = ScoreMode::InNote;
                        },
                        None => {
                            proof {
                                lemma_score_run_err(
                                    events_view(events@),
                                    i + 1,
                                    n as int,
                                    part_id,
                                    scale_notes@,
                                    auto_transpose,
                                    transpose_value,
                                );
                            }
                            return Err(ParseError);
                        },
                    },
                    _ => {
                        mode = ScoreMode::InNote;
                    },
                }
            },
            ScoreMode::InTimeSig => {
                match ev {
                    XmlEv::Start(name, _ia, _na) => {
                        if str_eq(name.as_str(), "sigN") {
                            mode = ScoreMode::SigNText;
                        } else if str_eq(name.as_str(), "sigD") {
                            mode = ScoreMode::SigDText;
                        }
                    },
                    XmlEv::End(name) => {
                        if str_eq(name.as_str(), "TimeSig") {
                            cur_sig = sig_n.clone().concat("|").concat(sig_d.as_str());
                            mode = ScoreMode::Normal;
                        }
                    },
                    _ => {},
                }
            },
            ScoreMode::InNote => {
                match ev {
                    XmlEv::Start(name, _ia, _na) => {
                        if str_eq(name.as_str(), "pitch") {
                            mode = ScoreMode::PitchText;
                        } else if str_eq(name.as_str(), "tpc") {
                            mode = ScoreMode::TpcText;
                        }
                    },
                    XmlEv::End(name) => {
                        if str_eq(name.as_str(), "Note") {
                            match note_pitch {
                                None => {
                                    mode = ScoreMode::Normal;
                                },
                                Some(p) => {
                                    let shift: i32 = if auto_transpose {
                                        find_best_transposition_with_harmonic_context(
                                            history.as_slice(),
                                            scale_notes,
                                        )
                                    } else {
                                        transpose_value
                                    };
                                    final_shift = shift;
                                    match transpose_pitch_and_tpc(p, note_tpc, shift) {
                                        None => {
                                            mode = ScoreMode::Normal;
                                        },
                                        Some(tt) => {
                                            let label = note_label(tt.0, tt.1);
                                            let near = nearest_scale_match(tt.0, scale_notes);
                                            match &cur_duration {
                                                Some(d) => {
                                                    let ghost before = chord_notes@;
                                                    let e = (
                                                        tt.0 as u32,
                                                        label,
                                                        d.clone(),
                                                        near.0,
                                                        near.1,
                                                    );
                                                    chord_notes.push(e);
                                                    proof {
                                                        assert(chord_notes@.drop_last()
                                                            =~= before);
                                                        assert(chord_view(chord_notes@)
                                                            == chord_view(before).push(
                                                            note_view(e),
                                                        ));
                                                    }
                                                },
                                                None => {},
                                            }
                                            mode = ScoreMode::Normal;
                                        },
                                    }
                                },
                            }
                        }
                    },
                    _ => {},
                }
            },
            ScoreMode::Normal => {
                match ev {
                    XmlEv::Start(name, id_attr, _na) => {
                        if str_eq(name.as_str(), "Staff") {
                            match id_attr {
                                AttrFetch::Missing => {},
                                AttrFetch::Malformed => {
                                    proof {
                                        lemma_score_run_err(
                                            events_view(events@),
                                            i + 1,
                                            n as int,
                                            part_id,
                                            scale_notes@,
                                            auto_transpose,
                                            transpose_value,
                                        );
                                    }
                                    return Err(ParseError);
                                },
                                AttrFetch::Value(v) => {
                                    match parse_unsigned(v.as_str(), u32::MAX) {
                                        None => {
                                            proof {
                                                lemma_score_run_err(
                                                    events_view(events@),
                                                    i + 1,
                                                    n as int,
                                                    part_id,
                                                    scale_notes@,
                                                    auto_transpose,
                                                    transpose_value,
                                                );
                                            }
                                            return Err(ParseError);
                                        },
                                        Some(id) => {
                                            if id == part_id {
                                                in_staff = true;
                                            }
                                        },
                                    }
                                },
                            }
                        } else if !in_staff {
                        } else if str_eq(name.as_str(), "Measure") {
                            measure_id = measure_id + 1;
                            let ghost before = measures@;
                            measures.push((measure_id, String::new(), Vec::new()));
                            cur_sig = String::new();
                            measure_chords = Vec::new();
                            proof {
                                assert(measures@.drop_last() =~= before);
                                assert(measures_view(measures@) == measures_view(before).push(
                                    measure_view(measures@.last()),
                                ));
                                assert(chords_view(Seq::<Vec<NoteEntry>>::empty())
                                    =~= Seq::<Seq<NoteV>>::empty());
                            }
                        } else if str_eq(name.as_str(), "TimeSig") {
                            sig_n = String::new();
                            sig_d = String::new();
                            mode = ScoreMode::InTimeSig;
                        } else if str_eq(name.as_str(), "Chord") {
                            cur_duration = None;
                            chord_notes = Vec::new();
                        } else if str_eq(name.as_str(), "Rest") {
                            cur_duration = None;
                            chord_notes = Vec::new();
                        } else if str_eq(name.as_str(), "durationType") {
                            mode = ScoreMode::DurText;
                        } else if str_eq(name.as_str(), "Note") {
                            note_pitch = None;
                            note_tpc = None;
                            mode = ScoreMode::InNote;
                        }
                    },
                    XmlEv::End(name) => {
                        if str_eq(name.as_str(), "Staff") {
                            if in_staff {
                                in_staff = false;
                            }
                        } else if !in_staff {
                        } else if str_eq(name.as_str(), "Measure") {
                            if measures.len() > 0 {
                                let ghost before = measures@;
                                match measures.pop() {
                                    Some(last) => {
                                        let m = (
                                            last.0,
                                            cur_sig.clone(),
                                            clone_chords(&measure_chords),
                                        );
                                        measures.push(m);
                                        proof {
                                            assert(measures@.drop_last() =~= before.drop_last());
                                            assert(measures_view(measures@) == measures_view(
                                                before.drop_last(),
                                            ).push(measure_view(measures@.last())));
                                            assert(measures_view(before) == measures_view(
                                                before.drop_last(),
                                            ).push(measure_view(before.last())));
                                            assert(measures_view(before).update(
                                                measures_view(before).len() - 1,
                                                measure_view(measures@.last()),
                                            ) =~= measures_view(measures@));
                                        }
                                    },
                                    None => {},
                                }
                            }
                        } else if str_eq(name.as_str(), "Chord") {
                            if chord_notes.len() > 0 {
                                let ghost before = measure_chords@;
                                let copy = clone_notes(&chord_notes);
                                measure_chords.push(copy);
                                proof {
                                    assert(measure_chords@.drop_last() =~= before);
                                    assert(chords_view(measure_chords@) == chords_view(
                                        before,
                                    ).push(chord_view(chord_notes@)));
                                }
                            }
                        } else if str_eq(name.as_str(), "Rest") {
                            match &cur_duration {
                                Some(d) => {
                                    let ghost nbefore = chord_notes@;
                                    let e = (
                                        0u32,
                                        String::from_str("Rest"),
                                        d.clone(),
                                        0i32,
                                        None::<usize>,
                                    );
                                    chord_notes.push(e);
                                    proof {
                                        assert(chord_notes@.drop_last() =~= nbefore);
                                        assert(chord_view(chord_notes@) == chord_view(
                                            nbefore,
                                        ).push(note_view(e)));
                                        assert(note_view(e) == spec_rest_note(d@));
                                    }
                                    let ghost cbefore = measure_chords@;
                                    let copy = clone_notes(&chord_notes);
                                    measure_chords.push(copy);
                                    proof {
                                        assert(measure_chords@.drop_last() =~= cbefore);
                                        assert(chords_view(measure_chords@) == chords_view(
                                            cbefore,
                                        ).push(chord_view(chord_notes@)));
                                    }
                                },
                                None => {},
                            }
                        }
                    },
                    _ => {},
                }
            },
        }
        i += 1;
    }
    Ok((measures, final_shift))
}

/// Sequential measure numbering: the id counter equals the number of
/// measures seen, and the measure at position `k` bears number `k + 1`.
pub open spec fn spec_numbering_ok(st: ScoreState) -> bool {
    st.measure_id == st.measures.len() && forall|k: int|
        0 <= k < st.measures.len() ==> #[trigger] st.measures[k].number == k + 1
}

proof fn lemma_numbering_run(
    events: Seq<XmlEvV>,
    i: int,
    part_id: u32,
    scale: Seq<u8>,
    auto: bool,
    manual: i32,
)
    requires
        0 <= i,
        spec_score_run(events, i, part_id, scale, auto, manual) is Ok,
    ensures
        spec_numbering_ok(spec_score_run(events, i, part_id, scale, auto, manual)->Ok_0),
    decreases i,
{
    if i > 0 {
        lemma_numbering_run(events, i - 1, part_id, scale, auto, manual);
    }
}

/// Measure numbering law: in any successful build, the measures carry the
/// numbers 1, 2, 3, … in order — the number is incremented exactly once
/// per `Measure` start inside the target staff, whether or not that
/// measure yields any notes.
pub proof fn lemma_measure_numbering(
    events: Seq<XmlEvV>,
    part_id: u32,
    scale: Seq<u8>,
    auto: bool,
    manual: i32,
)
    requires
        spec_score(events, part_id, scale, auto, manual) is Ok,
    ensures
        forall|k: int|
            0 <= k < spec_score(events, part_id, scale, auto, manual)->Ok_0.0.len()
                ==> #[trigger] spec_score(events, part_id, scale, auto, manual)->Ok_0.0[k].number
                == k + 1,
{
    lemma_numbering_run(events, events.len() as int, part_id, scale, auto, manual);
}

proof fn lemma_measures_view_len(ms: Seq<Measure>)
    ensures
        measures_view(ms).len() == ms.len(),
    decreases ms.len(),
{
    if ms.len() > 0 {
        lemma_measures_view_len(ms.drop_last());
    }
}

proof fn lemma_measures_view_index(ms: Seq<Measure>, k: int)
    requires
        0 <= k < ms.len(),
    ensures
        measures_view(ms).len() == ms.len(),
        measures_view(ms)[k] == measure_view(ms[k]),
    decreases ms.len(),
{
    lemma_measures_view_len(ms);
    if k < ms.len() - 1 {
        lemma_measures_view_index(ms.drop_last(), k);
        assert(ms.drop_last()[k] == ms[k]);
    }
}

/// Build the measure list of one staff of a document: exactly the walk
/// over the document's event stream. It fails on malformed markup, on a
/// malformed or non-numeric staff id, on undecodable element text where a
/// value was expected, and on a stream too long for the measure counter;
/// no partial result is returned. A successful result carries
/// sequentially numbered measures and the effective shift used for the
/// last processed note.
pub fn parse_mscx_score(
    xml: &str,
    part_id: u32,
    scale_notes: &[u8],
    auto_transpose: bool,
    transpose_value: i32,
) -> (r: Result<(Vec<Measure>, i32), ParseError>)
    ensures
        r matches Ok(p) ==> !doc_fails(xml@) && spec_score(
            doc_events(xml@),
            part_id,
            scale_notes@,
            auto_transpose,
            transpose_value,
        ) == Ok::<_, ParseError>((measures_view(p.0@), p.1 as int)),
        r is Err <==> doc_fails(xml@) || doc_events(xml@).len() > u32::MAX || spec_score(
            doc_events(xml@),
            part_id,
            scale_notes@,
            auto_transpose,
            transpose_value,
        ) is Err,
        r matches Ok(p) ==> forall|k: int| 0 <= k < p.0@.len() ==> (#[trigger] p.0@[k]).0 == k + 1,
{
    let (events, failed) = tokenize(xml);
    proof {
        lemma_events_view_len(events@);
    }
    if failed {
        return Err(ParseError);
    }
    if events.len() as u64 > u32::MAX as u64 {
        // a document cannot hold more numbered measures than the counter
        return Err(ParseError);
    }
    let r = score_from_events(&events, part_id, scale_notes, auto_transpose, transpose_value);
    proof {
        if r is Ok {
            let p = r->Ok_0;
            lemma_measure_numbering(
                doc_events(xml@),
                part_id,
                scale_notes@,
                auto_transpose,
                transpose_value,
            );
            assert forall|k: int| 0 <= k < p.0@.len() implies (#[trigger] p.0@[k]).0 == k + 1 by {
                lemma_measures_view_index(p.0@, k);
                assert(spec_score(
                    doc_events(xml@),
                    part_id,
                    scale_notes@,
                    auto_transpose,
                    transpose_value,
                )->Ok_0.0[k].number == k + 1);
                assert(measures_view(p.0@)[k].number == k + 1);
            }
        }
    }
    r
}

} // verus!
