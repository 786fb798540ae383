//! Part catalog builder: the (staff id, display name) pairs of a document,
//! with two-staff parts split into "(Treble)" and "(Bass)" entries.

use vstd::prelude::*;
use crate::events::{events_view, ev_view, lemma_events_view_index, lemma_events_view_len,
    AttrFetch, AttrV, ParseError, XmlEv, XmlEvV};
use crate::text::{parse_unsigned, spec_parse_unsigned, str_eq};
use crate::xml::{doc_events, doc_fails, tokenize};

verus! {

/// The builder's state: the emitted pairs, the current part's captured
/// name and staff ids, and whether the walk is inside a `trackName`
/// element scanning forward for its text.
pub struct PartsState {
    pub parts: Seq<(u32, Seq<char>)>,
    pub name: Option<Seq<char>>,
    pub ids: Seq<u32>,
    pub scanning: bool,
}

pub open spec fn spec_parts_init() -> PartsState {
    PartsState { parts: Seq::empty(), name: None, ids: Seq::empty(), scanning: false }
}

/// Each staff id paired with the same display name, in order.
pub open spec fn spec_pairs(ids: Seq<u32>, nm: Seq<char>) -> Seq<(u32, Seq<char>)>
    decreases ids.len(),
{
    if ids.len() == 0 {
        Seq::empty()
    } else {
        spec_pairs(ids.drop_last(), nm).push((ids.last(), nm))
    }
}

/// The entries a closing `Part` emits: with exactly two staff ids the name
/// is suffixed " (Treble)" and " (Bass)" in encounter order, otherwise each
/// id is paired with the unsuffixed name; a part without a name emits
/// nothing.
pub open spec fn spec_emit(st: PartsState) -> Seq<(u32, Seq<char>)> {
    match st.name {
        None => st.parts,
        Some(nm) => {
            if st.ids.len() == 2 {
                st.parts.push((st.ids[0], nm + " (Treble)"@)).push((st.ids[1], nm + " (Bass)"@))
            } else {
                st.parts + spec_pairs(st.ids, nm)
            }
        },
    }
}

/// One event of the walk. While scanning a `trackName`, the first text
/// event becomes the part name and any end tag gives scanning up; nothing
/// else is dispatched. Otherwise `Part` boundaries reset and emit, a
/// `trackName` start begins scanning, and a `Staff` start records its `id`
/// attribute — a malformed or non-numeric id is a hard parse error, an
/// absent one is skipped.
pub open spec fn spec_parts_step(st: PartsState, ev: XmlEvV) -> Result<PartsState, ParseError> {
    if st.scanning {
        match ev {
            XmlEvV::Text(ot) => match ot {
                Some(s) => Ok(
                    PartsState { name: Some(s), scanning: false, ..st },
                ),
                None => Ok(PartsState { scanning: false, ..st }),
            },
            XmlEvV::End(_) => Ok(PartsState { scanning: false, ..st }),
            _ => Ok(st),
        }
    } else {
        match ev {
            XmlEvV::Start(name, id_attr, _name_attr) => {
                if name == "Part"@ {
                    Ok(PartsState { name: None, ids: Seq::empty(), ..st })
                } else if name == "trackName"@ {
                    Ok(PartsState { scanning: true, ..st })
                } else if name == "Staff"@ {
                    match id_attr {
                        AttrV::Missing => Ok(st),
                        AttrV::Malformed => Err(ParseError),
                        AttrV::Value(v) => match spec_parse_unsigned(v, u32::MAX as int) {
                            Some(id) => Ok(PartsState { ids: st.ids.push(id), ..st }),
                            None => Err(ParseError),
                        },
                    }
                } else {
                    Ok(st)
                }
            },
            XmlEvV::End(name) => {
                if name == "Part"@ {
                    Ok(
                        PartsState {
                            parts: spec_emit(st),
                            name: None,
                            ids: Seq::empty(),
                            scanning: st.scanning,
                        },
                    )
                } else {
                    Ok(st)
                }
            },
            _ => Ok(st),
        }
    }
}

/// The state after the first `i` events; an error stops the walk.
pub open spec fn spec_parts_run(events: Seq<XmlEvV>, i: int) -> Result<PartsState, ParseError>
    decreases i,
{
    if i <= 0 {
        Ok(spec_parts_init())
    } else {
        match spec_parts_run(events, i - 1) {
            Ok(st) => spec_parts_step(st, events[i - 1]),
            Err(e) => Err(e),
        }
    }
}

/// What the builder yields over a whole event stream.
pub open spec fn spec_parts(events: Seq<XmlEvV>) -> Result<Seq<(u32, Seq<char>)>, ParseError> {
    match spec_parts_run(events, events.len() as int) {
        Ok(st) => Ok(st.parts),
        Err(e) => Err(e),
    }
}

/// The mathematical view of an emitted pair list.
pub open spec fn parts_view(v: Seq<(u32, String)>) -> Seq<(u32, Seq<char>)>
    decreases v.len(),
{
    if v.len() == 0 {
        Seq::empty()
    } else {
        parts_view(v.drop_last()).push((v.last().0, v.last().1@))
    }
}

proof fn lemma_parts_run_err(events: Seq<XmlEvV>, i: int, j: int)
    requires
        0 <= i <= j,
        spec_parts_run(events, i) is Err,
    ensures
        spec_parts_run(events, j) == spec_parts_run(events, i),
    decreases j - i,
{
    if j > i {
        lemma_parts_run_err(events, i, j - 1);
    }
}

/// Build the (staff id, display name) list from an event stream. The walk
/// succeeds if and only if no `Staff` start tag carries a malformed or
/// non-numeric `id` attribute, and then yields exactly the emitted pairs in
/// document order.
pub fn parts_from_events(events: &Vec<XmlEv>) -> (r: Result<Vec<(u32, String)>, ParseError>)
    ensures
        match r {
            Ok(v) => spec_parts(events_view(events@)) == Ok::<_, ParseError>(parts_view(v@)),
            Err(e) => spec_parts(events_view(events@)) == Err::<Seq<(u32, Seq<char>)>, _>(e),
        },
{
    proof {
        lemma_events_view_len(events@);
    }
    let mut parts: Vec<(u32, String)> = Vec::new();
    let mut cur_name: Option<String> = None;
    let mut ids: Vec<u32> = Vec::new();
    let mut scanning = false;
    let n = events.len();
    let mut i: usize = 0;
    while i < n
        invariant
            0 <= i <= n,
            n == events@.len(),
            spec_parts_run(events_view(events@), i as int) matches Ok(st) && parts_view(parts@)
                == st.parts && st.name == (match cur_name {
                Some(s) => Some(s@),
                None => None::<Seq<char>>,
            }) && ids@ == st.ids && scanning == st.scanning,
        decreases n - i,
    {
        let ghost pre = spec_parts_run(events_view(events@), i as int)->Ok_0;
        proof {
            lemma_events_view_index(events@, i as int);
            assert(spec_parts_run(events_view(events@), i + 1) == spec_parts_step(
                pre,
                ev_view(events@[i as int]),
            ));
        }
        let ev = &events[i];
        if scanning {
            match ev {
                XmlEv::Text(ot) => {
                    match ot {
                        Some(s) => {
                            cur_name = Some(s.clone());
                        },
                        None => {},
                    }
                    scanning = false;
                },
                XmlEv::End(_) => {
                    scanning = false;
                },
                _ => {},
            }
        } else {
            match ev {
                XmlEv::Start(name, id_attr, _name_attr) => {
                    if str_eq(name.as_str(), "Part") {
                        cur_name = None;
                        ids = Vec::new();
                    } else if str_eq(name.as_str(), "trackName") {
                        scanning = true;
                    } else if str_eq(name.as_str(), "Staff") {
                        match id_attr {
                            AttrFetch::Missing => {},
                            AttrFetch::Malformed => {
                                proof {
                                    lemma_parts_run_err(events_view(events@), i + 1, n as int);
                                }
                                return Err(ParseError);
                            },
                            AttrFetch::Value(v) => match parse_unsigned(v.as_str(), u32::MAX) {
                                Some(id) => {
                                    ids.push(id);
                                },
                                None => {
                                    proof {
                                        lemma_parts_run_err(
                                            events_view(events@),
                                            i + 1,
                                            n as int,
                                        );
                                    }
                                    return Err(ParseError);
                                },
                            },
                        }
                    }
                },
                XmlEv::End(name) => {
                    if str_eq(name.as_str(), "Part") {
                        match &cur_name {
                            Some(nm) => {
                                if ids.len() == 2 {
                                    let treble = nm.clone().concat(" (Treble)");
                                    let bass = nm.clone().concat(" (Bass)");
                                    let ghost before = parts@;
                                    parts.push((ids[0], treble));
                                    let ghost mid = parts@;
                                    proof {
                                        assert(mid.drop_last() =~= before);
                                        assert(parts_view(mid) == parts_view(before).push(
                                            (ids@[0], nm@ + " (Treble)"@),
                                        ));
                                    }
                                    parts.push((ids[1], bass));
                                    proof {
                                        assert(parts@.drop_last() =~= mid);
                                        assert(parts_view(parts@) == parts_view(mid).push(
                                            (ids@[1], nm@ + " (Bass)"@),
                                        ));
                                        assert(parts_view(parts@) == spec_emit(pre));
                                    }
                                } else {
                                    let nm_fixed = nm.clone();
                                    let ghost base = parts_view(parts@);
                                    let m = ids.len();
                                    let mut k: usize = 0;
                                    while k < m
                                        invariant
                                            0 <= k <= m,
                                            m == ids@.len(),
                                            parts_view(parts@) == base + spec_pairs(
                                                ids@.take(k as int),
                                                nm_fixed@,
                                            ),
                                        decreases m - k,
                                    {
                                        let ghost before = parts@;
                                        parts.push((ids[k], nm_fixed.clone()));
                                        proof {
                                            assert(parts@.drop_last() =~= before);
                                            assert(parts_view(parts@) == parts_view(before).push(
                                                (ids@[k as int], nm_fixed@),
                                            ));
                                            assert(ids@.take(k + 1).drop_last() =~= ids@.take(
                                                k as int,
                                            ));
                                            assert(spec_pairs(ids@.take(k + 1), nm_fixed@)
                                                == spec_pairs(ids@.take(k as int), nm_fixed@).push(
                                                (ids@[k as int], nm_fixed@),
                                            ));
                                            assert(base + spec_pairs(ids@.take(k + 1), nm_fixed@)
                                                =~= (base + spec_pairs(
                                                ids@.take(k as int),
                                                nm_fixed@,
                                            )).push((ids@[k as int], nm_fixed@)));
                                        }
                                        k += 1;
                                    }
                                    proof {
                                        assert(ids@.take(m as int) =~= ids@);
                                        assert(parts_view(parts@) == spec_emit(pre));
                                    }
                                }
                            },
                            None => {},
                        }
                        cur_name = None;
                        ids = Vec::new();
                    }
                },
                _ => {},
            }
        }
        i += 1;
    }
    Ok(parts)
}

/// Build the (staff id, display name) list of a document: exactly the
/// walk over the document's event stream. It succeeds if and only if the
/// markup is well formed and no staff id is malformed or non-numeric; no
/// partial result is returned.
pub fn parse_mscx_parts(xml: &str) -> (r: Result<Vec<(u32, String)>, ParseError>)
    ensures
        r matches Ok(v) ==> !doc_fails(xml@) && spec_parts(doc_events(xml@)) == Ok::<
            _,
            ParseError,
        >(parts_view(v@)),
        r is Err <==> doc_fails(xml@) || spec_parts(doc_events(xml@)) is Err,
{
    let (events, failed) = tokenize(xml);
    if failed {
        return Err(ParseError);
    }
    parts_from_events(&events)
}

} // verus!
