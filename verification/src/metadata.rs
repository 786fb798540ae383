//! Metadata extractor: the work title, composer and arranger fields of a
//! document, each defaulting to "Unknown".

use vstd::prelude::*;
use crate::events::{events_view, ev_view, lemma_events_view_index, lemma_events_view_len,
    AttrFetch, AttrV, XmlEv, XmlEvV};
use crate::text::str_eq;
use crate::xml::{doc_events, tokenize};

verus! {

/// The three metadata fields.
#[derive(Clone, Copy, PartialEq, Eq, Structural)]
pub enum MetaField {
    Title,
    Composer,
    Arranger,
}

/// The extractor's state: the field values so far, and which field the
/// next event supplies a value for.
pub struct MetaState {
    pub title: Seq<char>,
    pub composer: Seq<char>,
    pub arranger: Seq<char>,
    pub pending: Option<MetaField>,
}

pub open spec fn spec_meta_init() -> MetaState {
    MetaState { title: "Unknown"@, composer: "Unknown"@, arranger: "Unknown"@, pending: None }
}

pub open spec fn spec_meta_set(st: MetaState, f: MetaField, v: Seq<char>) -> MetaState {
    match f {
        MetaField::Title => MetaState { title: v, pending: None, ..st },
        MetaField::Composer => MetaState { composer: v, pending: None, ..st },
        MetaField::Arranger => MetaState { arranger: v, pending: None, ..st },
    }
}

/// One event: a `metaTag` start whose `name` attribute names one of the
/// three fields makes that field pending; the next event then supplies the
/// value — its decoded text, "Unknown" for undecodable text, and nothing
/// for any other event kind — and is consumed without further dispatch.
pub open spec fn spec_meta_step(st: MetaState, ev: XmlEvV) -> MetaState {
    match st.pending {
        Some(f) => match ev {
            XmlEvV::Text(ot) => match ot {
                Some(s) => spec_meta_set(st, f, s),
                None => spec_meta_set(st, f, "Unknown"@),
            },
            _ => MetaState { pending: None, ..st },
        },
        None => match ev {
            XmlEvV::Start(name, _id_attr, name_attr) => {
                if name == "metaTag"@ {
                    match name_attr {
                        AttrV::Value(v) => {
                            if v == "composer"@ {
                                MetaState { pending: Some(MetaField::Composer), ..st }
                            } else if v == "arranger"@ {
                                MetaState { pending: Some(MetaField::Arranger), ..st }
                            } else if v == "workTitle"@ {
                                MetaState { pending: Some(MetaField::Title), ..st }
                            } else {
                                st
                            }
                        },
                        _ => st,
                    }
                } else {
                    st
                }
            },
            _ => st,
        },
    }
}

/// The state after the first `i` events.
pub open spec fn spec_meta_run(events: Seq<XmlEvV>, i: int) -> MetaState
    decreases i,
{
    if i <= 0 {
        spec_meta_init()
    } else {
        spec_meta_step(spec_meta_run(events, i - 1), events[i - 1])
    }
}

/// What extraction yields over a whole event stream: work title, composer,
/// arranger.
pub open spec fn spec_metadata(events: Seq<XmlEvV>) -> (Seq<char>, Seq<char>, Seq<char>) {
    let st = spec_meta_run(events, events.len() as int);
    (st.title, st.composer, st.arranger)
}

/// Extract (work title, composer, arranger) from an event stream; a field
/// never named by a `metaTag` keeps the value "Unknown".
pub fn metadata_from_events(events: &Vec<XmlEv>) -> (r: (String, String, String))
    ensures
        r.0@ == spec_metadata(events_view(events@)).0,
        r.1@ == spec_metadata(events_view(events@)).1,
        r.2@ == spec_metadata(events_view(events@)).2,
{
    proof {
        lemma_events_view_len(events@);
    }
    let mut title = String::from_str("Unknown");
    let mut composer = String::from_str("Unknown");
    let mut arranger = String::from_str("Unknown");
    let mut pending: Option<MetaField> = None;
    let n = events.len();
    let mut i: usize = 0;
    while i < n
        invariant
            0 <= i <= n,
            n == events@.len(),
            (MetaState { title: title@, composer: composer@, arranger: arranger@, pending })
                == spec_meta_run(events_view(events@), i as int),
        decreases n - i,
    {
        proof {
            lemma_events_view_index(events@, i as int);
            assert(spec_meta_run(events_view(events@), i + 1) == spec_meta_step(
                spec_meta_run(events_view(events@), i as int),
                ev_view(events@[i as int]),
            ));
        }
        let ev = &events[i];
        match pending {
            Some(f) => {
                match ev {
                    XmlEv::Text(ot) => {
                        let v: String = match ot {
                            Some(s) => s.clone(),
                            None => String::from_str("Unknown"),
                        };
                        match f {
                            MetaField::Title => {
                                title = v;
                            },
                            MetaField::Composer => {
                                composer = v;
                            },
                            MetaField::Arranger => {
                                arranger = v;
                            },
                        }
                        pending = None;
                    },
                    _ => {
                        pending = None;
                    },
                }
            },
            None => {
                match ev {
                    XmlEv::Start(name, _id_attr, name_attr) => {
                        if str_eq(name.as_str(), "metaTag") {
                            match name_attr {
                                AttrFetch::Value(v) => {
                                    if str_eq(v.as_str(), "composer") {
                                        pending = Some(MetaField::Composer);
                                    } else if str_eq(v.as_str(), "arranger") {
                                        pending = Some(MetaField::Arranger);
                                    } else if str_eq(v.as_str(), "workTitle") {
                                        pending = Some(MetaField::Title);
                                    }
                                },
                                _ => {},
                            }
                        }
                    },
                    _ => {},
                }
            },
        }
        i += 1;
    }
    (title, composer, arranger)
}

/// Extract (work title, composer, arranger) from a document: exactly the
/// extraction over the document's event stream. It never fails: on
/// malformed markup the fields gathered up to the error are returned, and
/// fields never seen keep the value "Unknown".
pub fn parse_mscx_metadata(xml: &str) -> (r: (String, String, String))
    ensures
        r.0@ == spec_metadata(doc_events(xml@)).0,
        r.1@ == spec_metadata(doc_events(xml@)).1,
        r.2@ == spec_metadata(doc_events(xml@)).2,
{
    let (events, _failed) = tokenize(xml);
    metadata_from_events(&events)
}

} // verus!
