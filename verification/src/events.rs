//! The plain event stream the score parsers work on: a linear sequence of
//! start, end and text events with the attribute values the parsers read,
//! decoded into owned values.

use vstd::prelude::*;

verus! {

/// The single opaque parse-error kind: malformed markup, or a staff id that
/// is not a number. Callers abort the whole operation on it.
#[derive(Debug, PartialEq, Eq, Structural, Clone, Copy)]
pub struct ParseError;

/// The outcome of looking one attribute up on a start tag: absent,
/// syntactically present but undecodable, or its decoded text.
pub enum AttrFetch {
    Missing,
    Malformed,
    Value(String),
}

/// One tokenizer event, reduced to plain values. A `Start` carries the tag
/// name and the looked-up `id` and `name` attributes (the only two the
/// document format uses); a `Text` carries its decoded content, or nothing
/// when decoding failed; every event kind the parsers ignore is `Other`,
/// kept in the stream because a parser expecting text consumes exactly one
/// event whatever it is.
pub enum XmlEv {
    Start(String, AttrFetch, AttrFetch),
    End(String),
    Text(Option<String>),
    Other,
}

/// The mathematical value of an attribute lookup.
pub enum AttrV {
    Missing,
    Malformed,
    Value(Seq<char>),
}

/// The mathematical value of one tokenizer event.
pub enum XmlEvV {
    Start(Seq<char>, AttrV, AttrV),
    End(Seq<char>),
    Text(Option<Seq<char>>),
    Other,
}

pub open spec fn attr_view(a: AttrFetch) -> AttrV {
    match a {
        AttrFetch::Missing => AttrV::Missing,
        AttrFetch::Malformed => AttrV::Malformed,
        AttrFetch::Value(s) => AttrV::Value(s@),
    }
}

pub open spec fn ev_view(e: XmlEv) -> XmlEvV {
    match e {
        XmlEv::Start(name, id_attr, name_attr) => XmlEvV::Start(
            name@,
            attr_view(id_attr),
            attr_view(name_attr),
        ),
        XmlEv::End(name) => XmlEvV::End(name@),
        XmlEv::Text(ot) => XmlEvV::Text(
            match ot {
                Some(s) => Some(s@),
                None => None,
            },
        ),
        XmlEv::Other => XmlEvV::Other,
    }
}

/// The mathematical value of a whole event stream.
pub open spec fn events_view(evs: Seq<XmlEv>) -> Seq<XmlEvV>
    decreases evs.len(),
{
    if evs.len() == 0 {
        Seq::empty()
    } else {
        events_view(evs.drop_last()).push(ev_view(evs.last()))
    }
}

pub proof fn lemma_events_view_len(evs: Seq<XmlEv>)
    ensures
        events_view(evs).len() == evs.len(),
    decreases evs.len(),
{
    if evs.len() > 0 {
        lemma_events_view_len(evs.drop_last());
    }
}

pub proof fn lemma_events_view_index(evs: Seq<XmlEv>, k: int)
    requires
        0 <= k < evs.len(),
    ensures
        events_view(evs).len() == evs.len(),
        events_view(evs)[k] == ev_view(evs[k]),
    decreases evs.len(),
{
    lemma_events_view_len(evs);
    if k < evs.len() - 1 {
        lemma_events_view_index(evs.drop_last(), k);
        assert(evs.drop_last()[k] == evs[k]);
    }
}

} // verus!
