//! Trusted boundary to the off-the-shelf document tokenizer (quick-xml):
//! type declarations, names for what the deterministic tokenizer yields,
//! thin wrappers around the forward-only event reader, and the verified
//! loop that drains a reader into a plain event vector.

use vstd::prelude::*;
use crate::events::{attr_view, ev_view, events_view, lemma_events_view_len, AttrFetch, AttrV,
    ParseError, XmlEv, XmlEvV};

verus! {

#[verifier::external_type_specification]
#[verifier::external_body]
#[verifier::reject_recursive_types(R)]
pub struct ExReader<R>(quick_xml::reader::Reader<R>);

#[verifier::external_type_specification]
#[verifier::external_body]
pub struct ExBytesStart<'a>(quick_xml::events::BytesStart<'a>);

#[verifier::external_type_specification]
#[verifier::external_body]
pub struct ExBytesText<'a>(quick_xml::events::BytesText<'a>);

/// The event stream the tokenizer derives from a document. Tokenizing is
/// deterministic — the same text always yields the same events — so the
/// stream is a function of the text alone; what it is on given text only
/// the tokenizer itself shows.
pub uninterp spec fn doc_events(s: Seq<char>) -> Seq<XmlEvV>;

/// Whether tokenizing a document ends in a tokenizer error (malformed
/// markup) instead of the end of the document.
pub uninterp spec fn doc_fails(s: Seq<char>) -> bool;

/// The events a reader will still hand out before its end-of-document
/// marker or its error.
pub uninterp spec fn reader_events(r: quick_xml::reader::Reader<&[u8]>) -> Seq<XmlEvV>;

/// Whether a reader's remaining stream ends in a tokenizer error.
pub uninterp spec fn reader_fails(r: quick_xml::reader::Reader<&[u8]>) -> bool;

/// The tag name of a start tag, decoded.
pub uninterp spec fn start_name_of(e: quick_xml::events::BytesStart) -> Seq<char>;

/// The looked-up attribute of a start tag: absent, undecodable, or its
/// decoded text.
pub uninterp spec fn attr_of(e: quick_xml::events::BytesStart, key: Seq<char>) -> AttrV;

/// The decoded content of a text event, or nothing when an escape in it
/// cannot be resolved.
pub uninterp spec fn text_of(t: quick_xml::events::BytesText) -> Option<Seq<char>>;

/// One event as the reader hands it out, with the payloads the parsers
/// never look inside left in the tokenizer's own types.
enum RawXmlEvent<'a> {
    Start(quick_xml::events::BytesStart<'a>),
    End(String),
    Text(quick_xml::events::BytesText<'a>),
    Other,
    Eof,
}

/// Relies on quick_xml's Reader::from_str: a reader positioned at the
/// start of the document, whose stream is the document's.
#[verifier::external_body]
fn reader_from_str<'a>(s: &'a str) -> (r: quick_xml::reader::Reader<&'a [u8]>)
    ensures
        reader_events(r) == doc_events(s@),
        reader_fails(r) == doc_fails(s@),
{
    quick_xml::reader::Reader::from_str(s)
}

/// Relies on quick_xml's Reader::read_event: the next event of the
/// reader's stream, consumed; the end of the document or the tokenizer's
/// error once the stream is exhausted. The end-tag name is decoded here
/// because the end event offers no other payload.
#[verifier::external_body]
fn read_raw_event<'a>(r: &mut quick_xml::reader::Reader<&'a [u8]>) -> (res: Result<
    RawXmlEvent<'a>,
    ParseError,
>)
    ensures
        ({
            let pre = *old(r);
            match res {
                Err(_) => reader_events(pre).len() == 0 && reader_fails(pre),
                Ok(raw) => match raw {
                    RawXmlEvent::Eof => reader_events(pre).len() == 0 && !reader_fails(pre),
                    RawXmlEvent::Start(e) => reader_events(pre).len() > 0 && reader_events(
                        *final(r),
                    ) == reader_events(pre).drop_first() && reader_fails(*final(r))
                        == reader_fails(pre) && reader_events(pre)[0] == XmlEvV::Start(
                        start_name_of(e),
                        attr_of(e, "id"@),
                        attr_of(e, "name"@),
                    ),
                    RawXmlEvent::End(n) => reader_events(pre).len() > 0 && reader_events(*final(r))
                        == reader_events(pre).drop_first() && reader_fails(*final(r))
                        == reader_fails(pre) && reader_events(pre)[0] == XmlEvV::End(n@),
                    RawXmlEvent::Text(t) => reader_events(pre).len() > 0 && reader_events(
                        *final(r),
                    ) == reader_events(pre).drop_first() && reader_fails(*final(r))
                        == reader_fails(pre) && reader_events(pre)[0] == XmlEvV::Text(text_of(t)),
                    RawXmlEvent::Other => reader_events(pre).len() > 0 && reader_events(*final(r))
                        == reader_events(pre).drop_first() && reader_fails(*final(r))
                        == reader_fails(pre) && reader_events(pre)[0] == XmlEvV::Other,
                },
            }
        }),
{
    match r.read_event() {
        Ok(quick_xml::events::Event::Start(e)) => Ok(RawXmlEvent::Start(e)),
        Ok(quick_xml::events::Event::End(e)) => Ok(
            RawXmlEvent::End(String::from_utf8_lossy(e.name().as_ref()).into_owned()),
        ),
        Ok(quick_xml::events::Event::Text(t)) => Ok(RawXmlEvent::Text(t)),
        Ok(quick_xml::events::Event::Eof) => Ok(RawXmlEvent::Eof),
        Ok(_) => Ok(RawXmlEvent::Other),
        Err(_) => Err(ParseError),
    }
}

/// Relies on quick_xml's BytesStart::name: the tag name of a start tag.
#[verifier::external_body]
fn start_name(e: &quick_xml::events::BytesStart<'_>) -> (r: String)
    ensures
        r@ == start_name_of(*e),
{
    String::from_utf8_lossy(e.name().as_ref()).into_owned()
}

/// Relies on quick_xml's BytesStart::try_get_attribute and
/// Attribute::unescape_value: the first attribute of the given name,
/// decoded; absent and undecodable attributes are told apart.
#[verifier::external_body]
fn get_attr(e: &quick_xml::events::BytesStart<'_>, name: &str) -> (r: AttrFetch)
    ensures
        attr_view(r) == attr_of(*e, name@),
{
    match e.try_get_attribute(name) {
        Ok(None) => AttrFetch::Missing,
        Ok(Some(a)) => match a.unescape_value() {
            Ok(v) => AttrFetch::Value(v.into_owned()),
            Err(_) => AttrFetch::Malformed,
        },
        Err(_) => AttrFetch::Malformed,
    }
}

/// Relies on quick_xml's BytesText::unescape: the decoded content of a
/// text event, or nothing when an escape in it cannot be resolved.
#[verifier::external_body]
fn text_unescape(t: &quick_xml::events::BytesText<'_>) -> (r: Option<String>)
    ensures
        match r {
            Some(s) => text_of(*t) == Some(s@),
            None => text_of(*t) is None,
        },
{
    match t.unescape() {
        Ok(v) => Some(v.into_owned()),
        Err(_) => None,
    }
}

/// Drain the tokenizer over one document into a plain event vector: the
/// collected events are exactly the document's, in order, and the flag
/// reports whether tokenizing ended in an error instead of the end of the
/// document.
pub(crate) fn tokenize(xml: &str) -> (r: (Vec<XmlEv>, bool))
    ensures
        events_view(r.0@) == doc_events(xml@),
        r.1 == doc_fails(xml@),
{
    let mut events: Vec<XmlEv> = Vec::new();
    let mut reader = reader_from_str(xml);
    let mut failed = false;
    proof {
        assert(events_view(events@) + reader_events(reader) =~= doc_events(xml@));
    }
    loop
        invariant_except_break
            events_view(events@) + reader_events(reader) == doc_events(xml@),
            reader_fails(reader) == doc_fails(xml@),
            !failed,
        ensures
            events_view(events@) == doc_events(xml@),
            failed == doc_fails(xml@),
        decreases reader_events(reader).len(),
    {
        let ghost remaining = reader_events(reader);
        let ghost collected = events@;
        match read_raw_event(&mut reader) {
            Err(_) => {
                failed = true;
                proof {
                    assert(events_view(events@) + remaining =~= events_view(events@));
                }
                break;
            },
            Ok(RawXmlEvent::Eof) => {
                proof {
                    assert(events_view(events@) + remaining =~= events_view(events@));
                }
                break;
            },
            Ok(RawXmlEvent::Start(e)) => {
                let name = start_name(&e);
                let id_attr = get_attr(&e, "id");
                let name_attr = get_attr(&e, "name");
                events.push(XmlEv::Start(name, id_attr, name_attr));
                proof {
                    lemma_tokenize_push(collected, events@, remaining);
                }
            },
            Ok(RawXmlEvent::End(name)) => {
                events.push(XmlEv::End(name));
                proof {
                    lemma_tokenize_push(collected, events@, remaining);
                }
            },
            Ok(RawXmlEvent::Text(t)) => {
                events.push(XmlEv::Text(text_unescape(&t)));
                proof {
                    lemma_tokenize_push(collected, events@, remaining);
                }
            },
            Ok(RawXmlEvent::Other) => {
                events.push(XmlEv::Other);
                proof {
                    lemma_tokenize_push(collected, events@, remaining);
                }
            },
        }
    }
    (events, failed)
}

/// Appending the stream's head event to the collected prefix keeps the
/// prefix-plus-remainder decomposition of the whole stream.
proof fn lemma_tokenize_push(pre: Seq<XmlEv>, now: Seq<XmlEv>, remaining: Seq<XmlEvV>)
    requires
        remaining.len() > 0,
        now == pre.push(now.last()),
        ev_view(now.last()) == remaining[0],
    ensures
        events_view(pre) + remaining == events_view(now) + remaining.drop_first(),
{
    assert(now.drop_last() =~= pre);
    assert(events_view(now) == events_view(pre).push(remaining[0]));
    assert(events_view(pre) + remaining =~= events_view(pre).push(remaining[0])
        + remaining.drop_first());
}

} // verus!