use handpan_score::events::{AttrFetch, XmlEv};
use handpan_score::metadata::metadata_from_events;
use handpan_score::parts::{parse_mscx_parts, parts_from_events};
use handpan_score::score::parse_mscx_score;

fn start(name: &str) -> XmlEv {
    XmlEv::Start(name.to_string(), AttrFetch::Missing, AttrFetch::Missing)
}

fn start_with_name_attr(name: &str, value: &str) -> XmlEv {
    XmlEv::Start(
        name.to_string(),
        AttrFetch::Missing,
        AttrFetch::Value(value.to_string()),
    )
}

#[test]
fn meta_value_read_consumes_one_event_whatever_it_is() {
    // the event after a recognised metaTag is consumed as its value; a
    // second metaTag start arriving there is swallowed, not dispatched
    let events = vec![
        start_with_name_attr("metaTag", "composer"),
        start_with_name_attr("metaTag", "arranger"),
        XmlEv::Text(Some("X".to_string())),
    ];
    let (title, composer, arranger) = metadata_from_events(&events);
    assert_eq!(title, "Unknown");
    assert_eq!(composer, "Unknown");
    assert_eq!(arranger, "Unknown");
}

#[test]
fn meta_undecodable_value_becomes_unknown() {
    let events = vec![
        start_with_name_attr("metaTag", "composer"),
        XmlEv::Text(None),
        start_with_name_attr("metaTag", "workTitle"),
        XmlEv::Text(Some("T".to_string())),
    ];
    let (title, composer, _) = metadata_from_events(&events);
    assert_eq!(composer, "Unknown");
    assert_eq!(title, "T");
}

#[test]
fn track_name_scan_skips_nested_starts() {
    // the name is the first text event, even past nested elements
    let events = vec![
        start("Part"),
        start("trackName"),
        start("b"),
        XmlEv::Text(Some("Cello".to_string())),
        XmlEv::Start(
            "Staff".to_string(),
            AttrFetch::Value("7".to_string()),
            AttrFetch::Missing,
        ),
        XmlEv::End("Part".to_string()),
    ];
    let parts = parts_from_events(&events).unwrap();
    assert_eq!(parts, vec![(7, "Cello".to_string())]);
}

#[test]
fn malformed_staff_id_attribute_is_an_error() {
    let events = vec![
        start("Part"),
        XmlEv::Start("Staff".to_string(), AttrFetch::Malformed, AttrFetch::Missing),
    ];
    assert!(parts_from_events(&events).is_err());
}

#[test]
fn self_closing_staff_tags_are_not_start_events() {
    // an empty-element tag is not a start event to the tokenizer, so its
    // id is never collected
    let doc = "<museScore><Part>\
        <trackName>Piano</trackName>\
        <Staff id=\"3\"/>\
        </Part></museScore>";
    assert_eq!(parse_mscx_parts(doc).unwrap(), vec![]);
}

#[test]
fn duration_text_is_trimmed() {
    let doc = "<museScore><Staff id=\"1\"><Measure>\
        <Rest><durationType> quarter </durationType></Rest>\
        </Measure></Staff></museScore>";
    let (measures, _) = parse_mscx_score(doc, 1, &[60], false, 0).unwrap();
    assert_eq!(measures[0].2[0][0].2, "quarter");
}
