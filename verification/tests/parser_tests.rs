use handpan_score::metadata::parse_mscx_metadata;
use handpan_score::parts::parse_mscx_parts;

#[test]
fn metadata_fields_are_extracted() {
    let doc = "<museScore><Score>\
        <metaTag name=\"workTitle\">Morning Song</metaTag>\
        <metaTag name=\"composer\">Someone</metaTag>\
        <metaTag name=\"arranger\">Else</metaTag>\
        </Score></museScore>";
    let (title, composer, arranger) = parse_mscx_metadata(doc);
    assert_eq!(title, "Morning Song");
    assert_eq!(composer, "Someone");
    assert_eq!(arranger, "Else");
}

#[test]
fn metadata_defaults_to_unknown() {
    let (title, composer, arranger) = parse_mscx_metadata("<museScore></museScore>");
    assert_eq!(title, "Unknown");
    assert_eq!(composer, "Unknown");
    assert_eq!(arranger, "Unknown");
    // only one field present
    let doc = "<museScore><metaTag name=\"composer\">X</metaTag></museScore>";
    assert_eq!(parse_mscx_metadata(doc), ("Unknown".into(), "X".into(), "Unknown".into()));
}

#[test]
fn metadata_decodes_entities() {
    // would fail if the tokenizer handed the escaped text through unchanged
    let doc = "<museScore><metaTag name=\"composer\">A &amp; B</metaTag></museScore>";
    assert_eq!(parse_mscx_metadata(doc).1, "A & B");
}

#[test]
fn metadata_never_fails_on_malformed_markup() {
    let doc = "<museScore><metaTag name=\"composer\">X</metaTag><oops";
    let (title, composer, _) = parse_mscx_metadata(doc);
    assert_eq!(composer, "X");
    assert_eq!(title, "Unknown");
}

#[test]
fn two_staff_part_splits_into_treble_and_bass() {
    let doc = "<museScore><Part>\
        <trackName>Piano</trackName>\
        <Staff id=\"3\"></Staff>\
        <Staff id=\"4\"></Staff>\
        </Part></museScore>";
    let parts = parse_mscx_parts(doc).unwrap();
    assert_eq!(
        parts,
        vec![(3, "Piano (Treble)".to_string()), (4, "Piano (Bass)".to_string())]
    );
}

#[test]
fn single_staff_part_keeps_plain_name() {
    let doc = "<museScore><Part>\
        <trackName>Flute</trackName>\
        <Staff id=\"1\"></Staff>\
        </Part></museScore>";
    assert_eq!(parse_mscx_parts(doc).unwrap(), vec![(1, "Flute".to_string())]);
}

#[test]
fn part_without_name_emits_nothing() {
    let doc = "<museScore><Part><Staff id=\"1\"></Staff></Part></museScore>";
    assert_eq!(parse_mscx_parts(doc).unwrap(), vec![]);
}

#[test]
fn three_staff_part_repeats_plain_name() {
    let doc = "<museScore><Part>\
        <trackName>Organ</trackName>\
        <Staff id=\"1\"></Staff><Staff id=\"2\"></Staff><Staff id=\"3\"></Staff>\
        </Part></museScore>";
    assert_eq!(
        parse_mscx_parts(doc).unwrap(),
        vec![
            (1, "Organ".to_string()),
            (2, "Organ".to_string()),
            (3, "Organ".to_string()),
        ]
    );
}

#[test]
fn staff_id_range_follows_the_id_type() {
    let doc = "<museScore><Part>\
        <trackName>Organ</trackName>\
        <Staff id=\"4294967295\"></Staff>\
        </Part></museScore>";
    assert_eq!(parse_mscx_parts(doc).unwrap(), vec![(4294967295, "Organ".to_string())]);
    let over = "<museScore><Part>\
        <trackName>Organ</trackName>\
        <Staff id=\"4294967296\"></Staff>\
        </Part></museScore>";
    assert!(parse_mscx_parts(over).is_err());
}

#[test]
fn non_numeric_staff_id_is_a_parse_error() {
    let doc = "<museScore><Part>\
        <trackName>Piano</trackName>\
        <Staff id=\"abc\"></Staff>\
        </Part></museScore>";
    assert!(parse_mscx_parts(doc).is_err());
}

#[test]
fn malformed_markup_is_a_parse_error() {
    assert!(parse_mscx_parts("<museScore><Part></museScore>").is_err());
}

#[test]
fn staff_id_attribute_is_decoded_before_parsing() {
    // &#52; decodes to the digit 4: would fail on the raw attribute text
    let doc = "<museScore><Part>\
        <trackName>Viola</trackName>\
        <Staff id=\"1&#52;\"></Staff>\
        </Part></museScore>";
    assert_eq!(parse_mscx_parts(doc).unwrap(), vec![(14, "Viola".to_string())]);
}
