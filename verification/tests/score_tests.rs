use handpan_score::score::parse_mscx_score;

const SCALE: &[u8] = &[60, 62, 64, 65, 67, 69, 71];

#[test]
fn rest_yields_single_placeholder_entry() {
    let doc = "<museScore><Staff id=\"1\"><Measure>\
        <Rest><durationType>quarter</durationType></Rest>\
        </Measure></Staff></museScore>";
    let (measures, shift) = parse_mscx_score(doc, 1, SCALE, false, 0).unwrap();
    assert_eq!(shift, 0);
    assert_eq!(measures.len(), 1);
    let (number, sig, chords) = &measures[0];
    assert_eq!(*number, 1);
    assert_eq!(sig, "");
    assert_eq!(
        chords,
        &vec![vec![(0u32, "Rest".to_string(), "quarter".to_string(), 0i32, None)]]
    );
}

#[test]
fn rest_without_duration_yields_no_entry() {
    let doc = "<museScore><Staff id=\"1\"><Measure>\
        <Rest></Rest>\
        </Measure></Staff></museScore>";
    let (measures, _) = parse_mscx_score(doc, 1, SCALE, false, 0).unwrap();
    assert_eq!(measures.len(), 1);
    assert!(measures[0].2.is_empty());
}

#[test]
fn measure_numbering_counts_empty_measures() {
    let doc = "<museScore><Staff id=\"1\">\
        <Measure></Measure>\
        <Measure><Rest><durationType>half</durationType></Rest></Measure>\
        </Staff></museScore>";
    let (measures, _) = parse_mscx_score(doc, 1, SCALE, false, 0).unwrap();
    assert_eq!(measures.len(), 2);
    assert_eq!(measures[0].0, 1);
    assert!(measures[0].2.is_empty());
    assert_eq!(measures[1].0, 2);
    assert_eq!(measures[1].2.len(), 1);
}

#[test]
fn measures_outside_target_staff_are_ignored() {
    let doc = "<museScore>\
        <Staff id=\"2\"><Measure></Measure><Measure></Measure></Staff>\
        <Staff id=\"1\"><Measure></Measure></Staff>\
        </museScore>";
    let (measures, _) = parse_mscx_score(doc, 1, SCALE, false, 0).unwrap();
    assert_eq!(measures.len(), 1);
    assert_eq!(measures[0].0, 1);
}

#[test]
fn time_signature_is_captured_and_last_one_wins() {
    let doc = "<museScore><Staff id=\"1\"><Measure>\
        <TimeSig><sigN>3</sigN><sigD>4</sigD></TimeSig>\
        <TimeSig><sigN>6</sigN><sigD>8</sigD></TimeSig>\
        </Measure></Staff></museScore>";
    let (measures, _) = parse_mscx_score(doc, 1, SCALE, false, 0).unwrap();
    assert_eq!(measures[0].1, "6|8");
}

#[test]
fn chord_notes_are_annotated_against_the_scale() {
    let doc = "<museScore><Staff id=\"1\"><Measure>\
        <Chord><durationType>half</durationType>\
        <Note><pitch>62</pitch><tpc>16</tpc></Note>\
        </Chord></Measure></Staff></museScore>";
    let (measures, shift) = parse_mscx_score(doc, 1, SCALE, false, 0).unwrap();
    assert_eq!(shift, 0);
    assert_eq!(
        measures[0].2,
        vec![vec![(62u32, "D4".to_string(), "half".to_string(), 0i32, Some(1))]]
    );
}

#[test]
fn manual_shift_transposes_and_respells() {
    // 62 - 2 = 60: C with the flat-preferring table, exact hit at index 0
    let doc = "<museScore><Staff id=\"1\"><Measure>\
        <Chord><durationType>quarter</durationType>\
        <Note><pitch>62</pitch><tpc>16</tpc></Note>\
        </Chord></Measure></Staff></museScore>";
    let (measures, shift) = parse_mscx_score(doc, 1, SCALE, false, -2).unwrap();
    assert_eq!(shift, -2);
    assert_eq!(
        measures[0].2,
        vec![vec![(60u32, "C4".to_string(), "quarter".to_string(), 0i32, Some(0))]]
    );
}

#[test]
fn off_scale_note_keeps_signed_delta_and_no_index() {
    let doc = "<museScore><Staff id=\"1\"><Measure>\
        <Chord><durationType>quarter</durationType>\
        <Note><pitch>61</pitch><tpc>21</tpc></Note>\
        </Chord></Measure></Staff></museScore>";
    let (measures, _) = parse_mscx_score(doc, 1, SCALE, false, 0).unwrap();
    // |61 - 60| == 1 beats every later candidate
    assert_eq!(
        measures[0].2,
        vec![vec![(61u32, "C♯4".to_string(), "quarter".to_string(), 1i32, None)]]
    );
}

#[test]
fn auto_transpose_lands_history_on_the_scale() {
    // pitches 58 and 60 need a shift of +2 to land on {60, 62, ...}
    let doc = "<museScore><Staff id=\"1\"><Measure>\
        <Chord><durationType>quarter</durationType>\
        <Note><pitch>58</pitch><tpc>12</tpc></Note>\
        </Chord>\
        <Chord><durationType>quarter</durationType>\
        <Note><pitch>60</pitch><tpc>14</tpc></Note>\
        </Chord>\
        </Measure></Staff></museScore>";
    let (measures, shift) = parse_mscx_score(doc, 1, SCALE, true, 0).unwrap();
    assert_eq!(shift, 2);
    assert_eq!(
        measures[0].2,
        vec![
            vec![(60u32, "C4".to_string(), "quarter".to_string(), 0i32, Some(0))],
            vec![(62u32, "D4".to_string(), "quarter".to_string(), 0i32, Some(1))],
        ]
    );
}

#[test]
fn note_without_spelling_is_skipped_but_counted_in_history() {
    // the first note has no tpc: it produces no entry, but its pitch joins
    // the history the second note's auto search sees
    let doc = "<museScore><Staff id=\"1\"><Measure>\
        <Chord><durationType>quarter</durationType>\
        <Note><pitch>58</pitch></Note>\
        </Chord>\
        <Chord><durationType>quarter</durationType>\
        <Note><pitch>60</pitch><tpc>14</tpc></Note>\
        </Chord>\
        </Measure></Staff></museScore>";
    let (measures, shift) = parse_mscx_score(doc, 1, SCALE, true, 0).unwrap();
    // shift 2 lands both 58 and 60 on the scale; 4 would land only one
    assert_eq!(shift, 2);
    assert_eq!(measures[0].2.len(), 1);
    assert_eq!(measures[0].2[0][0].0, 62);
}

#[test]
fn chords_group_simultaneous_notes() {
    let doc = "<museScore><Staff id=\"1\"><Measure>\
        <Chord><durationType>whole</durationType>\
        <Note><pitch>60</pitch><tpc>14</tpc></Note>\
        <Note><pitch>64</pitch><tpc>18</tpc></Note>\
        </Chord></Measure></Staff></museScore>";
    let (measures, _) = parse_mscx_score(doc, 1, SCALE, false, 0).unwrap();
    assert_eq!(measures[0].2.len(), 1);
    assert_eq!(measures[0].2[0].len(), 2);
    assert_eq!(measures[0].2[0][0].0, 60);
    assert_eq!(measures[0].2[0][1].0, 64);
}

#[test]
fn score_non_numeric_staff_id_is_a_parse_error() {
    let doc = "<museScore><Staff id=\"one\"><Measure></Measure></Staff></museScore>";
    assert!(parse_mscx_score(doc, 1, SCALE, false, 0).is_err());
}

#[test]
fn score_malformed_markup_is_a_parse_error() {
    let doc = "<museScore><Staff id=\"1\"><Measure></Staff></museScore>";
    assert!(parse_mscx_score(doc, 1, SCALE, false, 0).is_err());
}

#[test]
fn final_shift_reports_last_processed_note() {
    // auto mode overrides the manual 7; 71 lands on a scale pitch for
    // several candidate shifts, and the lowest of them, -11 onto 60, is
    // tested first and kept on the tie
    let doc = "<museScore><Staff id=\"1\"><Measure>\
        <Chord><durationType>quarter</durationType>\
        <Note><pitch>71</pitch><tpc>19</tpc></Note>\
        </Chord></Measure></Staff></museScore>";
    let (_, shift) = parse_mscx_score(doc, 1, SCALE, true, 7).unwrap();
    assert_eq!(shift, -11);
}
