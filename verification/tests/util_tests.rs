use handpan_score::files::sanitize_file_name;
use handpan_score::html::get_color_for_duration;
use handpan_score::request::GenerateForm;

#[test]
fn sanitize_removes_traversal_fragments() {
    assert_eq!(sanitize_file_name("../../etc/passwd"), "etcpasswd");
    assert_eq!(sanitize_file_name("a\\b/c..d"), "abcd");
    assert_eq!(sanitize_file_name("plain-name.mscz"), "plain-name.mscz");
    assert_eq!(sanitize_file_name(""), "");
}

#[test]
fn sanitize_removes_leftmost_occurrences() {
    // three dots leave one behind; four leave none
    assert_eq!(sanitize_file_name("..."), ".");
    assert_eq!(sanitize_file_name("...."), "");
}

#[test]
fn duration_colors() {
    assert_eq!(get_color_for_duration("64th"), Some("#B13B8E"));
    assert_eq!(get_color_for_duration("32nd"), Some("#4B348B"));
    assert_eq!(get_color_for_duration("16th"), Some("#4563AC"));
    assert_eq!(get_color_for_duration("eighth"), Some("#32CD32"));
    assert_eq!(get_color_for_duration("quarter"), Some("#DAA520"));
    assert_eq!(get_color_for_duration("half"), Some("#FF4500"));
    assert_eq!(get_color_for_duration("whole"), Some("#8B0000"));
    assert_eq!(get_color_for_duration("measure"), None);
    assert_eq!(get_color_for_duration(""), None);
}

fn form(auto: Option<&str>, inscale: Option<&str>, transpose: Option<&str>) -> GenerateForm {
    GenerateForm {
        mscx_path: "uploads/x.mscx".to_string(),
        part_name: "Piano".to_string(),
        part_id: 1,
        scale: 0,
        auto_transpose: auto.map(|s| s.to_string()),
        play_only_inscale: inscale.map(|s| s.to_string()),
        transpose: transpose.map(|s| s.to_string()),
    }
}

#[test]
fn form_options_follow_field_presence() {
    assert_eq!(form(Some("on"), None, None).effective_options(), (true, false, 0));
    assert_eq!(form(None, Some("1"), None).effective_options(), (false, true, 0));
    assert_eq!(form(None, Some("0"), None).effective_options(), (false, false, 0));
    assert_eq!(form(None, None, Some("-3")).effective_options(), (false, false, -3));
    assert_eq!(form(None, None, Some("12")).effective_options(), (false, false, 12));
    assert_eq!(form(None, None, Some("junk")).effective_options(), (false, false, 0));
}
