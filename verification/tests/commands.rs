use attendance_bot::pipeline::{classify_command, CommandKind};
use attendance_bot::slack::{action_for_keyword, parse_command_text};
use attendance_bot::types::AttendanceAction;

#[test]
fn parses_the_four_keywords() {
    assert_eq!(parse_command_text("in"), Ok(AttendanceAction::In));
    assert_eq!(parse_command_text("break"), Ok(AttendanceAction::Break));
    assert_eq!(parse_command_text("back"), Ok(AttendanceAction::Back));
    assert_eq!(parse_command_text("out"), Ok(AttendanceAction::Out));
}

#[test]
fn keywords_are_case_insensitive() {
    assert_eq!(parse_command_text("IN"), Ok(AttendanceAction::In));
    assert_eq!(parse_command_text("Break"), Ok(AttendanceAction::Break));
    assert_eq!(parse_command_text("bAcK"), Ok(AttendanceAction::Back));
    assert_eq!(parse_command_text("OUT"), Ok(AttendanceAction::Out));
}

#[test]
fn keywords_are_trimmed() {
    assert_eq!(parse_command_text("  in  "), Ok(AttendanceAction::In));
    assert_eq!(parse_command_text("\tout\n"), Ok(AttendanceAction::Out));
    assert_eq!(parse_command_text("\u{3000}break\u{3000}"), Ok(AttendanceAction::Break));
}

#[test]
fn unknown_text_is_quoted_in_the_error() {
    assert_eq!(
        parse_command_text("lunch"),
        Err("Unknown action: lunch. Use: in, break, back, or out".to_string())
    );
    assert_eq!(
        parse_command_text(" Lunch "),
        Err("Unknown action:  Lunch . Use: in, break, back, or out".to_string())
    );
}

#[test]
fn empty_text_is_unknown() {
    assert_eq!(
        parse_command_text(""),
        Err("Unknown action: . Use: in, break, back, or out".to_string())
    );
}

#[test]
fn inner_space_is_not_trimmed() {
    assert!(parse_command_text("i n").is_err());
    assert!(parse_command_text("in out").is_err());
}

#[test]
fn keyword_lookup_is_exact() {
    assert_eq!(action_for_keyword("in"), Some(AttendanceAction::In));
    assert_eq!(action_for_keyword("break"), Some(AttendanceAction::Break));
    assert_eq!(action_for_keyword("back"), Some(AttendanceAction::Back));
    assert_eq!(action_for_keyword("out"), Some(AttendanceAction::Out));
    assert_eq!(action_for_keyword("IN"), None);
    assert_eq!(action_for_keyword(" in"), None);
    assert_eq!(action_for_keyword(""), None);
}

#[test]
fn lower_casing_is_done_by_the_parser() {
    // Would fail if the text reached the keyword table as written.
    assert_eq!(action_for_keyword("OUT"), None);
    assert_eq!(parse_command_text("OUT"), Ok(AttendanceAction::Out));
}

#[test]
fn report_is_recognised_exactly() {
    assert_eq!(classify_command("report"), CommandKind::Report);
    assert_eq!(classify_command("  report \n"), CommandKind::Report);
    assert_eq!(classify_command("Report"), CommandKind::Attendance);
    assert_eq!(classify_command("reports"), CommandKind::Attendance);
    assert_eq!(classify_command("in"), CommandKind::Attendance);
    assert_eq!(classify_command(""), CommandKind::Attendance);
}
