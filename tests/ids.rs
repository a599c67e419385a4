use qa_service::dao::{answer_parent_ref, question_ref};
use qa_service::error::DBError;
use qa_service::ident::{id_string, parse_id};

const SAMPLES: [&str; 22] = [
    "", "-", "+", "0", "-0", "+0", "7", "+7", "-7", "12", "00012", "abc", "1a", "a1", " 1", "1 ",
    "9223372036854775807", "9223372036854775808", "-9223372036854775808",
    "-9223372036854775809", "99999999999999999999999", "--1",
];

#[test]
fn parse_id_agrees_with_std_parse() {
    for s in SAMPLES {
        assert_eq!(parse_id(s), s.parse::<i64>().ok(), "input {:?}", s);
    }
}

#[test]
fn parse_id_rejects_empty_and_non_numeric() {
    assert_eq!(parse_id(""), None);
    assert_eq!(parse_id("abc"), None);
    assert_eq!(parse_id("12x"), None);
    assert_eq!(parse_id("-"), None);
}

#[test]
fn parse_id_reads_extremes() {
    assert_eq!(parse_id("9223372036854775807"), Some(i64::MAX));
    assert_eq!(parse_id("-9223372036854775808"), Some(i64::MIN));
    assert_eq!(parse_id("9223372036854775808"), None);
    assert_eq!(parse_id("-9223372036854775809"), None);
    assert_eq!(parse_id("+42"), Some(42));
}

#[test]
fn id_string_agrees_with_to_string() {
    for n in [0i64, 1, 9, 10, 99, 100, 12345, -1, -10, -987654321, i64::MAX, i64::MIN] {
        assert_eq!(id_string(n), n.to_string());
    }
}

#[test]
fn id_string_round_trips_through_parse_id() {
    for n in [0i64, 5, 31, -31, 1000000, i64::MAX, i64::MIN] {
        assert_eq!(parse_id(&id_string(n)), Some(n));
    }
}

#[test]
fn question_ref_reports_unreadable_ids() {
    assert_eq!(question_ref("17"), Ok(17));
    assert_eq!(
        question_ref("x17"),
        Err(DBError::InvalidUUID("Could not parse question UUID: x17".to_string()))
    );
    assert_eq!(
        question_ref(""),
        Err(DBError::InvalidUUID("Could not parse question UUID: ".to_string()))
    );
}

#[test]
fn answer_parent_ref_reports_unreadable_ids() {
    assert_eq!(answer_parent_ref("-3"), Ok(-3));
    assert_eq!(
        answer_parent_ref("three"),
        Err(DBError::InvalidUUID("Could not parse answer UUID: three".to_string()))
    );
}
