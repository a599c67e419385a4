use qa_service::models::{answer_detail, question_detail, AnswerRow, QuestionRow};

#[test]
fn question_detail_writes_id_as_text() {
    let row = QuestionRow {
        id: 305,
        title: "T".to_string(),
        description: "D".to_string(),
        created_at: "2024-01-01 00:00:00".to_string(),
    };
    let d = question_detail(row);
    assert_eq!(d.question_uuid, "305");
    assert_eq!(d.title, "T");
    assert_eq!(d.description, "D");
    assert_eq!(d.created_at, "2024-01-01 00:00:00");
}

#[test]
fn answer_detail_writes_ids_as_text() {
    let row = AnswerRow {
        id: 12,
        question_id: -4,
        content: "C".to_string(),
        created_at: "now".to_string(),
    };
    let d = answer_detail(row);
    assert_eq!(d.answer_uuid, "12");
    assert_eq!(d.question_uuid, "-4");
    assert_eq!(d.content, "C");
    assert_eq!(d.created_at, "now");
}
