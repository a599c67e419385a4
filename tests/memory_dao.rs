use qa_service::dao::{AnswersDao, MemoryDao, QuestionsDao};
use qa_service::error::DBError;
use qa_service::models::{Answer, AnswerDetail, Question, QuestionDetail};
use qa_service::store::MemoryStore;

fn question(title: &str, description: &str) -> Question {
    Question { title: title.to_string(), description: description.to_string() }
}

fn answer(question_uuid: &str, content: &str) -> Answer {
    Answer { question_uuid: question_uuid.to_string(), content: content.to_string() }
}

fn all_questions(dao: &MemoryDao) -> Vec<QuestionDetail> {
    dao.get_questions().unwrap()
}

fn answers_to(dao: &MemoryDao, id: &str) -> Vec<AnswerDetail> {
    dao.get_answers(id.to_string()).unwrap()
}

#[test]
fn created_question_is_listed_with_fresh_id() {
    let mut dao = MemoryDao::new();
    let first = dao.create_question(question("Title", "Description")).unwrap();
    assert_eq!(first.question_uuid, "1");
    assert_eq!(first.title, "Title");
    assert_eq!(first.description, "Description");
    assert_eq!(first.created_at, "1");
    let second = dao.create_question(question("Other", "Text")).unwrap();
    assert_eq!(second.question_uuid, "2");
    let listed = all_questions(&dao);
    assert_eq!(listed, vec![first, second]);
}

#[test]
fn ids_are_not_reused_after_delete() {
    let mut dao = MemoryDao::new();
    let first = dao.create_question(question("a", "b")).unwrap();
    dao.delete_question(first.question_uuid.clone()).unwrap();
    let second = dao.create_question(question("a", "b")).unwrap();
    assert_ne!(first.question_uuid, second.question_uuid);
    assert_eq!(second.question_uuid, "2");
}

#[test]
fn invalid_ids_fail_without_mutation() {
    let mut dao = MemoryDao::new();
    let q = dao.create_question(question("t", "d")).unwrap();
    dao.create_answer(answer(&q.question_uuid, "c")).unwrap();
    for bad in ["", "abc", "1.5", "-", " 1"] {
        assert_eq!(
            dao.delete_question(bad.to_string()),
            Err(DBError::InvalidUUID(format!("Could not parse question UUID: {}", bad)))
        );
        assert_eq!(
            dao.delete_answer(bad.to_string()),
            Err(DBError::InvalidUUID(format!("Could not parse question UUID: {}", bad)))
        );
        assert_eq!(
            dao.get_answers(bad.to_string()),
            Err(DBError::InvalidUUID(format!("Could not parse question UUID: {}", bad)))
        );
        assert_eq!(
            dao.create_answer(answer(bad, "x")),
            Err(DBError::InvalidUUID(format!("Could not parse answer UUID: {}", bad)))
        );
    }
    assert_eq!(all_questions(&dao).len(), 1);
    assert_eq!(answers_to(&dao, "1").len(), 1);
}

#[test]
fn deleting_missing_id_changes_nothing() {
    let mut dao = MemoryDao::new();
    dao.create_question(question("t", "d")).unwrap();
    dao.create_answer(answer("1", "c")).unwrap();
    let questions = all_questions(&dao);
    let answers = answers_to(&dao, "1");
    assert_eq!(dao.delete_question("99".to_string()), Ok(()));
    assert_eq!(dao.delete_answer("99".to_string()), Ok(()));
    assert_eq!(dao.delete_answer("-4".to_string()), Ok(()));
    assert_eq!(all_questions(&dao), questions);
    assert_eq!(answers_to(&dao, "1"), answers);
}

#[test]
fn answer_to_missing_question_is_invalid_identifier() {
    let mut dao = MemoryDao::new();
    assert_eq!(
        dao.create_answer(answer("7", "c")),
        Err(DBError::InvalidUUID("Invalid question UUID: 7".to_string()))
    );
    assert_eq!(answers_to(&dao, "7"), vec![]);
    let q = dao.create_question(question("t", "d")).unwrap();
    assert_eq!(q.question_uuid, "1");
    assert_eq!(
        dao.create_answer(answer("+8", "c")),
        Err(DBError::InvalidUUID("Invalid question UUID: +8".to_string()))
    );
    assert_eq!(answers_to(&dao, "1"), vec![]);
}

#[test]
fn answers_are_listed_per_question() {
    let mut dao = MemoryDao::new();
    let q1 = dao.create_question(question("one", "d")).unwrap();
    let q2 = dao.create_question(question("two", "d")).unwrap();
    let a1 = dao.create_answer(answer(&q1.question_uuid, "first")).unwrap();
    let a2 = dao.create_answer(answer(&q2.question_uuid, "second")).unwrap();
    let a3 = dao.create_answer(answer(&q1.question_uuid, "third")).unwrap();
    assert_eq!(a1.answer_uuid, "3");
    assert_eq!(a1.question_uuid, "1");
    assert_eq!(a1.content, "first");
    assert_eq!(a2.question_uuid, "2");
    assert_eq!(answers_to(&dao, "1"), vec![a1, a3]);
    assert_eq!(answers_to(&dao, "2"), vec![a2]);
    assert_eq!(answers_to(&dao, "3"), vec![]);
    assert_eq!(answers_to(&dao, "+01"), answers_to(&dao, "1"));
}

#[test]
fn created_records_are_deleted_by_their_id() {
    let mut dao = MemoryDao::new();
    let q = dao.create_question(question("t", "d")).unwrap();
    let keep = dao.create_question(question("u", "e")).unwrap();
    let a = dao.create_answer(answer(&q.question_uuid, "c")).unwrap();
    let other = dao.create_answer(answer(&q.question_uuid, "k")).unwrap();
    dao.delete_answer(a.answer_uuid.clone()).unwrap();
    assert_eq!(answers_to(&dao, &q.question_uuid), vec![other]);
    dao.delete_question(q.question_uuid.clone()).unwrap();
    assert_eq!(all_questions(&dao), vec![keep]);
}

#[test]
fn store_selects_answers_by_question() {
    let mut store = MemoryStore::new();
    let q = store.insert_question("t".to_string(), "d".to_string()).ok().unwrap();
    assert_eq!(q.id, 1);
    let a = store.insert_answer(1, "c".to_string()).ok().unwrap();
    assert_eq!((a.id, a.question_id), (2, 1));
    let failure = store.insert_answer(5, "c".to_string()).err().unwrap();
    assert_eq!(failure.code, Some("787".to_string()));
    assert_eq!(store.select_answers(1).len(), 1);
    assert_eq!(store.select_answers(5).len(), 0);
    store.delete_answer(2);
    assert_eq!(store.select_answers(1).len(), 0);
    store.delete_question(1);
    assert_eq!(store.select_questions().len(), 0);
}

#[test]
fn answers_after_many_creations_are_those_naming_the_question() {
    let mut dao = MemoryDao::new();
    dao.create_question(question("one", "d")).unwrap();
    dao.create_question(question("two", "d")).unwrap();
    let mut expected = Vec::new();
    for (i, target) in ["1", "2", "9", "1", "x", "2", "1"].iter().enumerate() {
        let r = dao.create_answer(answer(target, &format!("answer {}", i)));
        if *target == "1" {
            expected.push(r.unwrap());
        } else if *target == "9" || *target == "x" {
            assert!(matches!(r, Err(DBError::InvalidUUID(_))));
        }
    }
    assert_eq!(expected.len(), 3);
    assert_eq!(answers_to(&dao, "1"), expected);
    assert_eq!(answers_to(&dao, "2").len(), 2);
}
