use vstd::prelude::*;
use crate::error::{invalid_question_message, translate_insert_failure, DBError};
use crate::ident::{id_text, is_id_text, lemma_every_id_text_reads_back, parse_id, signed_value};
use crate::models::{
    answer_detail, answer_details, question_detail, question_details, shows_answer, shows_question,
    Answer, AnswerDetail, Question, QuestionDetail,
};
use crate::store::{
    answers_of, new_answer_row, new_question_row, with_answer, with_question, without_answer,
    without_question, MemoryStore, StoreView,
};

verus! {

/// Text of the error for an unreadable question id.
pub open spec fn question_parse_message(text: Seq<char>) -> Seq<char> {
    "Could not parse question UUID: "@ + text
}

/// Text of the error for an unreadable question id given with a new answer.
pub open spec fn answer_parse_message(text: Seq<char>) -> Seq<char> {
    "Could not parse answer UUID: "@ + text
}

/// Reads a question id given on its own (to list its answers, or to delete
/// a row): `InvalidUUID` exactly when the text is not an identifier.
pub fn question_ref(text: &str) -> (r: Result<i64, DBError>)
    ensures
        is_id_text(text@) ==> r == Ok::<i64, DBError>(signed_value(text@) as i64),
        !is_id_text(text@) ==> r is Err && r->Err_0.is_invalid_id(question_parse_message(text@)),
{
    match parse_id(text) {
        Some(v) => Ok(v),
        None => Err(DBError::InvalidUUID(String::from_str("Could not parse question UUID: ").concat(text))),
    }
}

/// Reads the question id of a new answer: `InvalidUUID` exactly when the
/// text is not an identifier.
pub fn answer_parent_ref(text: &str) -> (r: Result<i64, DBError>)
    ensures
        is_id_text(text@) ==> r == Ok::<i64, DBError>(signed_value(text@) as i64),
        !is_id_text(text@) ==> r is Err && r->Err_0.is_invalid_id(answer_parse_message(text@)),
{
    match parse_id(text) {
        Some(v) => Ok(v),
        None => Err(DBError::InvalidUUID(String::from_str("Could not parse answer UUID: ").concat(text))),
    }
}

/// Create, list and delete over the questions table.
pub trait QuestionsDao {
    /// Stores a question; what is returned carries the given title and
    /// description. Only the storage layer can fail here.
    fn create_question(&mut self, question: Question) -> (r: Result<QuestionDetail, DBError>)
        ensures
            r is Ok ==> r->Ok_0.title == question.title && r->Ok_0.description == question.description,
            r is Ok ==> is_id_text(r->Ok_0.question_uuid@),
            r is Err ==> r->Err_0 is Other,
    ;

    /// Deletes the question that the id names, if there is one.
    fn delete_question(&mut self, question_uuid: String) -> (r: Result<(), DBError>)
        ensures
            !is_id_text(question_uuid@) ==> r is Err && r->Err_0.is_invalid_id(
                question_parse_message(question_uuid@),
            ),
            is_id_text(question_uuid@) && r is Err ==> r->Err_0 is Other,
    ;

    /// Every stored question; each one listed carries an id that reads back.
    fn get_questions(&self) -> (r: Result<Vec<QuestionDetail>, DBError>)
        ensures
            r is Ok ==> forall|i: int|
                0 <= i < r->Ok_0.len() ==> is_id_text((#[trigger] r->Ok_0[i]).question_uuid@),
            r is Err ==> r->Err_0 is Other,
    ;
}

/// Create, list and delete over the answers table.
pub trait AnswersDao {
    /// Stores an answer to the question that its id names. What is returned
    /// carries the given content and the id of that question; a question
    /// that is not stored is bad input, not a storage failure.
    fn create_answer(&mut self, answer: Answer) -> (r: Result<AnswerDetail, DBError>)
        ensures
            !is_id_text(answer.question_uuid@) ==> r is Err && r->Err_0.is_invalid_id(
                answer_parse_message(answer.question_uuid@),
            ),
            is_id_text(answer.question_uuid@) && r is Err ==> r->Err_0.is_invalid_id(
                invalid_question_message(answer.question_uuid@),
            ) || r->Err_0 is Other,
            r is Ok ==> r->Ok_0.content == answer.content && r->Ok_0.question_uuid@ == id_text(
                signed_value(answer.question_uuid@),
            ),
            r is Ok ==> is_id_text(r->Ok_0.answer_uuid@),
    ;

    /// Deletes the answer that the id names, if there is one.
    fn delete_answer(&mut self, answer_uuid: String) -> (r: Result<(), DBError>)
        ensures
            !is_id_text(answer_uuid@) ==> r is Err && r->Err_0.is_invalid_id(
                question_parse_message(answer_uuid@),
            ),
            is_id_text(answer_uuid@) && r is Err ==> r->Err_0 is Other,
    ;

    /// The answers to the question that the id names; each one listed
    /// carries that question's id.
    fn get_answers(&self, question_uuid: String) -> (r: Result<Vec<AnswerDetail>, DBError>)
        ensures
            !is_id_text(question_uuid@) ==> r is Err && r->Err_0.is_invalid_id(
                question_parse_message(question_uuid@),
            ),
            is_id_text(question_uuid@) && r is Err ==> r->Err_0 is Other,
            r is Ok ==> forall|i: int|
                0 <= i < r->Ok_0.len() ==> (#[trigger] r->Ok_0[i]).question_uuid@ == id_text(
                    signed_value(question_uuid@),
                ),
            r is Ok ==> forall|i: int|
                0 <= i < r->Ok_0.len() ==> is_id_text((#[trigger] r->Ok_0[i]).answer_uuid@),
    ;
}

/// Both data-access components over an in-process store.
pub struct MemoryDao {
    store: MemoryStore,
}

impl View for MemoryDao {
    type V = StoreView;

    closed spec fn view(&self) -> StoreView {
        self.store@
    }
}

impl MemoryDao {
    #[verifier::type_invariant]
    spec fn inv(&self) -> bool {
        self.store@.wf()
    }

    pub fn new() -> (r: MemoryDao)
        ensures
            r@.wf(),
            r@.questions.len() == 0,
            r@.answers.len() == 0,
            r@.next_id == 1,
    {
        MemoryDao { store: MemoryStore::new() }
    }

    /// Moves the store out, leaving an empty one in its place.
    fn take_store(&mut self) -> (r: MemoryStore)
        ensures
            r@ == old(self)@,
            r@.wf(),
    {
        proof {
            use_type_invariant(&*self);
        }
        let mut st = MemoryStore::new();
        std::mem::swap(&mut self.store, &mut st);
        st
    }

    /// Puts a store back in place.
    fn put_store(&mut self, st: MemoryStore)
        requires
            st@.wf(),
        ensures
            final(self)@ == st@,
            final(self)@.wf(),
    {
        let mut st = st;
        std::mem::swap(&mut self.store, &mut st);
    }
}

impl QuestionsDao for MemoryDao {
    fn create_question(&mut self, question: Question) -> (r: Result<QuestionDetail, DBError>)
        ensures
            final(self)@.wf(),
            old(self)@.exhausted() ==> r is Err && r->Err_0 is Other && final(self)@ == old(self)@,
            !old(self)@.exhausted() ==> {
                let row = final(self)@.questions.last();
                &&& r is Ok
                &&& new_question_row(old(self)@, row, question.title, question.description)
                &&& final(self)@ == with_question(old(self)@, row)
                &&& shows_question(r->Ok_0, row)
            },
    {
        proof {
            use_type_invariant(&*self);
        }
        let mut st = self.take_store();
        proof {
            lemma_every_id_text_reads_back();
        }
        let r = match st.insert_question(question.title, question.description) {
            Ok(row) => Ok(question_detail(row)),
            Err(f) => Err(DBError::Other(f.cause)),
        };
        self.put_store(st);
        r
    }

    fn delete_question(&mut self, question_uuid: String) -> (r: Result<(), DBError>)
        ensures
            final(self)@.wf(),
            !is_id_text(question_uuid@) ==> r is Err && r->Err_0.is_invalid_id(
                question_parse_message(question_uuid@),
            ) && final(self)@ == old(self)@,
            is_id_text(question_uuid@) ==> r is Ok && final(self)@ == without_question(
                old(self)@,
                signed_value(question_uuid@),
            ),
    {
        proof {
            use_type_invariant(&*self);
        }
        let id = match question_ref(question_uuid.as_str()) {
            Ok(id) => id,
            Err(e) => return Err(e),
        };
        let mut st = self.take_store();
        st.delete_question(id);
        self.put_store(st);
        Ok(())
    }

    fn get_questions(&self) -> (r: Result<Vec<QuestionDetail>, DBError>)
        ensures
            r is Ok,
            r->Ok_0.len() == self@.questions.len(),
            forall|i: int|
                0 <= i < self@.questions.len() ==> shows_question(
                    #[trigger] r->Ok_0[i],
                    self@.questions[i],
                ),
    {
        proof {
            lemma_every_id_text_reads_back();
        }
        Ok(question_details(self.store.select_questions()))
    }
}

impl AnswersDao for MemoryDao {
    fn create_answer(&mut self, answer: Answer) -> (r: Result<AnswerDetail, DBError>)
        ensures
            final(self)@.wf(),
            !is_id_text(answer.question_uuid@) ==> r is Err && r->Err_0.is_invalid_id(
                answer_parse_message(answer.question_uuid@),
            ) && final(self)@ == old(self)@,
            is_id_text(answer.question_uuid@) && !old(self)@.has_question(
                signed_value(answer.question_uuid@),
            ) ==> r is Err && r->Err_0.is_invalid_id(
                invalid_question_message(answer.question_uuid@),
            ) && final(self)@ == old(self)@,
            is_id_text(answer.question_uuid@) && old(self)@.has_question(
                signed_value(answer.question_uuid@),
            ) && old(self)@.exhausted() ==> r is Err && r->Err_0 is Other && final(self)@ == old(
                self,
            )@,
            is_id_text(answer.question_uuid@) && old(self)@.has_question(
                signed_value(answer.question_uuid@),
            ) && !old(self)@.exhausted() ==> {
                let row = final(self)@.answers.last();
                &&& r is Ok
                &&& new_answer_row(
                    old(self)@,
                    row,
                    signed_value(answer.question_uuid@) as i64,
                    answer.content,
                )
                &&& final(self)@ == with_answer(old(self)@, row)
                &&& shows_answer(r->Ok_0, row)
            },
    {
        proof {
            use_type_invariant(&*self);
        }
        let qid = match answer_parent_ref(answer.question_uuid.as_str()) {
            Ok(id) => id,
            Err(e) => return Err(e),
        };
        let mut st = self.take_store();
        proof {
            lemma_every_id_text_reads_back();
        }
        let r = match st.insert_answer(qid, answer.content) {
            Ok(row) => Ok(answer_detail(row)),
            Err(f) => Err(translate_insert_failure(f.code, f.cause, answer.question_uuid.as_str())),
        };
        self.put_store(st);
        r
    }

    fn delete_answer(&mut self, answer_uuid: String) -> (r: Result<(), DBError>)
        ensures
            final(self)@.wf(),
            !is_id_text(answer_uuid@) ==> r is Err && r->Err_0.is_invalid_id(
                question_parse_message(answer_uuid@),
            ) && final(self)@ == old(self)@,
            is_id_text(answer_uuid@) ==> r is Ok && final(self)@ == without_answer(
                old(self)@,
                signed_value(answer_uuid@),
            ),
    {
        proof {
            use_type_invariant(&*self);
        }
        let id = match question_ref(answer_uuid.as_str()) {
            Ok(id) => id,
            Err(e) => return Err(e),
        };
        let mut st = self.take_store();
        st.delete_answer(id);
        self.put_store(st);
        Ok(())
    }

    fn get_answers(&self, question_uuid: String) -> (r: Result<Vec<AnswerDetail>, DBError>)
        ensures
            !is_id_text(question_uuid@) ==> r is Err && r->Err_0.is_invalid_id(
                question_parse_message(question_uuid@),
            ),
            is_id_text(question_uuid@) ==> {
                let rows = answers_of(self@.answers, signed_value(question_uuid@));
                &&& r is Ok
                &&& r->Ok_0.len() == rows.len()
                &&& forall|i: int| 0 <= i < rows.len() ==> shows_answer(#[trigger] r->Ok_0[i], rows[i])
            },
    {
        let qid = match question_ref(question_uuid.as_str()) {
            Ok(id) => id,
            Err(e) => return Err(e),
        };
        proof {
            crate::laws::law_answers_listed_for_question(self@.answers, qid as int);
            lemma_every_id_text_reads_back();
        }
        Ok(answer_details(self.store.select_answers(qid)))
    }
}

} // verus!
