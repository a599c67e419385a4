use vstd::prelude::*;
use crate::ident::{id_string, id_text};
use crate::models::{AnswerRow, QuestionRow};

verus! {

/// The contents of a store: both tables, and the id that the next inserted
/// row receives.
pub ghost struct StoreView {
    pub questions: Seq<QuestionRow>,
    pub answers: Seq<AnswerRow>,
    pub next_id: int,
}

/// Whether the ids of `ids` rise strictly and lie in `1 .. next`.
pub open spec fn ids_fresh_below(ids: Seq<i64>, next: int) -> bool {
    &&& forall|i: int| 0 <= i < ids.len() ==> 1 <= #[trigger] ids[i] < next
    &&& forall|i: int, j: int| 0 <= i < j < ids.len() ==> ids[i] < ids[j]
}

pub open spec fn question_ids(rows: Seq<QuestionRow>) -> Seq<i64> {
    rows.map_values(|r: QuestionRow| r.id)
}

pub open spec fn answer_ids(rows: Seq<AnswerRow>) -> Seq<i64> {
    rows.map_values(|r: AnswerRow| r.id)
}

/// The answers among `rows` that belong to question `qid`, in table order.
pub open spec fn answers_of(rows: Seq<AnswerRow>, qid: int) -> Seq<AnswerRow>
    decreases rows.len(),
{
    if rows.len() == 0 {
        rows
    } else if rows.last().question_id == qid {
        answers_of(rows.drop_last(), qid).push(rows.last())
    } else {
        answers_of(rows.drop_last(), qid)
    }
}

impl StoreView {
    pub open spec fn wf(self) -> bool {
        &&& 1 <= self.next_id <= i64::MAX
        &&& ids_fresh_below(question_ids(self.questions), self.next_id)
        &&& ids_fresh_below(answer_ids(self.answers), self.next_id)
    }

    pub open spec fn has_question(self, id: int) -> bool {
        exists|i: int| 0 <= i < self.questions.len() && #[trigger] self.questions[i].id == id
    }

    pub open spec fn has_answer(self, id: int) -> bool {
        exists|i: int| 0 <= i < self.answers.len() && #[trigger] self.answers[i].id == id
    }

    /// Whether the store has run out of ids.
    pub open spec fn exhausted(self) -> bool {
        self.next_id == i64::MAX
    }
}

/// Whether `row` is the question row that an insert into `before` adds.
pub open spec fn new_question_row(before: StoreView, row: QuestionRow, title: String, description: String) -> bool {
    &&& row.id == before.next_id
    &&& row.title == title
    &&& row.description == description
    &&& row.created_at@ == id_text(row.id as int)
}

/// Whether `row` is the answer row that an insert into `before` adds.
pub open spec fn new_answer_row(before: StoreView, row: AnswerRow, question_id: i64, content: String) -> bool {
    &&& row.id == before.next_id
    &&& row.question_id == question_id
    &&& row.content == content
    &&& row.created_at@ == id_text(row.id as int)
}

/// The store after `row` was added to the questions table of `before`.
pub open spec fn with_question(before: StoreView, row: QuestionRow) -> StoreView {
    StoreView { questions: before.questions.push(row), answers: before.answers, next_id: before.next_id + 1 }
}

/// The store after `row` was added to the answers table of `before`.
pub open spec fn with_answer(before: StoreView, row: AnswerRow) -> StoreView {
    StoreView { questions: before.questions, answers: before.answers.push(row), next_id: before.next_id + 1 }
}

/// The store after the question with id `id`, if any, was deleted.
pub open spec fn without_question(before: StoreView, id: int) -> StoreView {
    if before.has_question(id) {
        let i = choose|i: int| 0 <= i < before.questions.len() && #[trigger] before.questions[i].id == id;
        StoreView { questions: before.questions.remove(i), ..before }
    } else {
        before
    }
}

/// The store after the answer with id `id`, if any, was deleted.
pub open spec fn without_answer(before: StoreView, id: int) -> StoreView {
    if before.has_answer(id) {
        let i = choose|i: int| 0 <= i < before.answers.len() && #[trigger] before.answers[i].id == id;
        StoreView { answers: before.answers.remove(i), ..before }
    } else {
        before
    }
}

/// How the store reports a failed insert: the database code, if there is
/// one, and the text of the cause.
pub struct StoreFailure {
    pub code: Option<String>,
    pub cause: String,
}

/// An in-process store with the semantics of the questions and answers
/// tables: ids are generated, rise, and are never handed out twice; an answer
/// must name a stored question when it is inserted. Each row is stamped with
/// its insertion sequence number, which is its id, as `created_at`.
pub struct MemoryStore {
    questions: Vec<QuestionRow>,
    answers: Vec<AnswerRow>,
    next_id: i64,
}

impl View for MemoryStore {
    type V = StoreView;

    closed spec fn view(&self) -> StoreView {
        StoreView { questions: self.questions@, answers: self.answers@, next_id: self.next_id as int }
    }
}

pub(crate) proof fn lemma_push_keeps_fresh(ids: Seq<i64>, next: int, id: i64)
    requires
        ids_fresh_below(ids, next),
        id == next,
        1 <= next,
    ensures
        ids_fresh_below(ids.push(id), next + 1),
{
}

proof fn lemma_remove_keeps_fresh(ids: Seq<i64>, next: int, k: int)
    requires
        ids_fresh_below(ids, next),
        0 <= k < ids.len(),
    ensures
        ids_fresh_below(ids.remove(k), next),
{
    let r = ids.remove(k);
    assert forall|i: int, j: int| 0 <= i < j < r.len() implies r[i] < r[j] by {
        let a = if i < k { i } else { i + 1 };
        let b = if j < k { j } else { j + 1 };
        assert(r[i] == ids[a] && r[j] == ids[b]);
    }
    assert forall|i: int| 0 <= i < r.len() implies 1 <= #[trigger] r[i] < next by {
        let a = if i < k { i } else { i + 1 };
        assert(r[i] == ids[a]);
    }
}

impl MemoryStore {
    /// An empty store.
    pub fn new() -> (r: MemoryStore)
        ensures
            r@.wf(),
            r@.questions.len() == 0,
            r@.answers.len() == 0,
            r@.next_id == 1,
    {
        let r = MemoryStore { questions: Vec::new(), answers: Vec::new(), next_id: 1 };
        assert(question_ids(r@.questions) =~= Seq::<i64>::empty());
        assert(answer_ids(r@.answers) =~= Seq::<i64>::empty());
        r
    }

    fn exhaustion() -> (r: StoreFailure)
        ensures
            r.code is None,
    {
        StoreFailure { code: None, cause: String::from_str("no identifiers are left") }
    }

    /// Adds a question; fails, changing nothing, only when no id is left.
    pub fn insert_question(&mut self, title: String, description: String) -> (r: Result<QuestionRow, StoreFailure>)
        requires
            old(self)@.wf(),
        ensures
            final(self)@.wf(),
            old(self)@.exhausted() ==> r is Err && r->Err_0.code is None && final(self)@ == old(self)@,
            !old(self)@.exhausted() ==> {
                &&& r is Ok
                &&& new_question_row(old(self)@, r->Ok_0, title, description)
                &&& final(self)@ == with_question(old(self)@, r->Ok_0)
            },
    {
        if self.next_id == i64::MAX {
            return Err(Self::exhaustion());
        }
        let id = self.next_id;
        let row = QuestionRow { id, title, description, created_at: id_string(id) };
        let ghost before = self@;
        self.questions.push(row.duplicate());
        self.next_id = id + 1;
        proof {
            assert(question_ids(self@.questions) =~= question_ids(before.questions).push(id));
            lemma_push_keeps_fresh(question_ids(before.questions), before.next_id, id);
        }
        Ok(row)
    }

    fn index_of_question(&self, id: i64) -> (r: Option<usize>)
        ensures
            r is Some ==> r->Some_0 < self@.questions.len() && self@.questions[r->Some_0 as int].id == id,
            r is None ==> !self@.has_question(id as int),
    {
        let mut i: usize = 0;
        while i < self.questions.len()
            invariant
                i <= self.questions.len(),
                forall|j: int| 0 <= j < i ==> (#[trigger] self.questions@[j]).id != id,
            decreases self.questions.len() - i,
        {
            if self.questions[i].id == id {
                return Some(i);
            }
            i = i + 1;
        }
        None
    }

    fn index_of_answer(&self, id: i64) -> (r: Option<usize>)
        ensures
            r is Some ==> r->Some_0 < self@.answers.len() && self@.answers[r->Some_0 as int].id == id,
            r is None ==> !self@.has_answer(id as int),
    {
        let mut i: usize = 0;
        while i < self.answers.len()
            invariant
                i <= self.answers.len(),
                forall|j: int| 0 <= j < i ==> (#[trigger] self.answers@[j]).id != id,
            decreases self.answers.len() - i,
        {
            if self.answers[i].id == id {
                return Some(i);
            }
            i = i + 1;
        }
        None
    }

    /// Adds an answer to question `question_id`. Fails, changing nothing,
    /// with the foreign-key code when no such question is stored, and
    /// without a code when no id is left.
    pub fn insert_answer(&mut self, question_id: i64, content: String) -> (r: Result<AnswerRow, StoreFailure>)
        requires
            old(self)@.wf(),
        ensures
            final(self)@.wf(),
            !old(self)@.has_question(question_id as int) ==> {
                &&& r is Err
                &&& r->Err_0.code is Some
                &&& r->Err_0.code->Some_0@ == crate::error::foreign_key_code()
                &&& final(self)@ == old(self)@
            },
            old(self)@.has_question(question_id as int) && old(self)@.exhausted() ==> {
                &&& r is Err
                &&& r->Err_0.code is None
                &&& final(self)@ == old(self)@
            },
            old(self)@.has_question(question_id as int) && !old(self)@.exhausted() ==> {
                &&& r is Ok
                &&& new_answer_row(old(self)@, r->Ok_0, question_id, content)
                &&& final(self)@ == with_answer(old(self)@, r->Ok_0)
            },
    {
        if self.index_of_question(question_id).is_none() {
            let code = String::from_str(crate::error::FOREIGN_KEY_VIOLATION);
            proof {
                reveal_strlit("787");
                assert(code@ =~= crate::error::foreign_key_code());
            }
            return Err(StoreFailure { code: Some(code), cause: String::from_str("FOREIGN KEY constraint failed") });
        }
        if self.next_id == i64::MAX {
            return Err(Self::exhaustion());
        }
        let id = self.next_id;
        let row = AnswerRow { id, question_id, content, created_at: id_string(id) };
        let ghost before = self@;
        self.answers.push(row.duplicate());
        self.next_id = id + 1;
        proof {
            assert(answer_ids(self@.answers) =~= answer_ids(before.answers).push(id));
            lemma_push_keeps_fresh(answer_ids(before.answers), before.next_id, id);
        }
        Ok(row)
    }

    /// Deletes the question with id `id`, if one is stored.
    pub fn delete_question(&mut self, id: i64)
        requires
            old(self)@.wf(),
        ensures
            final(self)@.wf(),
            final(self)@ == without_question(old(self)@, id as int),
    {
        match self.index_of_question(id) {
            None => {},
            Some(k) => {
                let ghost before = self@;
                let ghost ids = question_ids(before.questions);
                let ghost c = choose|i: int| 0 <= i < before.questions.len() && #[trigger] before.questions[i].id == id;
                assert(before.has_question(id as int));
                assert(ids[c] == id && ids[k as int] == id);
                proof {
                    if c < k as int {
                        assert(ids[c] < ids[k as int]);
                    } else if (k as int) < c {
                        assert(ids[k as int] < ids[c]);
                    }
                }
                self.questions.remove(k);
                proof {
                    assert(question_ids(self@.questions) =~= ids.remove(k as int));
                    lemma_remove_keeps_fresh(ids, before.next_id, k as int);
                }
                assert(self@ == without_question(before, id as int));
            },
        }
    }

    /// Deletes the answer with id `id`, if one is stored.
    pub fn delete_answer(&mut self, id: i64)
        requires
            old(self)@.wf(),
        ensures
            final(self)@.wf(),
            final(self)@ == without_answer(old(self)@, id as int),
    {
        match self.index_of_answer(id) {
            None => {},
            Some(k) => {
                let ghost before = self@;
                let ghost ids = answer_ids(before.answers);
                let ghost c = choose|i: int| 0 <= i < before.answers.len() && #[trigger] before.answers[i].id == id;
                assert(before.has_answer(id as int));
                assert(ids[c] == id && ids[k as int] == id);
                proof {
                    if c < k as int {
                        assert(ids[c] < ids[k as int]);
                    } else if (k as int) < c {
                        assert(ids[k as int] < ids[c]);
                    }
                }
                self.answers.remove(k);
                proof {
                    assert(answer_ids(self@.answers) =~= ids.remove(k as int));
                    lemma_remove_keeps_fresh(ids, before.next_id, k as int);
                }
                assert(self@ == without_answer(before, id as int));
            },
        }
    }

    /// Every stored question, in table order.
    pub fn select_questions(&self) -> (r: Vec<QuestionRow>)
        ensures
            r@ == self@.questions,
    {
        let mut out: Vec<QuestionRow> = Vec::new();
        let mut i: usize = 0;
        while i < self.questions.len()
            invariant
                i <= self.questions.len(),
                out@ == self.questions@.take(i as int),
            decreases self.questions.len() - i,
        {
            out.push(self.questions[i].duplicate());
            i = i + 1;
            assert(out@ =~= self.questions@.take(i as int));
        }
        assert(self.questions@.take(i as int) =~= self.questions@);
        out
    }

    /// The stored answers to question `question_id`, in table order.
    pub fn select_answers(&self, question_id: i64) -> (r: Vec<AnswerRow>)
        ensures
            r@ == answers_of(self@.answers, question_id as int),
    {
        let mut out: Vec<AnswerRow> = Vec::new();
        let mut i: usize = 0;
        while i < self.answers.len()
            invariant
                i <= self.answers.len(),
                out@ == answers_of(self.answers@.take(i as int), question_id as int),
            decreases self.answers.len() - i,
        {
            let ghost prefix = self.answers@.take(i as int + 1);
            assert(prefix.drop_last() =~= self.answers@.take(i as int));
            if self.answers[i].question_id == question_id {
                out.push(self.answers[i].duplicate());
            }
            i = i + 1;
        }
        assert(self.answers@.take(i as int) =~= self.answers@);
        out
    }
}

} // verus!
