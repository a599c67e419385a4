use vstd::prelude::*;
use crate::ident::{id_text, is_id_text, lemma_id_text_round_trip, signed_value};
use crate::models::{AnswerRow, QuestionRow};
use crate::store::{
    answer_ids, answers_of, lemma_push_keeps_fresh, new_answer_row, new_question_row, question_ids,
    with_answer, with_question, without_answer, without_question, StoreView,
};

verus! {

/// A created question is listed afterwards, last, with the title and
/// description it was created with, under an id that is above every id
/// the store held before.
pub proof fn law_created_question_is_listed(before: StoreView, row: QuestionRow, title: String, description: String)
    requires
        before.wf(),
        !before.exhausted(),
        new_question_row(before, row, title, description),
    ensures
        with_question(before, row).wf(),
        with_question(before, row).questions.last() == row,
        row.title == title && row.description == description,
        forall|i: int| 0 <= i < before.questions.len() ==> #[trigger] before.questions[i].id < row.id,
        forall|i: int| 0 <= i < before.answers.len() ==> #[trigger] before.answers[i].id < row.id,
{
    let after = with_question(before, row);
    assert(question_ids(after.questions) =~= question_ids(before.questions).push(row.id));
    lemma_push_keeps_fresh(question_ids(before.questions), before.next_id, row.id);
    assert forall|i: int| 0 <= i < before.questions.len() implies #[trigger] before.questions[i].id < row.id by {
        assert(question_ids(before.questions)[i] == before.questions[i].id);
    }
    assert forall|i: int| 0 <= i < before.answers.len() implies #[trigger] before.answers[i].id < row.id by {
        assert(answer_ids(before.answers)[i] == before.answers[i].id);
    }
}

/// Deleting an id that names no row changes neither table.
pub proof fn law_delete_missing_is_noop(before: StoreView, id: int)
    ensures
        !before.has_question(id) ==> without_question(before, id) == before,
        !before.has_answer(id) ==> without_answer(before, id) == before,
{
}

/// The answers listed for a question are exactly the stored answers that
/// name it: each listed one names it, and each one that names it is listed.
pub proof fn law_answers_listed_for_question(answers: Seq<AnswerRow>, qid: int)
    ensures
        forall|i: int| 0 <= i < answers_of(answers, qid).len() ==> (#[trigger] answers_of(answers, qid)[i]).question_id == qid,
        forall|i: int| 0 <= i < answers_of(answers, qid).len() ==> answers.contains(#[trigger] answers_of(answers, qid)[i]),
        forall|j: int| 0 <= j < answers.len() && (#[trigger] answers[j]).question_id == qid ==> answers_of(answers, qid).contains(answers[j]),
    decreases answers.len(),
{
    if answers.len() > 0 {
        let rest = answers.drop_last();
        law_answers_listed_for_question(rest, qid);
        let sel = answers_of(answers, qid);
        let rsel = answers_of(rest, qid);
        assert forall|i: int| 0 <= i < sel.len() implies answers.contains(#[trigger] sel[i]) by {
            if i < rsel.len() {
                assert(rest.contains(rsel[i]));
                let k = choose|k: int| 0 <= k < rest.len() && rest[k] == rsel[i];
                assert(answers[k] == rest[k]);
            } else {
                assert(sel[i] == answers[answers.len() - 1]);
            }
        }
        assert forall|j: int| 0 <= j < answers.len() && (#[trigger] answers[j]).question_id == qid implies sel.contains(answers[j]) by {
            if j < rest.len() {
                assert(answers[j] == rest[j]);
                assert(rsel.contains(rest[j]));
                let k = choose|k: int| 0 <= k < rsel.len() && rsel[k] == rest[j];
                assert(sel[k] == rsel[k]);
            } else {
                assert(sel[sel.len() - 1] == answers[j]);
            }
        }
    }
}

proof fn lemma_answers_of_append(a: Seq<AnswerRow>, b: Seq<AnswerRow>, qid: int)
    ensures
        answers_of(a + b, qid) == answers_of(a, qid) + answers_of(b, qid),
    decreases b.len(),
{
    if b.len() == 0 {
        assert(a + b =~= a);
        assert(answers_of(a, qid) + answers_of(b, qid) =~= answers_of(a, qid));
    } else {
        let rest = b.drop_last();
        assert((a + b).drop_last() =~= a + rest);
        assert((a + b).last() == b.last());
        lemma_answers_of_append(a, rest, qid);
        if b.last().question_id == qid {
            assert(answers_of(a, qid) + answers_of(rest, qid).push(b.last()) =~= (answers_of(a, qid)
                + answers_of(rest, qid)).push(b.last()));
        }
    }
}

/// Answers created one after another into a store that held no answer to
/// question `qid` (a failed create leaves the store as it was) are listed
/// for `qid` exactly when they name it, in the order of creation: nothing
/// created against another question shows, and nothing created against
/// `qid` is missing.
pub proof fn law_answers_listed_after_creations(before: StoreView, created: Seq<AnswerRow>, qid: int)
    requires
        answers_of(before.answers, qid).len() == 0,
    ensures
        answers_of(before.answers + created, qid) == answers_of(created, qid),
        forall|i: int|
            0 <= i < answers_of(created, qid).len() ==> (#[trigger] answers_of(created, qid)[i]).question_id == qid
                && created.contains(answers_of(created, qid)[i]),
        forall|j: int|
            0 <= j < created.len() && (#[trigger] created[j]).question_id == qid ==> answers_of(
                created,
                qid,
            ).contains(created[j]),
{
    lemma_answers_of_append(before.answers, created, qid);
    assert(answers_of(before.answers, qid) + answers_of(created, qid) =~= answers_of(created, qid));
    law_answers_listed_for_question(created, qid);
}

/// The text of a created question's id, handed to delete, names that
/// question: deleting it removes exactly that one row, leaving the
/// questions as they were before it was created.
pub proof fn law_created_question_deleted_by_its_id(before: StoreView, row: QuestionRow, title: String, description: String)
    requires
        before.wf(),
        !before.exhausted(),
        new_question_row(before, row, title, description),
    ensures
        is_id_text(id_text(row.id as int)),
        signed_value(id_text(row.id as int)) == row.id,
        without_question(with_question(before, row), row.id as int).questions == before.questions,
        without_question(with_question(before, row), row.id as int).questions.len() + 1 == with_question(
            before,
            row,
        ).questions.len(),
        !without_question(with_question(before, row), row.id as int).has_question(row.id as int),
{
    lemma_id_text_round_trip(row.id);
    law_created_question_is_listed(before, row, title, description);
    let after = with_question(before, row);
    let n = before.questions.len() as int;
    assert(after.questions[n] == row);
    assert(after.has_question(row.id as int));
    let c = choose|i: int| 0 <= i < after.questions.len() && #[trigger] after.questions[i].id == row.id;
    if c < n {
        assert(before.questions[c].id < row.id);
    }
    assert(after.questions.remove(n) =~= before.questions);
    let gone = without_question(after, row.id as int);
    assert forall|i: int| 0 <= i < gone.questions.len() implies #[trigger] gone.questions[i].id != row.id by {
        assert(before.questions[i].id < row.id);
    }
}

/// The text of a created answer's id, handed to delete, names that answer:
/// deleting it removes exactly that one row, leaving the answers as they
/// were before it was created.
pub proof fn law_created_answer_deleted_by_its_id(before: StoreView, row: AnswerRow, question_id: i64, content: String)
    requires
        before.wf(),
        !before.exhausted(),
        new_answer_row(before, row, question_id, content),
    ensures
        is_id_text(id_text(row.id as int)),
        signed_value(id_text(row.id as int)) == row.id,
        without_answer(with_answer(before, row), row.id as int).answers == before.answers,
        without_answer(with_answer(before, row), row.id as int).answers.len() + 1 == with_answer(
            before,
            row,
        ).answers.len(),
        !without_answer(with_answer(before, row), row.id as int).has_answer(row.id as int),
{
    lemma_id_text_round_trip(row.id);
    let after = with_answer(before, row);
    let n = before.answers.len() as int;
    assert forall|i: int| 0 <= i < before.answers.len() implies #[trigger] before.answers[i].id < row.id by {
        assert(answer_ids(before.answers)[i] == before.answers[i].id);
    }
    assert(after.answers[n] == row);
    assert(after.has_answer(row.id as int));
    let c = choose|i: int| 0 <= i < after.answers.len() && #[trigger] after.answers[i].id == row.id;
    if c < n {
        assert(before.answers[c].id < row.id);
    }
    assert(after.answers.remove(n) =~= before.answers);
    let gone = without_answer(after, row.id as int);
    assert forall|i: int| 0 <= i < gone.answers.len() implies #[trigger] gone.answers[i].id != row.id by {
        assert(before.answers[i].id < row.id);
    }
}

} // verus!
