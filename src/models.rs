use vstd::prelude::*;
use crate::ident::{id_string, id_text};

verus! {

/// A question as a caller submits it.
#[derive(Debug, Clone, PartialEq, Eq)]
pub struct Question {
    pub title: String,
    pub description: String,
}

/// A stored question as callers see it, with its id as decimal text.
#[derive(Debug, Clone, PartialEq, Eq)]
pub struct QuestionDetail {
    pub question_uuid: String,
    pub title: String,
    pub description: String,
    pub created_at: String,
}

/// An answer as a caller submits it, naming its question by the id's text.
#[derive(Debug, Clone, PartialEq, Eq)]
pub struct Answer {
    pub question_uuid: String,
    pub content: String,
}

/// A stored answer as callers see it, with its ids as decimal text.
#[derive(Debug, Clone, PartialEq, Eq)]
pub struct AnswerDetail {
    pub answer_uuid: String,
    pub question_uuid: String,
    pub content: String,
    pub created_at: String,
}

/// A row of the questions table.
#[derive(Debug)]
pub struct QuestionRow {
    pub id: i64,
    pub title: String,
    pub description: String,
    pub created_at: String,
}

/// A row of the answers table.
#[derive(Debug)]
pub struct AnswerRow {
    pub id: i64,
    pub question_id: i64,
    pub content: String,
    pub created_at: String,
}

impl QuestionRow {
    pub fn duplicate(&self) -> (r: QuestionRow)
        ensures
            r == *self,
    {
        QuestionRow {
            id: self.id,
            title: self.title.clone(),
            description: self.description.clone(),
            created_at: self.created_at.clone(),
        }
    }
}

impl AnswerRow {
    pub fn duplicate(&self) -> (r: AnswerRow)
        ensures
            r == *self,
    {
        AnswerRow {
            id: self.id,
            question_id: self.question_id,
            content: self.content.clone(),
            created_at: self.created_at.clone(),
        }
    }
}

/// Whether `d` is what callers see of the row `r`.
pub open spec fn shows_question(d: QuestionDetail, r: QuestionRow) -> bool {
    &&& d.question_uuid@ == id_text(r.id as int)
    &&& d.title == r.title
    &&& d.description == r.description
    &&& d.created_at == r.created_at
}

/// Whether `d` is what callers see of the row `r`.
pub open spec fn shows_answer(d: AnswerDetail, r: AnswerRow) -> bool {
    &&& d.answer_uuid@ == id_text(r.id as int)
    &&& d.question_uuid@ == id_text(r.question_id as int)
    &&& d.content == r.content
    &&& d.created_at == r.created_at
}

/// What callers see of a stored question.
pub fn question_detail(r: QuestionRow) -> (d: QuestionDetail)
    ensures
        shows_question(d, r),
{
    QuestionDetail {
        question_uuid: id_string(r.id),
        title: r.title,
        description: r.description,
        created_at: r.created_at,
    }
}

/// What callers see of a stored answer.
pub fn answer_detail(r: AnswerRow) -> (d: AnswerDetail)
    ensures
        shows_answer(d, r),
{
    AnswerDetail {
        answer_uuid: id_string(r.id),
        question_uuid: id_string(r.question_id),
        content: r.content,
        created_at: r.created_at,
    }
}

/// What callers see of a sequence of stored questions, in the same order.
pub fn question_details(rows: Vec<QuestionRow>) -> (r: Vec<QuestionDetail>)
    ensures
        r.len() == rows.len(),
        forall|i: int| 0 <= i < rows.len() ==> shows_question(#[trigger] r[i], rows[i]),
{
    let mut out: Vec<QuestionDetail> = Vec::new();
    let mut i: usize = 0;
    while i < rows.len()
        invariant
            i <= rows.len(),
            out.len() == i,
            forall|j: int| 0 <= j < i ==> shows_question(#[trigger] out[j], rows[j]),
        decreases rows.len() - i,
    {
        out.push(question_detail(rows[i].duplicate()));
        i = i + 1;
    }
    out
}

/// What callers see of a sequence of stored answers, in the same order.
pub fn answer_details(rows: Vec<AnswerRow>) -> (r: Vec<AnswerDetail>)
    ensures
        r.len() == rows.len(),
        forall|i: int| 0 <= i < rows.len() ==> shows_answer(#[trigger] r[i], rows[i]),
{
    let mut out: Vec<AnswerDetail> = Vec::new();
    let mut i: usize = 0;
    while i < rows.len()
        invariant
            i <= rows.len(),
            out.len() == i,
            forall|j: int| 0 <= j < i ==> shows_answer(#[trigger] out[j], rows[j]),
        decreases rows.len() - i,
    {
        out.push(answer_detail(rows[i].duplicate()));
        i = i + 1;
    }
    out
}

} // verus!
