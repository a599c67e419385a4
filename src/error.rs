use vstd::prelude::*;

verus! {

/// Failures of the data-access layer.
///
/// `InvalidUUID` is bad input: an identifier that does not parse, or one that
/// names a question that does not exist. `Other` is any other storage
/// failure, carried as the text of its cause.
#[derive(Debug, Clone, PartialEq, Eq)]
pub enum DBError {
    InvalidUUID(String),
    Other(String),
}

impl DBError {
    /// Whether this is `InvalidUUID` with the given message.
    pub open spec fn is_invalid_id(&self, message: Seq<char>) -> bool {
        &&& self is InvalidUUID
        &&& self->InvalidUUID_0@ == message
    }
}

/// The extended result code with which SQLite reports a foreign-key
/// constraint violation.
pub const FOREIGN_KEY_VIOLATION: &'static str = "787";

pub open spec fn foreign_key_code() -> Seq<char> {
    seq!['7', '8', '7']
}

/// Text of the error for a question id that names no stored question.
pub open spec fn invalid_question_message(question_id: Seq<char>) -> Seq<char> {
    "Invalid question UUID: "@ + question_id
}

/// Translates the failure of an answer insert, given the database code that
/// came with it (if any) and the text of its cause.
pub fn translate_insert_failure(code: Option<String>, cause: String, question_id: &str) -> (r: DBError)
    ensures
        code.is_some() && code.unwrap()@ == foreign_key_code() ==> r.is_invalid_id(
            invalid_question_message(question_id@),
        ),
        !(code.is_some() && code.unwrap()@ == foreign_key_code()) ==> r == DBError::Other(cause),
{
    let fk = String::from_str(FOREIGN_KEY_VIOLATION);
    proof {
        reveal_strlit("787");
        assert(fk@ =~= foreign_key_code());
    }
    match code {
        Some(c) => {
            if c == fk {
                let msg = String::from_str("Invalid question UUID: ").concat(question_id);
                DBError::InvalidUUID(msg)
            } else {
                DBError::Other(cause)
            }
        },
        None => DBError::Other(cause),
    }
}

#[verifier::external_type_specification]
#[verifier::external_body]
pub struct ExSqlxError(sqlx::Error);

/// The code that the database reported with a storage failure, if any.
pub uninterp spec fn code_of(e: sqlx::Error) -> Option<Seq<char>>;

/// The text of a storage failure that the database reported with a code.
/// The database fixes that message when the error is built.
pub uninterp spec fn database_text_of(e: sqlx::Error) -> Seq<char>;

/// Relies on `sqlx::Error::as_database_error` and `DatabaseError::code`: the
/// code that the database reported with the failure, if it reported one.
#[verifier::external_body]
fn database_code(e: &sqlx::Error) -> (r: Option<String>)
    ensures
        r is Some <==> code_of(*e) is Some,
        r is Some ==> r->Some_0@ == code_of(*e)->Some_0,
{
    e.as_database_error().and_then(|d| d.code()).map(|c| c.into_owned())
}

/// Relies on the `Display` impl of `sqlx::Error`: the text of the failure.
/// Only the text of a failure that the database reported with a code is
/// fixed by the value; other failures (an OS error) may be worded by the
/// platform.
#[verifier::external_body]
fn cause_text(e: &sqlx::Error) -> (r: String)
    ensures
        code_of(*e) is Some ==> r@ == database_text_of(*e),
{
    e.to_string()
}

/// Translates a failure of the storage layer on an answer insert: a
/// foreign-key violation is bad input naming the question id, anything else
/// is `Other` with the text of the failure (which is the database's message
/// where the database reported the failure).
pub fn insert_failure(e: sqlx::Error, question_id: &str) -> (r: DBError)
    ensures
        code_of(e) == Some(foreign_key_code()) ==> r.is_invalid_id(invalid_question_message(question_id@)),
        code_of(e) != Some(foreign_key_code()) ==> r is Other,
        code_of(e) is Some && code_of(e) != Some(foreign_key_code()) ==> r->Other_0@ == database_text_of(e),
{
    let code = database_code(&e);
    let cause = cause_text(&e);
    translate_insert_failure(code, cause, question_id)
}

/// Translates any other failure of the storage layer: `Other`, with the text
/// of the failure (the database's message where the database reported it).
pub fn storage_failure(e: sqlx::Error) -> (r: DBError)
    ensures
        r is Other,
        code_of(e) is Some ==> r->Other_0@ == database_text_of(e),
{
    DBError::Other(cause_text(&e))
}

} // verus!
