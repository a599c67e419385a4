//! Data-access core of a small question-and-answer service: identifier
//! validation, the error taxonomy, the translation of storage rows and
//! storage failures, and an in-process store with the semantics of the two
//! tables.

pub mod dao;
pub mod error;
pub mod ident;
pub mod laws;
pub mod models;
pub mod store;
