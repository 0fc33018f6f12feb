//! A minimal question-bank library: validation and merge logic for question
//! records together with two in-memory persistence backends (one keyed by a
//! server-assigned integer identifier, one keyed by a client-supplied string
//! identifier), each exposing list / get / insert / replace / delete.

pub mod errors;
pub mod model;
pub mod payload;
pub mod questions_database;
pub mod questions_table;
pub mod request_handlers;
