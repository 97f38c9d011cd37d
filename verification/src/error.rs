//! The application's errors and the HTTP answer each one gets.

use vstd::prelude::*;
use crate::text::{concat3, str_contains, contains_seq};

verus! {

/// Errors of the application. Database and HTTP-client errors carry the
/// description of the underlying error.
#[derive(Debug)]
pub enum AppError {
    NotFound(String),
    BadRequest(String),
    Database(String),
    HttpClient(String),
    Ai(String),
    Internal(String),
}

/// The HTTP status and the `error` message that a client is shown for `e`.
/// Database and internal details are not shown.
pub open spec fn response_of(e: AppError) -> (u16, Seq<char>) {
    match e {
        AppError::NotFound(msg) => (404, msg@),
        AppError::BadRequest(msg) => (400, msg@),
        AppError::Database(_) => (500, "Database error"@),
        AppError::HttpClient(_) => (502, "External service error"@),
        AppError::Ai(msg) => (502, "AI service error: "@ + msg@),
        AppError::Internal(_) => (500, "Internal error"@),
    }
}

/// The status code and message of the JSON error body answered for `e`.
pub fn error_response(e: &AppError) -> (r: (u16, String))
    ensures
        (r.0, r.1@) == response_of(*e),
{
    match e {
        AppError::NotFound(msg) => (404, msg.clone()),
        AppError::BadRequest(msg) => (400, msg.clone()),
        AppError::Database(_) => (500, "Database error".to_string()),
        AppError::HttpClient(_) => (502, "External service error".to_string()),
        AppError::Ai(msg) => {
            let mut m = "AI service error: ".to_string();
            m.append(msg.as_str());
            (502, m)
        },
        AppError::Internal(_) => (500, "Internal error".to_string()),
    }
}

/// The error for a failed location insert: a uniqueness violation (a database
/// message mentioning `UNIQUE`) is a bad request naming the chain and zip code;
/// anything else is a database error.
pub open spec fn insert_error_of(
    db_message: Option<Seq<char>>,
    description: Seq<char>,
    chain_id: Seq<char>,
    zip_code: Seq<char>,
) -> (bool, Seq<char>) {
    match db_message {
        Some(m) if contains_seq(m, "UNIQUE"@) => (
            true,
            "A "@ + chain_id + " location for zip "@ + zip_code + " already exists"@,
        ),
        _ => (false, description),
    }
}

/// The characters of an optional string slice.
pub open spec fn opt_str_view(o: Option<&str>) -> Option<Seq<char>> {
    match o {
        Some(s) => Some(s@),
        None => None,
    }
}

/// Maps the failure of inserting a store location to the application's error.
/// `db_message` is the database's own message, when the failure came from the database.
pub fn insert_location_error(
    db_message: Option<&str>,
    description: String,
    chain_id: &str,
    zip_code: &str,
) -> (r: AppError)
    ensures
        match r {
            AppError::BadRequest(m) => insert_error_of(
                opt_str_view(db_message),
                description@,
                chain_id@,
                zip_code@,
            ) == (true, m@),
            AppError::Database(m) => insert_error_of(
                opt_str_view(db_message),
                description@,
                chain_id@,
                zip_code@,
            ) == (false, m@),
            _ => false,
        },
{
    let unique = match db_message {
        Some(m) => str_contains(m, "UNIQUE"),
        None => false,
    };
    if unique {
        let mut m = concat3("A ", chain_id, " location for zip ");
        m.append(zip_code);
        m.append(" already exists");
        AppError::BadRequest(m)
    } else {
        AppError::Database(description)
    }
}

} // verus!
