//! The request-level value types of the service and the compute parts of
//! its endpoints: parsing plus persistence behind the parse endpoints, and
//! the status-code mapping of errors. Rendering these values on the wire is
//! the surrounding program's business.

use vstd::prelude::*;
use crate::database::{same_record, QuestionRepository};
use crate::models::Question;
use crate::parser::{md_events_of, parse_markdown, spec_parse_questions};
use crate::processor::always_accepts;

verus! {

/// The service version reported by the health endpoint.
pub const API_VERSION: &'static str = "0.1.0";

/// Error reported by an endpoint.
#[derive(Debug)]
pub enum ApiError {
    ParseError(String),
    DatabaseError(String),
    InvalidFile(String),
    MultipartError(String),
}

impl ApiError {
    /// The HTTP status code this error renders as: an internal server error
    /// for a failing backend, a bad request otherwise.
    pub fn status_code(&self) -> (r: u16)
        ensures
            r == 500 <==> self is DatabaseError,
            self is DatabaseError || r == 400,
    {
        match self {
            ApiError::ParseError(_) => 400,
            ApiError::DatabaseError(_) => 500,
            ApiError::InvalidFile(_) => 400,
            ApiError::MultipartError(_) => 400,
        }
    }

    /// The machine-readable error kind.
    pub fn error_kind(&self) -> (r: &'static str)
        ensures
            self is ParseError ==> r@ == "parse_error"@,
            self is DatabaseError ==> r@ == "database_error"@,
            self is InvalidFile ==> r@ == "invalid_file"@,
            self is MultipartError ==> r@ == "multipart_error"@,
    {
        match self {
            ApiError::ParseError(_) => "parse_error",
            ApiError::DatabaseError(_) => "database_error",
            ApiError::InvalidFile(_) => "invalid_file",
            ApiError::MultipartError(_) => "multipart_error",
        }
    }

    /// The human-readable message carried by this error.
    pub fn message(&self) -> (r: &String)
        ensures
            self matches ApiError::ParseError(m) ==> r@ == m@,
            self matches ApiError::DatabaseError(m) ==> r@ == m@,
            self matches ApiError::InvalidFile(m) ==> r@ == m@,
            self matches ApiError::MultipartError(m) ==> r@ == m@,
    {
        match self {
            ApiError::ParseError(m) => m,
            ApiError::DatabaseError(m) => m,
            ApiError::InvalidFile(m) => m,
            ApiError::MultipartError(m) => m,
        }
    }
}

/// Parse request for a single markdown document.
#[derive(Debug)]
pub struct ParseRequest {
    pub markdown: String,
}

/// Response after parsing one markdown document.
#[derive(Debug)]
pub struct ParseResponse {
    pub count: usize,
    pub question_ids: Vec<u128>,
    pub questions: Vec<Question>,
    pub warnings: Vec<String>,
}

/// Response after parsing an uploaded archive.
#[derive(Debug)]
pub struct ParseZipResponse {
    pub count: usize,
    pub question_ids: Vec<u128>,
    pub questions: Vec<Question>,
    pub images_processed: usize,
    pub warnings: Vec<String>,
}

/// Health check response.
#[derive(Debug)]
pub struct HealthResponse {
    pub status: String,
    pub version: String,
}

/// Error response structure.
#[derive(Debug)]
pub struct ErrorResponse {
    pub error: String,
    pub message: String,
}

/// The health report: always `ok`, with the service version.
pub fn health_status() -> (r: HealthResponse)
    ensures
        r.status@ == "ok"@,
        r.version@ == API_VERSION@,
{
    HealthResponse { status: String::from_str("ok"), version: String::from_str(API_VERSION) }
}

/// The compute part of the parse endpoint: parse the document, save every
/// extracted question as one batch, and report the saved records with their
/// identifiers. A repository that accepts every batch never turns this into
/// an error; a failing backend leaves the store unchanged and reports a
/// database error.
pub fn parse_and_save<R: QuestionRepository>(repo: &mut R, markdown: &str) -> (r: Result<
    ParseResponse,
    ApiError,
>)
    ensures
        always_accepts::<R>() ==> r is Ok,
        r is Ok ==> {
            let out = r->Ok_0;
            &&& out.questions@.map_values(|q: Question| q@) == spec_parse_questions(
                md_events_of(markdown@),
            )
            &&& out.count == out.questions@.len()
            &&& out.question_ids@ == out.questions@.map_values(|q: Question| q.id)
            &&& out.warnings@.len() == 0
            &&& final(repo).stored().len() == old(repo).stored().len() + out.count
            &&& forall|j: int|
                0 <= j < out.count ==> same_record(
                    #[trigger] final(repo).stored()[old(repo).stored().len() + j],
                    out.questions@[j],
                )
        },
        r is Err ==> r->Err_0 is DatabaseError && final(repo).stored() == old(repo).stored(),
{
    let questions = parse_markdown(markdown);
    let count = questions.len();
    let ghost parsed = questions@;
    let mut to_save: Vec<Question> = Vec::new();
    let n = questions.len();
    for i in 0..n
        invariant
            n == questions@.len(),
            questions@ == parsed,
            to_save@.len() == i,
            forall|j: int| 0 <= j < i ==> same_record(#[trigger] to_save@[j], parsed[j]),
    {
        to_save.push(questions[i].duplicate());
    }
    match repo.save_batch(to_save) {
        Result::Ok(ids) => {
            proof {
                assert(ids@ =~= parsed.map_values(|q: Question| q.id));
            }
            Result::Ok(ParseResponse { count, question_ids: ids, questions, warnings: Vec::new() })
        },
        Result::Err(e) => Result::Err(ApiError::DatabaseError(e.message)),
    }
}

} // verus!
