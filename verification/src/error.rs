//! What an API error answers: its HTTP status, the kind of refusal the
//! client reads, and the message. The text of an internal failure never
//! reaches the client: the messages of the database layer name tables,
//! unique indexes and paths inside the container.

use crate::text::{chars_of, str_eq, string_from_chars};
use vstd::prelude::*;

verus! {

/// A field of a form that did not pass, with the reason.
#[derive(Clone, Debug)]
pub struct FieldError {
    pub field: String,
    pub code: String,
    pub message: String,
}

/// A refusal kind chosen by the handler: its number, which a person reads
/// out to support, and its slug, which a client parses.
#[derive(Clone, Debug)]
pub struct ErrorCode {
    pub number: u32,
    pub slug: String,
}

/// An API error.
#[derive(Clone, Debug)]
pub enum AppError {
    NotFound(String),
    Unauthorized(String),
    Forbidden(String),
    BadRequest(String),
    Conflict(String),
    /// The form parsed but its values do not do: 422, not 400.
    Validation(Vec<FieldError>),
    /// A refusal with a kind of its own, for clients that must tell causes
    /// apart within one status.
    Coded { status: u16, code: ErrorCode, message: String },
    /// A database failure: `row_not_found` for a query that found no row,
    /// `sqlstate` the database's own code where it gave one, `text` what
    /// the failure says.
    Db { row_not_found: bool, sqlstate: Option<String>, text: String },
    /// Any other failure, with the SQLSTATE of a database failure wrapped
    /// inside it, if there is one.
    Other { sqlstate: Option<String>, text: String },
}

/// The kind of refusal an answer carries.
#[derive(Clone, Debug)]
pub enum ResponseCode {
    NotFound,
    Unauthorized,
    Forbidden,
    BadRequest,
    Conflict,
    Validation,
    /// A unique index refused the write: "such a record already exists".
    AlreadyExists,
    Internal,
    /// The kind a coded refusal names.
    Given(ErrorCode),
}

/// `not_found`, 1301: what the request names is not there.
pub fn not_found_code() -> (r: ErrorCode)
    ensures
        r.number == 1301,
        r.slug@ == "not_found"@,
{
    ErrorCode { number: 1301, slug: owned("not_found") }
}

/// `validation_error`, 1102: the values of a form do not do.
pub fn validation_code() -> (r: ErrorCode)
    ensures
        r.number == 1102,
        r.slug@ == "validation_error"@,
{
    ErrorCode { number: 1102, slug: owned("validation_error") }
}

/// `internal_error`, 1901: the server failed.
pub fn internal_code() -> (r: ErrorCode)
    ensures
        r.number == 1901,
        r.slug@ == "internal_error"@,
{
    ErrorCode { number: 1901, slug: owned("internal_error") }
}

/// `step_up_required`, 1003: a forbidden request that passes once the
/// user confirms with a passkey.
pub fn step_up_required_code() -> (r: ErrorCode)
    ensures
        r.number == 1003,
        r.slug@ == "step_up_required"@,
{
    ErrorCode { number: 1003, slug: owned("step_up_required") }
}

/// The number and slug of each kind of refusal the library itself
/// answers with, as the service's table of codes assigns them; a coded
/// refusal brings its own. Of that table the library holds the entries
/// `not_found_code`, `validation_code`, `internal_code` and
/// `step_up_required_code`; the caller hands in the whole table.
#[derive(Clone, Debug)]
pub struct StandardCodes {
    pub not_found: ErrorCode,
    pub unauthorized: ErrorCode,
    pub forbidden: ErrorCode,
    pub bad_request: ErrorCode,
    pub conflict: ErrorCode,
    pub validation: ErrorCode,
    pub already_exists: ErrorCode,
    pub internal: ErrorCode,
}

/// The table of codes with the entries the library holds, `not_found`
/// (1301), `validation_error` (1102) and `internal_error` (1901), and the
/// other kinds' entries as given.
pub fn standard_codes(
    unauthorized: ErrorCode,
    forbidden: ErrorCode,
    bad_request: ErrorCode,
    conflict: ErrorCode,
    already_exists: ErrorCode,
) -> (r: StandardCodes)
    ensures
        r.not_found.number == 1301 && r.not_found.slug@ == "not_found"@,
        r.validation.number == 1102 && r.validation.slug@ == "validation_error"@,
        r.internal.number == 1901 && r.internal.slug@ == "internal_error"@,
        r.unauthorized == unauthorized,
        r.forbidden == forbidden,
        r.bad_request == bad_request,
        r.conflict == conflict,
        r.already_exists == already_exists,
{
    StandardCodes {
        not_found: not_found_code(),
        unauthorized,
        forbidden,
        bad_request,
        conflict,
        validation: validation_code(),
        already_exists,
        internal: internal_code(),
    }
}

/// The number and slug a kind of refusal is answered with.
pub open spec fn code_in(kind: ResponseCode, codes: StandardCodes) -> ErrorCode {
    match kind {
        ResponseCode::NotFound => codes.not_found,
        ResponseCode::Unauthorized => codes.unauthorized,
        ResponseCode::Forbidden => codes.forbidden,
        ResponseCode::BadRequest => codes.bad_request,
        ResponseCode::Conflict => codes.conflict,
        ResponseCode::Validation => codes.validation,
        ResponseCode::AlreadyExists => codes.already_exists,
        ResponseCode::Internal => codes.internal,
        ResponseCode::Given(c) => c,
    }
}

/// What a refused request is answered: the body
/// `{"error": {"number", "code", "message", "details"?}}` with its status.
#[derive(Clone, Debug)]
pub struct ErrorResponse {
    pub status: u16,
    /// The kind of refusal.
    pub kind: ResponseCode,
    /// The kind's number, which a person reads out to support.
    pub number: u32,
    /// The kind's slug, which a client parses.
    pub code: String,
    pub message: String,
    /// The fields at fault; present only for a refused form.
    pub details: Option<Vec<FieldError>>,
}

/// A refusal with its own kind.
pub fn coded(status: u16, code: ErrorCode, message: String) -> (r: AppError)
    ensures
        r == (AppError::Coded { status, code, message }),
{
    AppError::Coded { status, code, message }
}

/// `400` with a kind of its own: the most common refusal on the merits.
pub fn bad(code: ErrorCode, message: String) -> (r: AppError)
    ensures
        r == (AppError::Coded { status: 400, code, message }),
{
    coded(400, code, message)
}

/// `409`: the request is fine, the state is not.
pub fn state(code: ErrorCode, message: String) -> (r: AppError)
    ensures
        r == (AppError::Coded { status: 409, code, message }),
{
    coded(409, code, message)
}

/// `502`: neither the client nor the server failed, but the service the
/// server asked.
pub fn upstream(code: ErrorCode, message: String) -> (r: AppError)
    ensures
        r == (AppError::Coded { status: 502, code, message }),
{
    coded(502, code, message)
}

/// A database code of a unique index violation.
pub open spec fn is_unique_code(sqlstate: Option<String>) -> bool {
    sqlstate matches Some(c) && c@ == "23505"@
}

/// The error is a unique index refusing a write: "such a record already
/// exists", not a fault of the server. The database failure may come
/// wrapped in another error.
pub open spec fn unique_violation(e: AppError) -> bool {
    match e {
        AppError::Db { sqlstate, .. } => is_unique_code(sqlstate),
        AppError::Other { sqlstate, .. } => is_unique_code(sqlstate),
        _ => false,
    }
}

/// The HTTP status of an error.
pub open spec fn status_spec(e: AppError) -> u16 {
    match e {
        AppError::NotFound(_) => 404,
        AppError::Unauthorized(_) => 401,
        AppError::Forbidden(_) => 403,
        AppError::BadRequest(_) => 400,
        AppError::Conflict(_) => 409,
        AppError::Validation(_) => 422,
        AppError::Coded { status, .. } => status,
        AppError::Db { row_not_found, .. } => if row_not_found {
            404
        } else if unique_violation(e) {
            409
        } else {
            500
        },
        AppError::Other { .. } => if unique_violation(e) {
            409
        } else {
            500
        },
    }
}

/// The kind of refusal an error answers with, by the same cases as its
/// status.
pub open spec fn code_spec(e: AppError) -> ResponseCode {
    match e {
        AppError::NotFound(_) => ResponseCode::NotFound,
        AppError::Unauthorized(_) => ResponseCode::Unauthorized,
        AppError::Forbidden(_) => ResponseCode::Forbidden,
        AppError::BadRequest(_) => ResponseCode::BadRequest,
        AppError::Conflict(_) => ResponseCode::Conflict,
        AppError::Validation(_) => ResponseCode::Validation,
        AppError::Coded { code, .. } => ResponseCode::Given(code),
        AppError::Db { row_not_found, .. } => if row_not_found {
            ResponseCode::NotFound
        } else if unique_violation(e) {
            ResponseCode::AlreadyExists
        } else {
            ResponseCode::Internal
        },
        AppError::Other { .. } => if unique_violation(e) {
            ResponseCode::AlreadyExists
        } else {
            ResponseCode::Internal
        },
    }
}

/// What the error says of itself.
pub open spec fn text_spec(e: AppError) -> Seq<char> {
    match e {
        AppError::NotFound(m) => m@,
        AppError::Unauthorized(m) => m@,
        AppError::Forbidden(m) => m@,
        AppError::BadRequest(m) => m@,
        AppError::Conflict(m) => m@,
        AppError::Validation(_) => "request validation failed"@,
        AppError::Coded { message, .. } => message@,
        AppError::Db { text, .. } => text@,
        AppError::Other { text, .. } => text@,
    }
}

/// The message a client gets: nothing of an internal failure, nothing of
/// which index refused a write, and the error's own words otherwise.
pub open spec fn message_spec(e: AppError) -> Seq<char> {
    if status_spec(e) == 500 {
        "internal error"@
    } else if code_spec(e) is AlreadyExists {
        "such a record already exists"@
    } else {
        text_spec(e)
    }
}

fn is_unique_code_exec(sqlstate: &Option<String>) -> (r: bool)
    ensures
        r == is_unique_code(*sqlstate),
{
    match sqlstate {
        Some(c) => str_eq(c.as_str(), "23505"),
        None => false,
    }
}

fn owned(s: &str) -> (r: String)
    ensures
        r@ == s@,
{
    string_from_chars(chars_of(s).as_slice())
}

fn pick(c: &ErrorCode) -> (r: (u32, String))
    ensures
        r.0 == c.number,
        r.1@ == c.slug@,
{
    (c.number, c.slug.clone())
}

fn number_and_slug(kind: &ResponseCode, codes: &StandardCodes) -> (r: (u32, String))
    ensures
        r.0 == code_in(*kind, *codes).number,
        r.1@ == code_in(*kind, *codes).slug@,
{
    match kind {
        ResponseCode::NotFound => pick(&codes.not_found),
        ResponseCode::Unauthorized => pick(&codes.unauthorized),
        ResponseCode::Forbidden => pick(&codes.forbidden),
        ResponseCode::BadRequest => pick(&codes.bad_request),
        ResponseCode::Conflict => pick(&codes.conflict),
        ResponseCode::Validation => pick(&codes.validation),
        ResponseCode::AlreadyExists => pick(&codes.already_exists),
        ResponseCode::Internal => pick(&codes.internal),
        ResponseCode::Given(c) => pick(c),
    }
}

impl AppError {
    /// Whether the error is a unique index refusing a write.
    pub fn is_unique_violation(&self) -> (r: bool)
        ensures
            r == unique_violation(*self),
    {
        match self {
            AppError::Db { sqlstate, .. } => is_unique_code_exec(sqlstate),
            AppError::Other { sqlstate, .. } => is_unique_code_exec(sqlstate),
            _ => false,
        }
    }

    /// The HTTP status of the error.
    pub fn status(&self) -> (r: u16)
        ensures
            r == status_spec(*self),
    {
        match self {
            AppError::NotFound(_) => 404,
            AppError::Unauthorized(_) => 401,
            AppError::Forbidden(_) => 403,
            AppError::BadRequest(_) => 400,
            AppError::Conflict(_) => 409,
            AppError::Validation(_) => 422,
            AppError::Coded { status, .. } => *status,
            AppError::Db { row_not_found, .. } => {
                if *row_not_found {
                    404
                } else if self.is_unique_violation() {
                    409
                } else {
                    500
                }
            },
            AppError::Other { .. } => {
                if self.is_unique_violation() {
                    409
                } else {
                    500
                }
            },
        }
    }

    /// The answer to a request the error refused, each kind of refusal
    /// numbered and named as `codes` says.
    pub fn into_response(self, codes: &StandardCodes) -> (r: ErrorResponse)
        ensures
            r.status == status_spec(self),
            r.kind == code_spec(self),
            r.number == code_in(code_spec(self), *codes).number,
            r.code@ == code_in(code_spec(self), *codes).slug@,
            r.message@ == message_spec(self),
            match self {
                AppError::Validation(fields) => r.details == Some(fields),
                _ => r.details is None,
            },
    {
        let status = self.status();
        let unique = self.is_unique_violation();
        let (code, text, details) = match self {
            AppError::NotFound(m) => (ResponseCode::NotFound, m, None),
            AppError::Unauthorized(m) => (ResponseCode::Unauthorized, m, None),
            AppError::Forbidden(m) => (ResponseCode::Forbidden, m, None),
            AppError::BadRequest(m) => (ResponseCode::BadRequest, m, None),
            AppError::Conflict(m) => (ResponseCode::Conflict, m, None),
            AppError::Validation(fields) => (
                ResponseCode::Validation,
                owned("request validation failed"),
                Some(fields),
            ),
            AppError::Coded { code, message, .. } => (ResponseCode::Given(code), message, None),
            AppError::Db { row_not_found, text, .. } => {
                let c = if row_not_found {
                    ResponseCode::NotFound
                } else if unique {
                    ResponseCode::AlreadyExists
                } else {
                    ResponseCode::Internal
                };
                (c, text, None)
            },
            AppError::Other { text, .. } => {
                let c = if unique {
                    ResponseCode::AlreadyExists
                } else {
                    ResponseCode::Internal
                };
                (c, text, None)
            },
        };
        let message = if status == 500 {
            owned("internal error")
        } else if matches!(code, ResponseCode::AlreadyExists) {
            owned("such a record already exists")
        } else {
            text
        };
        let (number, slug) = number_and_slug(&code, codes);
        ErrorResponse { status, kind: code, number, code: slug, message, details }
    }
}

/// An internal failure never shows its text, and a refused write never
/// names the index: whatever the failure said, the client reads one of
/// two fixed messages.
pub proof fn lemma_internal_text_hidden(e: AppError)
    ensures
        (e is Db || e is Other) && !(e matches AppError::Db { row_not_found, .. } && row_not_found)
            ==> (message_spec(e) == "internal error"@ || message_spec(e)
            == "such a record already exists"@),
{
}

} // verus!
