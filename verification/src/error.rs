//! Application errors: stable error codes, their HTTP statuses, and the
//! redaction rule for internal errors in responses.
use vstd::prelude::*;
use crate::text::{owned, push_text};

verus! {

/// Stable error codes for API responses.
#[derive(Debug, Clone, Copy, PartialEq, Eq, Structural)]
pub enum ErrorCode {
    NotFound,
    Validation,
    Authentication,
    Authorization,
    Conflict,
    RateLimited,
    Timeout,
    Dependency,
    Internal,
    External,
    Unavailable,
}

/// The wire name of a code.
pub open spec fn code_name(code: ErrorCode) -> Seq<char> {
    match code {
        ErrorCode::NotFound => "not_found"@,
        ErrorCode::Validation => "validation"@,
        ErrorCode::Authentication => "authentication"@,
        ErrorCode::Authorization => "authorization"@,
        ErrorCode::Conflict => "conflict"@,
        ErrorCode::RateLimited => "rate_limited"@,
        ErrorCode::Timeout => "timeout"@,
        ErrorCode::Dependency => "dependency"@,
        ErrorCode::Internal => "internal"@,
        ErrorCode::External => "external"@,
        ErrorCode::Unavailable => "unavailable"@,
    }
}

/// The HTTP status of a code.
pub open spec fn code_status(code: ErrorCode) -> u16 {
    match code {
        ErrorCode::NotFound => 404,
        ErrorCode::Validation => 400,
        ErrorCode::Authentication => 401,
        ErrorCode::Authorization => 403,
        ErrorCode::Conflict => 409,
        ErrorCode::RateLimited => 429,
        ErrorCode::Timeout => 504,
        ErrorCode::Dependency => 502,
        ErrorCode::Internal => 500,
        ErrorCode::External => 502,
        ErrorCode::Unavailable => 503,
    }
}

impl ErrorCode {
    /// The snake-case name under which the code is displayed and serialized.
    pub fn as_str(&self) -> (r: &'static str)
        ensures
            r@ == code_name(*self),
    {
        match self {
            ErrorCode::NotFound => "not_found",
            ErrorCode::Validation => "validation",
            ErrorCode::Authentication => "authentication",
            ErrorCode::Authorization => "authorization",
            ErrorCode::Conflict => "conflict",
            ErrorCode::RateLimited => "rate_limited",
            ErrorCode::Timeout => "timeout",
            ErrorCode::Dependency => "dependency",
            ErrorCode::Internal => "internal",
            ErrorCode::External => "external",
            ErrorCode::Unavailable => "unavailable",
        }
    }

    /// The HTTP status code of responses carrying this code.
    pub fn status_code(&self) -> (r: u16)
        ensures
            r == code_status(*self),
    {
        match self {
            ErrorCode::NotFound => 404,
            ErrorCode::Validation => 400,
            ErrorCode::Authentication => 401,
            ErrorCode::Authorization => 403,
            ErrorCode::Conflict => 409,
            ErrorCode::RateLimited => 429,
            ErrorCode::Timeout => 504,
            ErrorCode::Dependency => 502,
            ErrorCode::Internal => 500,
            ErrorCode::External => 502,
            ErrorCode::Unavailable => 503,
        }
    }
}

/// The text form of a freshly generated correlation id: a hyphenated UUID.
pub open spec fn is_uuid_text(s: Seq<char>) -> bool {
    &&& s.len() == 36
    &&& forall|i: int| 0 <= i < 36 ==> (if i == 8 || i == 13 || i == 18 || i == 23 {
        #[trigger] s[i] == '-'
    } else {
        ('0' <= s[i] <= '9') || ('a' <= s[i] <= 'f')
    })
}

/// `uuid::Uuid::new_v4` printed with `to_string`: a random version-4 UUID in
/// its lower-case hyphenated form. The value is random; the contract states
/// only its shape, which the crate's `Display` impl documents.
#[verifier::external_body]
pub(crate) fn random_uuid_text() -> (r: String)
    ensures
        is_uuid_text(r@),
{
    uuid::Uuid::new_v4().to_string()
}

/// Identifier that ties a request, its logs and its error responses together.
#[derive(Debug, Clone, PartialEq, Eq)]
pub struct CorrelationId(pub String);

impl CorrelationId {
    /// A fresh random correlation id.
    pub fn new() -> (r: Self)
        ensures
            is_uuid_text(r.0@),
    {
        CorrelationId(random_uuid_text())
    }

    /// The id as text (its `Display` form).
    pub fn as_str(&self) -> (r: &str)
        ensures
            r@ == self.0@,
    {
        self.0.as_str()
    }
}

impl Default for CorrelationId {
    fn default() -> (r: Self)
        ensures
            is_uuid_text(r.0@),
    {
        CorrelationId::new()
    }
}

/// Where an error happened.
#[derive(Debug, Clone)]
pub struct ErrorContext {
    pub correlation_id: CorrelationId,
    pub path: String,
    pub method: String,
}

impl ErrorContext {
    pub fn new(correlation_id: CorrelationId, path: &str, method: &str) -> (r: Self)
        ensures
            r.correlation_id == correlation_id,
            r.path@ == path@,
            r.method@ == method@,
    {
        ErrorContext { correlation_id, path: owned(path), method: owned(method) }
    }
}

/// The body of an error response.
#[derive(Debug, Clone)]
pub struct ErrorBody {
    pub code: ErrorCode,
    pub message: String,
    pub correlation_id: String,
    /// Structured details, as JSON text.
    pub details: Option<String>,
}

/// An error response as sent to clients.
#[derive(Debug, Clone)]
pub struct ErrorResponse {
    pub error: ErrorBody,
}

impl ErrorResponse {
    pub fn new(code: ErrorCode, message: &str, correlation_id: &str) -> (r: Self)
        ensures
            r.error.code == code,
            r.error.message@ == message@,
            r.error.correlation_id@ == correlation_id@,
            r.error.details is None,
    {
        ErrorResponse {
            error: ErrorBody {
                code,
                message: owned(message),
                correlation_id: owned(correlation_id),
                details: None,
            },
        }
    }

    /// A response with structured details given as JSON text.
    pub fn with_details(code: ErrorCode, message: &str, correlation_id: &str, details: String) -> (r: Self)
        ensures
            r.error.code == code,
            r.error.message@ == message@,
            r.error.correlation_id@ == correlation_id@,
            r.error.details == Some(details),
    {
        ErrorResponse {
            error: ErrorBody {
                code,
                message: owned(message),
                correlation_id: owned(correlation_id),
                details: Some(details),
            },
        }
    }

    /// The response that replaces an internal error: it names no detail.
    pub fn redacted(correlation_id: &str) -> (r: Self)
        ensures
            r.error.code == ErrorCode::Internal,
            r.error.message@ == "An internal error occurred"@,
            r.error.correlation_id@ == correlation_id@,
            r.error.details is None,
    {
        ErrorResponse::new(ErrorCode::Internal, "An internal error occurred", correlation_id)
    }
}

/// Classification of application errors.
#[derive(Debug, Clone, Copy, PartialEq, Eq, Structural)]
pub enum ErrorKind {
    NotFound,
    Validation,
    Authentication,
    Authorization,
    Conflict,
    RateLimited,
    Timeout,
    Dependency,
    Internal,
    External,
    Unavailable,
    /// The operation has no implementation, such as a tool without a
    /// handler. It is reported with the `Unavailable` code: the service
    /// cannot perform the operation, and no code of its own exists for it.
    NotImpl,
}

/// The code that each kind is reported with.
pub open spec fn kind_code(kind: ErrorKind) -> ErrorCode {
    match kind {
        ErrorKind::NotFound => ErrorCode::NotFound,
        ErrorKind::Validation => ErrorCode::Validation,
        ErrorKind::Authentication => ErrorCode::Authentication,
        ErrorKind::Authorization => ErrorCode::Authorization,
        ErrorKind::Conflict => ErrorCode::Conflict,
        ErrorKind::RateLimited => ErrorCode::RateLimited,
        ErrorKind::Timeout => ErrorCode::Timeout,
        ErrorKind::Dependency => ErrorCode::Dependency,
        ErrorKind::Internal => ErrorCode::Internal,
        ErrorKind::External => ErrorCode::External,
        ErrorKind::Unavailable => ErrorCode::Unavailable,
        ErrorKind::NotImpl => ErrorCode::Unavailable,
    }
}

/// The human-readable description of each kind.
pub open spec fn kind_text(kind: ErrorKind) -> Seq<char> {
    match kind {
        ErrorKind::NotFound => "not found"@,
        ErrorKind::Validation => "validation error"@,
        ErrorKind::Authentication => "authentication error"@,
        ErrorKind::Authorization => "authorization error"@,
        ErrorKind::Conflict => "conflict"@,
        ErrorKind::RateLimited => "rate limited"@,
        ErrorKind::Timeout => "timeout"@,
        ErrorKind::Dependency => "dependency error"@,
        ErrorKind::Internal => "internal error"@,
        ErrorKind::External => "external error"@,
        ErrorKind::Unavailable => "unavailable"@,
        ErrorKind::NotImpl => "not implemented"@,
    }
}

impl ErrorKind {
    pub fn to_code(&self) -> (r: ErrorCode)
        ensures
            r == kind_code(*self),
    {
        match self {
            ErrorKind::NotFound => ErrorCode::NotFound,
            ErrorKind::Validation => ErrorCode::Validation,
            ErrorKind::Authentication => ErrorCode::Authentication,
            ErrorKind::Authorization => ErrorCode::Authorization,
            ErrorKind::Conflict => ErrorCode::Conflict,
            ErrorKind::RateLimited => ErrorCode::RateLimited,
            ErrorKind::Timeout => ErrorCode::Timeout,
            ErrorKind::Dependency => ErrorCode::Dependency,
            ErrorKind::Internal => ErrorCode::Internal,
            ErrorKind::External => ErrorCode::External,
            ErrorKind::Unavailable => ErrorCode::Unavailable,
            ErrorKind::NotImpl => ErrorCode::Unavailable,
        }
    }

    /// Whether errors of this kind are redacted in responses: only internal
    /// errors are.
    pub fn should_redact(&self) -> (r: bool)
        ensures
            r == (*self == ErrorKind::Internal),
    {
        match self {
            ErrorKind::Internal => true,
            _ => false,
        }
    }

    /// The description the kind is displayed with.
    pub fn as_text(&self) -> (r: &'static str)
        ensures
            r@ == kind_text(*self),
    {
        match self {
            ErrorKind::NotFound => "not found",
            ErrorKind::Validation => "validation error",
            ErrorKind::Authentication => "authentication error",
            ErrorKind::Authorization => "authorization error",
            ErrorKind::Conflict => "conflict",
            ErrorKind::RateLimited => "rate limited",
            ErrorKind::Timeout => "timeout",
            ErrorKind::Dependency => "dependency error",
            ErrorKind::Internal => "internal error",
            ErrorKind::External => "external error",
            ErrorKind::Unavailable => "unavailable",
            ErrorKind::NotImpl => "not implemented",
        }
    }
}

/// An application error: its kind, a message, and the message of the error
/// that caused it, if one was attached.
#[derive(Debug)]
pub struct AppError {
    pub kind: ErrorKind,
    pub message: String,
    pub source: Option<String>,
}

/// The display form of an error: `"{kind}: {message}"`.
pub open spec fn app_error_text(kind: ErrorKind, message: Seq<char>) -> Seq<char> {
    kind_text(kind) + ": "@ + message
}

impl AppError {
    pub fn new(kind: ErrorKind, message: &str) -> (r: Self)
        ensures
            r.kind == kind,
            r.message@ == message@,
            r.source is None,
    {
        AppError { kind, message: owned(message), source: None }
    }

    /// An error built from an owned message.
    pub fn from_message(kind: ErrorKind, message: String) -> (r: Self)
        ensures
            r.kind == kind,
            r.message == message,
            r.source is None,
    {
        AppError { kind, message, source: None }
    }

    /// Attaches the message of the error that caused this one.
    pub fn with_source(self, source: &str) -> (r: Self)
        ensures
            r.kind == self.kind,
            r.message == self.message,
            r.source matches Some(s) && s@ == source@,
    {
        AppError { kind: self.kind, message: self.message, source: Some(owned(source)) }
    }

    /// The client-facing response for this error.
    pub fn to_response(&self, correlation_id: &CorrelationId) -> (r: ErrorResponse)
        ensures
            r.error.code == kind_code(self.kind),
            r.error.message@ == self.message@,
            r.error.correlation_id@ == correlation_id.0@,
            r.error.details is None,
    {
        ErrorResponse::new(self.kind.to_code(), self.message.as_str(), correlation_id.0.as_str())
    }

    /// The client-facing response with internal errors redacted.
    pub fn to_redacted_response(&self, correlation_id: &CorrelationId) -> (r: ErrorResponse)
        ensures
            r.error.code == kind_code(self.kind),
            r.error.message@ == (if self.kind == ErrorKind::Internal {
                "An internal error occurred"@
            } else {
                self.message@
            }),
            r.error.correlation_id@ == correlation_id.0@,
            r.error.details is None,
    {
        if self.kind.should_redact() {
            ErrorResponse::redacted(correlation_id.0.as_str())
        } else {
            self.to_response(correlation_id)
        }
    }

    pub fn is_internal(&self) -> (r: bool)
        ensures
            r == (self.kind == ErrorKind::Internal),
    {
        self.kind.should_redact()
    }

    /// The display form: `"{kind}: {message}"`.
    pub fn to_text(&self) -> (r: String)
        ensures
            r@ == app_error_text(self.kind, self.message@),
    {
        let mut s = owned(self.kind.as_text());
        push_text(&mut s, ": ");
        push_text(&mut s, self.message.as_str());
        s
    }
}

/// How an I/O error is classified when it becomes an application error.
#[derive(Debug, Clone, Copy, PartialEq, Eq, Structural)]
pub enum IoErrorClass {
    NotFound,
    PermissionDenied,
    Other,
}

/// The application error for an I/O error of the given class and text.
pub open spec fn io_error_kind(class: IoErrorClass) -> ErrorKind {
    match class {
        IoErrorClass::NotFound => ErrorKind::NotFound,
        IoErrorClass::PermissionDenied => ErrorKind::Authorization,
        IoErrorClass::Other => ErrorKind::Internal,
    }
}

pub open spec fn io_error_prefix(class: IoErrorClass) -> Seq<char> {
    match class {
        IoErrorClass::NotFound => "file not found: "@,
        IoErrorClass::PermissionDenied => "permission denied: "@,
        IoErrorClass::Other => "IO error: "@,
    }
}

/// Converts a classified I/O error: missing files are `NotFound`, denied
/// access is `Authorization`, anything else is `Internal`.
pub fn app_error_from_io(class: IoErrorClass, text: &str) -> (r: AppError)
    ensures
        r.kind == io_error_kind(class),
        r.message@ == io_error_prefix(class) + text@,
        r.source is None,
{
    let (kind, prefix) = match class {
        IoErrorClass::NotFound => (ErrorKind::NotFound, "file not found: "),
        IoErrorClass::PermissionDenied => (ErrorKind::Authorization, "permission denied: "),
        IoErrorClass::Other => (ErrorKind::Internal, "IO error: "),
    };
    let mut message = owned(prefix);
    push_text(&mut message, text);
    AppError::from_message(kind, message)
}

/// `std::io::Error::kind`, reduced to the classes the library tells apart.
#[verifier::external_body]
fn io_error_class(e: &std::io::Error) -> (r: IoErrorClass) {
    match e.kind() {
        std::io::ErrorKind::NotFound => IoErrorClass::NotFound,
        std::io::ErrorKind::PermissionDenied => IoErrorClass::PermissionDenied,
        _ => IoErrorClass::Other,
    }
}

/// The `Display` text of an I/O error.
#[verifier::external_body]
fn io_error_text(e: &std::io::Error) -> (r: String) {
    e.to_string()
}

#[verifier::external_type_specification]
#[verifier::external_body]
pub struct ExIoError(std::io::Error);

impl vstd::std_specs::convert::FromSpecImpl<std::io::Error> for AppError {
    open spec fn obeys_from_spec() -> bool {
        false
    }

    open spec fn from_spec(v: std::io::Error) -> Self {
        arbitrary()
    }
}

impl From<std::io::Error> for AppError {
    /// A missing file is `NotFound`, denied access `Authorization`, any
    /// other I/O error `Internal`; the message is the matching prefix and
    /// the error's text.
    fn from(e: std::io::Error) -> (r: Self)
        ensures
            exists|class: IoErrorClass|
                r.kind == io_error_kind(class) && crate::scheduler::has_prefix(r.message@, io_error_prefix(class)),
    {
        let class = io_error_class(&e);
        let text = io_error_text(&e);
        let r = app_error_from_io(class, text.as_str());
        assert(r.message@.take(io_error_prefix(class).len() as int) =~= io_error_prefix(class));
        r
    }
}

/// A parse error with a prefix naming what failed to parse, as a
/// validation error.
pub fn parse_error(prefix: &str, text: &str) -> (r: AppError)
    ensures
        r.kind == ErrorKind::Validation,
        r.message@ == prefix@ + text@,
        r.source is None,
{
    let mut message = owned(prefix);
    push_text(&mut message, text);
    AppError::from_message(ErrorKind::Validation, message)
}

/// The `Display` text of a `serde_json` error.
#[verifier::external_body]
fn json_error_text(e: &serde_json::Error) -> (r: String) {
    e.to_string()
}

/// The `Display` text of a TOML parse error.
#[verifier::external_body]
fn toml_error_text(e: &toml::de::Error) -> (r: String) {
    e.to_string()
}

#[verifier::external_type_specification]
#[verifier::external_body]
pub struct ExJsonError(serde_json::Error);

#[verifier::external_type_specification]
#[verifier::external_body]
pub struct ExTomlError(toml::de::Error);

impl vstd::std_specs::convert::FromSpecImpl<serde_json::Error> for AppError {
    open spec fn obeys_from_spec() -> bool {
        false
    }

    open spec fn from_spec(v: serde_json::Error) -> Self {
        arbitrary()
    }
}

impl From<serde_json::Error> for AppError {
    /// Malformed JSON is a validation error, `invalid JSON: <error>`.
    fn from(e: serde_json::Error) -> (r: Self)
        ensures
            r.kind == ErrorKind::Validation,
            crate::scheduler::has_prefix(r.message@, "invalid JSON: "@),
    {
        let text = json_error_text(&e);
        let r = parse_error("invalid JSON: ", text.as_str());
        assert(r.message@.take("invalid JSON: "@.len() as int) =~= "invalid JSON: "@);
        r
    }
}

impl vstd::std_specs::convert::FromSpecImpl<toml::de::Error> for AppError {
    open spec fn obeys_from_spec() -> bool {
        false
    }

    open spec fn from_spec(v: toml::de::Error) -> Self {
        arbitrary()
    }
}

impl From<toml::de::Error> for AppError {
    /// Malformed TOML is a validation error, `invalid TOML: <error>`.
    fn from(e: toml::de::Error) -> (r: Self)
        ensures
            r.kind == ErrorKind::Validation,
            crate::scheduler::has_prefix(r.message@, "invalid TOML: "@),
    {
        let text = toml_error_text(&e);
        let r = parse_error("invalid TOML: ", text.as_str());
        assert(r.message@.take("invalid TOML: "@.len() as int) =~= "invalid TOML: "@);
        r
    }
}

} // verus!

verus! {

/// A text with its spaces written as underscores.
pub open spec fn underscored(s: Seq<char>) -> Seq<char> {
    s.map_values(|c: char| if c == ' ' { '_' } else { c })
}

/// Each kind is reported with the code of its own name: the code's wire
/// name is the kind's description with spaces as underscores, up to a
/// word boundary (so a conflict answers `conflict`, a missing resource
/// `not_found`, a validation error `validation`). Distinct kinds have
/// distinct codes, except that an unimplemented operation shares the code
/// of an unavailable one.
pub proof fn lemma_kind_code_names(k: ErrorKind, other: ErrorKind)
    ensures
        k != ErrorKind::NotImpl ==> {
            let t = underscored(kind_text(k));
            let n = code_name(kind_code(k));
            &&& n.len() <= t.len()
            &&& t.take(n.len() as int) == n
            &&& (n.len() == t.len() || t[n.len() as int] == '_')
        },
        k != other && kind_code(k) == kind_code(other) ==> (k == ErrorKind::NotImpl && other
            == ErrorKind::Unavailable) || (k == ErrorKind::Unavailable && other == ErrorKind::NotImpl),
{
    reveal_strlit("not found");
    reveal_strlit("validation error");
    reveal_strlit("authentication error");
    reveal_strlit("authorization error");
    reveal_strlit("conflict");
    reveal_strlit("rate limited");
    reveal_strlit("timeout");
    reveal_strlit("dependency error");
    reveal_strlit("internal error");
    reveal_strlit("external error");
    reveal_strlit("unavailable");
    reveal_strlit("not_found");
    reveal_strlit("validation");
    reveal_strlit("authentication");
    reveal_strlit("authorization");
    reveal_strlit("rate_limited");
    reveal_strlit("dependency");
    reveal_strlit("internal");
    reveal_strlit("external");
    if k != ErrorKind::NotImpl {
        let t = underscored(kind_text(k));
        let n = code_name(kind_code(k));
        assert(t.take(n.len() as int) =~= n);
    }
}

} // verus!
