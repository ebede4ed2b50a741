//! Authentication and authorization: the adapters that turn request headers
//! into an authenticated identity (API keys, bearer tokens, session cookies),
//! role checks on claims, and authorization policies.
use vstd::prelude::*;
use crate::error::{AppError, ErrorCode, ErrorKind, ErrorResponse};
use crate::parse::{trim_chars, trim_seq};
use crate::text::{
    chars_eq, chars_of, owned, push_text, slice_chars, split_chars, split_once_chars,
    split_once_seq, split_seq, string_of, text_eq,
};
use crate::textmap::TextMap;

verus! {

/// Authentication error type.
#[derive(Debug, Clone, PartialEq, Eq)]
pub enum AuthError {
    /// No credentials provided.
    Missing,
    /// Credentials are invalid.
    Invalid,
    /// Token has expired.
    Expired,
    /// User is not authorized for this resource.
    Unauthorized(String),
}

/// The display text of an authentication error.
pub open spec fn auth_error_text(e: AuthError) -> Seq<char> {
    match e {
        AuthError::Missing => "authentication required"@,
        AuthError::Invalid => "invalid credentials"@,
        AuthError::Expired => "credentials expired"@,
        AuthError::Unauthorized(m) => "unauthorized: "@ + m@,
    }
}

impl AuthError {
    /// The display text of the error.
    pub fn message(&self) -> (r: String)
        ensures
            r@ == auth_error_text(*self),
    {
        match self {
            AuthError::Missing => owned("authentication required"),
            AuthError::Invalid => owned("invalid credentials"),
            AuthError::Expired => owned("credentials expired"),
            AuthError::Unauthorized(m) => {
                let mut s = owned("unauthorized: ");
                push_text(&mut s, m.as_str());
                s
            },
        }
    }

    pub fn is_missing(&self) -> (r: bool)
        ensures
            r == (*self is Missing),
    {
        match self {
            AuthError::Missing => true,
            _ => false,
        }
    }

    pub fn is_invalid(&self) -> (r: bool)
        ensures
            r == (*self is Invalid),
    {
        match self {
            AuthError::Invalid => true,
            _ => false,
        }
    }
}

/// Why an authenticated request was turned away.
#[derive(Debug)]
pub enum AuthRejection {
    /// No authentication context was attached to the request.
    Missing,
    /// The authentication adapter failed.
    Error(AuthError),
}

/// The status, error code and message with which a rejection is answered:
/// 403 with the refusal's message for an authorisation refusal, else 401
/// with the error's text.
pub open spec fn rejection_answer(r: AuthRejection) -> (u16, ErrorCode, Seq<char>) {
    match r {
        AuthRejection::Missing => (401, ErrorCode::Authentication, "authentication required"@),
        AuthRejection::Error(AuthError::Unauthorized(m)) => (403, ErrorCode::Authorization, m@),
        AuthRejection::Error(e) => (401, ErrorCode::Authentication, auth_error_text(e)),
    }
}

impl AuthRejection {
    /// The HTTP status and error body that answer the rejection.
    pub fn to_response(self, correlation_id: &str) -> (r: (u16, ErrorResponse))
        ensures
            r.0 == rejection_answer(self).0,
            r.1.error.code == rejection_answer(self).1,
            r.1.error.message@ == rejection_answer(self).2,
            r.1.error.correlation_id@ == correlation_id@,
            r.1.error.details is None,
    {
        match self {
            AuthRejection::Missing => (
                401,
                ErrorResponse::new(ErrorCode::Authentication, "authentication required", correlation_id),
            ),
            AuthRejection::Error(AuthError::Unauthorized(m)) => (
                403,
                ErrorResponse::new(ErrorCode::Authorization, m.as_str(), correlation_id),
            ),
            AuthRejection::Error(e) => {
                let text = e.message();
                (401, ErrorResponse::new(ErrorCode::Authentication, text.as_str(), correlation_id))
            },
        }
    }
}

impl vstd::std_specs::convert::FromSpecImpl<AuthError> for AppError {
    open spec fn obeys_from_spec() -> bool {
        false
    }

    open spec fn from_spec(v: AuthError) -> Self {
        arbitrary()
    }
}

impl From<AuthError> for AppError {
    /// Missing, invalid and expired credentials are authentication errors;
    /// a refusal is an authorization error carrying its message.
    fn from(e: AuthError) -> (r: Self)
        ensures
            r.kind == (if e is Unauthorized { ErrorKind::Authorization } else { ErrorKind::Authentication }),
            r.message@ == (match e {
                AuthError::Unauthorized(m) => m@,
                _ => auth_error_text(e),
            }),
            r.source is None,
    {
        match e {
            AuthError::Unauthorized(m) => AppError::from_message(ErrorKind::Authorization, m),
            _ => {
                let text = e.message();
                AppError::from_message(ErrorKind::Authentication, text)
            },
        }
    }
}

/// The value of a claim, as far as the library reads it: text, a list whose
/// items are text (`Some`) or something else (`None`), or any other value.
#[derive(Debug, Clone, PartialEq, Eq)]
pub enum ClaimValue {
    Text(String),
    List(Vec<Option<String>>),
    Other,
}

/// Authentication context extracted from a request.
#[derive(Debug)]
pub struct AuthContext {
    /// Subject identifier (user ID, API key ID, etc.).
    pub subject: String,
    /// Claims or permissions.
    pub claims: TextMap<ClaimValue>,
    /// Which adapter authenticated this request.
    pub adapter: String,
}

/// Whether a list item is the text `item`.
pub open spec fn item_is(o: Option<String>, item: Seq<char>) -> bool {
    match o {
        Some(s) => s@ == item,
        None => false,
    }
}

/// Whether a claim is a list holding `item` among its text items.
pub open spec fn list_has(c: Option<ClaimValue>, item: Seq<char>) -> bool {
    match c {
        Some(ClaimValue::List(items)) => exists|i: int| 0 <= i < items@.len() && item_is(#[trigger] items@[i], item),
        _ => false,
    }
}

impl AuthContext {
    pub fn new(subject: &str, adapter: &str) -> (r: Self)
        ensures
            r.subject@ == subject@,
            r.adapter@ == adapter@,
            forall|k: Seq<char>| r.claims.value_of(k) is None,
            r.claims.entries().len() == 0,
    {
        AuthContext { subject: owned(subject), claims: TextMap::new(), adapter: owned(adapter) }
    }

    /// Adds (or replaces) a claim.
    pub fn with_claim(self, key: &str, value: ClaimValue) -> (r: Self)
        ensures
            r.subject == self.subject,
            r.adapter == self.adapter,
            r.claims.value_of(key@) == Some(value),
            forall|k: Seq<char>| k != key@ ==> r.claims.value_of(k) == self.claims.value_of(k),
    {
        let mut claims = self.claims;
        claims.insert(owned(key), value);
        AuthContext { subject: self.subject, claims, adapter: self.adapter }
    }

    pub fn has_claim(&self, key: &str) -> (r: bool)
        ensures
            r == (self.claims.value_of(key@) is Some),
    {
        self.claims.contains_key(key)
    }

    pub fn get_claim(&self, key: &str) -> (r: Option<&ClaimValue>)
        ensures
            match r {
                Some(v) => self.claims.value_of(key@) == Some(*v),
                None => self.claims.value_of(key@) is None,
            },
    {
        self.claims.get(key)
    }

    /// Whether the `roles` claim is a list naming `role`.
    pub fn has_role(&self, role: &str) -> (r: bool)
        ensures
            r == list_has(self.claims.value_of("roles"@), role@),
    {
        match self.claims.get("roles") {
            Some(ClaimValue::List(items)) => list_contains(items, role),
            _ => false,
        }
    }
}

/// Whether a list of claim items holds `item` as text.
pub fn list_contains(items: &Vec<Option<String>>, item: &str) -> (r: bool)
    ensures
        r == exists|i: int| 0 <= i < items@.len() && item_is(#[trigger] items@[i], item@),
{
    let mut i: usize = 0;
    while i < items.len()
        invariant
            i <= items@.len(),
            forall|k: int| 0 <= k < i ==> !item_is(#[trigger] items@[k], item@),
        decreases items@.len() - i,
    {
        match &items[i] {
            Some(s) => {
                if text_eq(s.as_str(), item) {
                    return true;
                }
            },
            None => {},
        }
        i = i + 1;
    }
    false
}

/// A request header as the authentication adapters see it: absent, present
/// but not readable as visible ASCII text, or its text.
pub enum HeaderInput<'a> {
    Absent,
    Unreadable,
    Text(&'a str),
}

/// The text after `prefix`, if `s` starts with it (`str::strip_prefix`).
pub open spec fn strip_prefix_seq(s: Seq<char>, prefix: Seq<char>) -> Option<Seq<char>> {
    if prefix.len() <= s.len() && s.take(prefix.len() as int) == prefix {
        Some(s.skip(prefix.len() as int))
    } else {
        None
    }
}

/// `str::strip_prefix`.
pub fn strip_prefix(s: &str, prefix: &str) -> (r: Option<String>)
    ensures
        match r {
            Some(t) => strip_prefix_seq(s@, prefix@) == Some(t@),
            None => strip_prefix_seq(s@, prefix@) is None,
        },
{
    let v = chars_of(s);
    let p = chars_of(prefix);
    if p.len() > v.len() {
        return None;
    }
    let head = slice_chars(&v, 0, p.len());
    assert(head@ =~= v@.take(p@.len() as int));
    if chars_eq(&head, &p) {
        let rest = slice_chars(&v, p.len(), v.len());
        assert(rest@ =~= v@.skip(p@.len() as int));
        Some(string_of(&rest))
    } else {
        None
    }
}

/// What API key authentication decides from the `x-api-key` header, the
/// `authorization` header and the subject the key maps to.
pub open spec fn api_key_outcome(keys: TextMap<String>, api_key: HeaderInput, authorization: HeaderInput) -> Result<Seq<char>, AuthError> {
    match api_key {
        HeaderInput::Unreadable => Err(AuthError::Invalid),
        HeaderInput::Text(k) => match keys.value_of(k@) {
            Some(subject) => Ok(subject@),
            None => Err(AuthError::Invalid),
        },
        HeaderInput::Absent => match authorization {
            HeaderInput::Unreadable => Err(AuthError::Invalid),
            HeaderInput::Text(a) => match strip_prefix_seq(a@, "Bearer "@) {
                Some(k) => match keys.value_of(k) {
                    Some(subject) => Ok(subject@),
                    None => Err(AuthError::Invalid),
                },
                None => Err(AuthError::Missing),
            },
            HeaderInput::Absent => Err(AuthError::Missing),
        },
    }
}

/// API key authentication: keys mapped to subject ids, presented in the
/// `x-api-key` header or as `Authorization: Bearer <key>`.
pub struct ApiKeyAuth {
    pub keys: TextMap<String>,
}

impl ApiKeyAuth {
    pub fn new() -> (r: Self)
        ensures
            forall|k: Seq<char>| r.keys.value_of(k) is None,
    {
        ApiKeyAuth { keys: TextMap::new() }
    }

    /// Adds an API key.
    pub fn with_key(self, key: &str, subject: &str) -> (r: Self)
        ensures
            r.keys.value_of(key@) matches Some(s) && s@ == subject@,
            forall|k: Seq<char>| k != key@ ==> r.keys.value_of(k) == self.keys.value_of(k),
    {
        let mut keys = self.keys;
        keys.insert(owned(key), owned(subject));
        ApiKeyAuth { keys }
    }

    /// Adds several API keys, in order; a later pair for the same key wins.
    pub fn with_keys(self, pairs: Vec<(String, String)>) -> (r: Self)
        ensures
            forall|k: Seq<char>| #[trigger] r.keys.value_of(k) == (match last_entry(pairs@, k) {
                Some(v) => Some(v),
                None => self.keys.value_of(k),
            }),
    {
        let mut keys = self.keys;
        let ghost original = keys;
        let mut i: usize = 0;
        while i < pairs.len()
            invariant
                i <= pairs@.len(),
                forall|k: Seq<char>| #[trigger] keys.value_of(k) == (match last_entry(pairs@.take(i as int), k) {
                    Some(v) => Some(v),
                    None => original.value_of(k),
                }),
            decreases pairs@.len() - i,
        {
            let key = pairs[i].0.clone();
            let value = pairs[i].1.clone();
            keys.insert(key, value);
            assert(pairs@.take(i + 1).drop_last() =~= pairs@.take(i as int));
            i = i + 1;
        }
        assert(pairs@.take(i as int) =~= pairs@);
        ApiKeyAuth { keys }
    }

    /// Authenticates a request from its `x-api-key` and `authorization`
    /// headers. The `x-api-key` header, when present, decides alone.
    pub fn authenticate(&self, api_key: HeaderInput, authorization: HeaderInput) -> (r: Result<AuthContext, AuthError>)
        ensures
            match r {
                Ok(ctx) => api_key_outcome(self.keys, api_key, authorization) == Ok::<Seq<char>, AuthError>(ctx.subject@)
                    && ctx.adapter@ == "api_key"@ && ctx.claims.entries().len() == 0,
                Err(e) => api_key_outcome(self.keys, api_key, authorization) == Err::<Seq<char>, AuthError>(e),
            },
    {
        match api_key {
            HeaderInput::Unreadable => Err(AuthError::Invalid),
            HeaderInput::Text(k) => match self.keys.get(k) {
                Some(subject) => Ok(AuthContext::new(subject.as_str(), "api_key")),
                None => Err(AuthError::Invalid),
            },
            HeaderInput::Absent => match authorization {
                HeaderInput::Unreadable => Err(AuthError::Invalid),
                HeaderInput::Text(a) => match strip_prefix(a, "Bearer ") {
                    Some(k) => match self.keys.get(k.as_str()) {
                        Some(subject) => Ok(AuthContext::new(subject.as_str(), "api_key")),
                        None => Err(AuthError::Invalid),
                    },
                    None => Err(AuthError::Missing),
                },
                HeaderInput::Absent => Err(AuthError::Missing),
            },
        }
    }
}

/// The value of the last pair for `k`.
pub open spec fn last_entry(pairs: Seq<(String, String)>, k: Seq<char>) -> Option<String>
    decreases pairs.len(),
{
    if pairs.len() == 0 {
        None
    } else if pairs.last().0@ == k {
        Some(pairs.last().1)
    } else {
        last_entry(pairs.drop_last(), k)
    }
}

/// Bearer token authentication: each known token stands for an
/// authentication context.
pub struct JwtAuth {
    pub tokens: TextMap<AuthContext>,
}

impl JwtAuth {
    pub fn new() -> (r: Self)
        ensures
            forall|k: Seq<char>| r.tokens.value_of(k) is None,
    {
        JwtAuth { tokens: TextMap::new() }
    }

    /// Adds a valid token with its context.
    pub fn with_token(self, token: &str, context: AuthContext) -> (r: Self)
        ensures
            r.tokens.value_of(token@) == Some(context),
            forall|k: Seq<char>| k != token@ ==> r.tokens.value_of(k) == self.tokens.value_of(k),
    {
        let mut tokens = self.tokens;
        tokens.insert(owned(token), context);
        JwtAuth { tokens }
    }

    /// Authenticates a request from its `authorization` header: the header
    /// must be `Bearer <token>` with a known token.
    pub fn authenticate(&self, authorization: HeaderInput) -> (r: Result<&AuthContext, AuthError>)
        ensures
            match authorization {
                HeaderInput::Absent => r == Err::<&AuthContext, AuthError>(AuthError::Missing),
                HeaderInput::Unreadable => r == Err::<&AuthContext, AuthError>(AuthError::Invalid),
                HeaderInput::Text(a) => match strip_prefix_seq(a@, "Bearer "@) {
                    Some(t) => match self.tokens.value_of(t) {
                        Some(ctx) => r matches Ok(c) && *c == ctx,
                        None => r == Err::<&AuthContext, AuthError>(AuthError::Invalid),
                    },
                    None => r == Err::<&AuthContext, AuthError>(AuthError::Invalid),
                },
            },
    {
        match authorization {
            HeaderInput::Absent => Err(AuthError::Missing),
            HeaderInput::Unreadable => Err(AuthError::Invalid),
            HeaderInput::Text(a) => match strip_prefix(a, "Bearer ") {
                Some(t) => match self.tokens.get(t.as_str()) {
                    Some(ctx) => Ok(ctx),
                    None => Err(AuthError::Invalid),
                },
                None => Err(AuthError::Invalid),
            },
        }
    }
}

/// The session token a `cookie` header carries for `name`: the value of the
/// first `;`-separated, trimmed part of the form `name=value`.
pub open spec fn cookie_value(header: Seq<char>, name: Seq<char>) -> Option<Seq<char>> {
    cookie_value_in(split_seq(header, ';'), name)
}

pub open spec fn cookie_value_in(parts: Seq<Seq<char>>, name: Seq<char>) -> Option<Seq<char>>
    decreases parts.len(),
{
    if parts.len() == 0 {
        None
    } else {
        match split_once_seq(trim_seq(parts[0]), '=') {
            Some((n, v)) => if n == name {
                Some(v)
            } else {
                cookie_value_in(parts.drop_first(), name)
            },
            None => cookie_value_in(parts.drop_first(), name),
        }
    }
}

/// Finds the value of the cookie `name` in a `cookie` header.
pub fn find_cookie(header: &str, name: &str) -> (r: Option<String>)
    ensures
        match r {
            Some(v) => cookie_value(header@, name@) == Some(v@),
            None => cookie_value(header@, name@) is None,
        },
{
    let parts = split_chars(&chars_of(header), ';');
    let ghost pieces = split_seq(header@, ';');
    let name_chars = chars_of(name);
    let mut i: usize = 0;
    assert(pieces.skip(0) =~= pieces);
    while i < parts.len()
        invariant
            i <= parts@.len(),
            parts@.len() == pieces.len(),
            name_chars@ == name@,
            forall|k: int| 0 <= k < parts@.len() ==> #[trigger] parts@[k]@ == pieces[k],
            cookie_value_in(pieces.skip(i as int), name@) == cookie_value(header@, name@),
        decreases parts@.len() - i,
    {
        assert(pieces.skip(i as int).drop_first() =~= pieces.skip(i + 1));
        assert(pieces.skip(i as int)[0] == pieces[i as int]);
        let part = trim_chars(&parts[i]);
        match split_once_chars(&part, '=') {
            Some((n, v)) => {
                if chars_eq(&n, &name_chars) {
                    return Some(string_of(&v));
                }
            },
            None => {},
        }
        i = i + 1;
    }
    None
}

/// Cookie-based session authentication.
pub struct SessionAuth {
    pub sessions: TextMap<AuthContext>,
    pub cookie_name: String,
}

impl SessionAuth {
    pub fn new(cookie_name: &str) -> (r: Self)
        ensures
            r.cookie_name@ == cookie_name@,
            forall|k: Seq<char>| r.sessions.value_of(k) is None,
    {
        SessionAuth { sessions: TextMap::new(), cookie_name: owned(cookie_name) }
    }

    /// Adds a valid session.
    pub fn with_session(self, token: &str, context: AuthContext) -> (r: Self)
        ensures
            r.cookie_name == self.cookie_name,
            r.sessions.value_of(token@) == Some(context),
            forall|k: Seq<char>| k != token@ ==> r.sessions.value_of(k) == self.sessions.value_of(k),
    {
        let mut sessions = self.sessions;
        sessions.insert(owned(token), context);
        SessionAuth { sessions, cookie_name: self.cookie_name }
    }

    /// Authenticates a request from its `cookie` header.
    pub fn authenticate(&self, cookie: HeaderInput) -> (r: Result<&AuthContext, AuthError>)
        ensures
            match cookie {
                HeaderInput::Absent => r == Err::<&AuthContext, AuthError>(AuthError::Missing),
                HeaderInput::Unreadable => r == Err::<&AuthContext, AuthError>(AuthError::Invalid),
                HeaderInput::Text(h) => match cookie_value(h@, self.cookie_name@) {
                    Some(t) => match self.sessions.value_of(t) {
                        Some(ctx) => r matches Ok(c) && *c == ctx,
                        None => r == Err::<&AuthContext, AuthError>(AuthError::Invalid),
                    },
                    None => r == Err::<&AuthContext, AuthError>(AuthError::Missing),
                },
            },
    {
        match cookie {
            HeaderInput::Absent => Err(AuthError::Missing),
            HeaderInput::Unreadable => Err(AuthError::Invalid),
            HeaderInput::Text(h) => match find_cookie(h, self.cookie_name.as_str()) {
                Some(t) => match self.sessions.get(t.as_str()) {
                    Some(ctx) => Ok(ctx),
                    None => Err(AuthError::Invalid),
                },
                None => Err(AuthError::Missing),
            },
        }
    }
}

/// An authorization policy: decides whether an authenticated caller may use
/// a resource.
pub trait Policy {
    /// Whether the policy lets `context` use `resource`.
    spec fn allows(&self, context: AuthContext, resource: Seq<char>) -> bool;

    fn check(&self, context: &AuthContext, resource: &str) -> (r: Result<(), AuthError>)
        ensures
            r is Ok <==> self.allows(*context, resource@),
    ;
}

/// Allows every request.
pub struct AllowAll;

impl Policy for AllowAll {
    open spec fn allows(&self, context: AuthContext, resource: Seq<char>) -> bool {
        true
    }

    fn check(&self, context: &AuthContext, resource: &str) -> (r: Result<(), AuthError>)
        ensures
            r is Ok,
    {
        Ok(())
    }
}

/// Denies every request.
pub struct DenyAll;

impl Policy for DenyAll {
    open spec fn allows(&self, context: AuthContext, resource: Seq<char>) -> bool {
        false
    }

    fn check(&self, context: &AuthContext, resource: &str) -> (r: Result<(), AuthError>)
        ensures
            r matches Err(AuthError::Unauthorized(m)) && m@ == "access denied"@,
    {
        Err(AuthError::Unauthorized(owned("access denied")))
    }
}

/// Allows callers whose `roles` claim lists a role.
pub struct RequireRole {
    role: String,
}

impl RequireRole {
    pub closed spec fn role(&self) -> Seq<char> {
        self.role@
    }

    pub fn new(role: &str) -> (r: Self)
        ensures
            r.role() == role@,
    {
        RequireRole { role: owned(role) }
    }
}

impl Policy for RequireRole {
    open spec fn allows(&self, context: AuthContext, resource: Seq<char>) -> bool {
        list_has(context.claims.value_of("roles"@), self.role())
    }

    fn check(&self, context: &AuthContext, resource: &str) -> (r: Result<(), AuthError>)
        ensures
            list_has(context.claims.value_of("roles"@), self.role()) ==> r is Ok,
            !list_has(context.claims.value_of("roles"@), self.role()) ==> (r matches Err(AuthError::Unauthorized(m))
                && m@ == "requires role: "@ + self.role()),
    {
        if context.has_role(self.role.as_str()) {
            Ok(())
        } else {
            let mut m = owned("requires role: ");
            push_text(&mut m, self.role.as_str());
            Err(AuthError::Unauthorized(m))
        }
    }
}

/// Allows a request that every one of its policies allows.
pub struct AllOf {
    policies: Vec<Box<dyn Policy>>,
}

/// Allows a request that some one of its policies allows.
pub struct AnyOf {
    policies: Vec<Box<dyn Policy>>,
}

impl AllOf {
    /// The policies combined, in order.
    pub closed spec fn policies(&self) -> Seq<Box<dyn Policy>> {
        self.policies@
    }

    /// A combination of no policies, which allows everything.
    pub fn new() -> (r: Self)
        ensures
            r.policies().len() == 0,
    {
        AllOf { policies: Vec::new() }
    }

    /// Adds a policy that must also allow; it is passed boxed.
    pub fn with_policy(self, policy: Box<dyn Policy>) -> (r: Self)
        ensures
            r.policies() == self.policies().push(policy),
    {
        let mut policies = self.policies;
        policies.push(policy);
        AllOf { policies }
    }
}

impl Policy for AllOf {
    open spec fn allows(&self, context: AuthContext, resource: Seq<char>) -> bool {
        forall|i: int| 0 <= i < self.policies().len() ==> (#[trigger] self.policies()[i]).allows(context, resource)
    }

    /// Checks the policies in order; the first refusal is the answer.
    fn check(&self, context: &AuthContext, resource: &str) -> (r: Result<(), AuthError>) {
        let mut i: usize = 0;
        while i < self.policies.len()
            invariant
                i <= self.policies@.len(),
                forall|k: int| 0 <= k < i ==> (#[trigger] self.policies@[k]).allows(*context, resource@),
            decreases self.policies@.len() - i,
        {
            let r = self.policies[i].check(context, resource);
            if r.is_err() {
                assert(!self.policies()[i as int].allows(*context, resource@));
                assert(!self.allows(*context, resource@));
                return r;
            }
            i = i + 1;
        }
        Ok(())
    }
}

impl AnyOf {
    /// The policies combined, in order.
    pub closed spec fn policies(&self) -> Seq<Box<dyn Policy>> {
        self.policies@
    }

    /// A combination of no policies, which allows nothing.
    pub fn new() -> (r: Self)
        ensures
            r.policies().len() == 0,
    {
        AnyOf { policies: Vec::new() }
    }

    /// Adds a policy that may allow instead; it is passed boxed.
    pub fn with_policy(self, policy: Box<dyn Policy>) -> (r: Self)
        ensures
            r.policies() == self.policies().push(policy),
    {
        let mut policies = self.policies;
        policies.push(policy);
        AnyOf { policies }
    }
}

impl Policy for AnyOf {
    open spec fn allows(&self, context: AuthContext, resource: Seq<char>) -> bool {
        exists|i: int| 0 <= i < self.policies().len() && (#[trigger] self.policies()[i]).allows(context, resource)
    }

    /// Checks the policies in order; the first that allows is the answer,
    /// and when none does the request is refused.
    fn check(&self, context: &AuthContext, resource: &str) -> (r: Result<(), AuthError>)
        ensures
            r matches Err(e) ==> (e matches AuthError::Unauthorized(m) && m@ == "no matching policy"@),
    {
        let mut i: usize = 0;
        while i < self.policies.len()
            invariant
                i <= self.policies@.len(),
                forall|k: int| 0 <= k < i ==> !(#[trigger] self.policies@[k]).allows(*context, resource@),
            decreases self.policies@.len() - i,
        {
            if self.policies[i].check(context, resource).is_ok() {
                assert(self.policies()[i as int].allows(*context, resource@));
                assert(self.allows(*context, resource@));
                return Ok(());
            }
            i = i + 1;
        }
        Err(AuthError::Unauthorized(owned("no matching policy")))
    }
}

} // verus!
