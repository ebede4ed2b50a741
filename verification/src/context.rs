//! Typed request identity shared by handlers, tools, hooks and logs, and the
//! per-response cache policy.
use vstd::prelude::*;
use crate::auth::{AuthContext, ClaimValue};
use crate::error::{AppError, ErrorKind};
use crate::parse::{decimal_seq, push_decimal, split_whitespace, words_seq};
use crate::text::{owned, text_eq};

verus! {

/// Identity and tenancy of the current request.
#[derive(Debug, Clone)]
pub struct RequestContext {
    pub subject: Option<String>,
    pub tenant_id: Option<String>,
    pub instance_id: Option<String>,
    pub scopes: Vec<String>,
    pub roles: Vec<String>,
    pub correlation_id: String,
}

/// The text of the first of `keys` whose claim is text.
pub open spec fn claim_text(claims: spec_fn(Seq<char>) -> Option<ClaimValue>, keys: Seq<Seq<char>>) -> Option<Seq<char>>
    decreases keys.len(),
{
    if keys.len() == 0 {
        None
    } else {
        match claims(keys[0]) {
            Some(ClaimValue::Text(s)) => Some(s@),
            _ => claim_text(claims, keys.drop_first()),
        }
    }
}

/// The texts a claim lists: the words of a text claim, the text items of a
/// list claim, nothing otherwise.
pub open spec fn claim_texts(c: Option<ClaimValue>) -> Seq<Seq<char>> {
    match c {
        Some(ClaimValue::Text(s)) => words_seq(s@),
        Some(ClaimValue::List(items)) => text_items(items@),
        _ => Seq::empty(),
    }
}

/// The text items of a list, in order.
pub open spec fn text_items(items: Seq<Option<String>>) -> Seq<Seq<char>>
    decreases items.len(),
{
    if items.len() == 0 {
        Seq::empty()
    } else {
        let prev = text_items(items.drop_last());
        match items.last() {
            Some(s) => prev.push(s@),
            None => prev,
        }
    }
}

/// Whether `v` holds `item`.
pub open spec fn has_text(v: Seq<String>, item: Seq<char>) -> bool {
    exists|i: int| 0 <= i < v.len() && #[trigger] v[i]@ == item
}

/// The views of a list of strings.
pub open spec fn texts(v: Seq<String>) -> Seq<Seq<char>> {
    v.map_values(|s: String| s@)
}

pub(crate) fn contains_text(v: &Vec<String>, item: &str) -> (r: bool)
    ensures
        r == has_text(v@, item@),
{
    let mut i: usize = 0;
    while i < v.len()
        invariant
            i <= v@.len(),
            forall|k: int| 0 <= k < i ==> #[trigger] v@[k]@ != item@,
        decreases v@.len() - i,
    {
        if text_eq(v[i].as_str(), item) {
            return true;
        }
        i = i + 1;
    }
    false
}

/// The text claim under `key`, if it is text.
fn text_claim(auth: &AuthContext, key: &str) -> (r: Option<String>)
    ensures
        match r {
            Some(s) => auth.claims.value_of(key@) matches Some(ClaimValue::Text(t)) && t@ == s@,
            None => !(auth.claims.value_of(key@) is Some && auth.claims.value_of(key@)->0 is Text),
        },
{
    match auth.claims.get(key) {
        Some(ClaimValue::Text(s)) => Some(s.clone()),
        _ => None,
    }
}

/// The texts that the claim under `key` lists.
fn claim_strings(auth: &AuthContext, key: &str) -> (r: Vec<String>)
    ensures
        texts(r@) == claim_texts(auth.claims.value_of(key@)),
{
    match auth.claims.get(key) {
        Some(ClaimValue::Text(s)) => {
            let words = split_whitespace(s.as_str());
            assert(texts(words@) =~= words_seq(s@));
            words
        },
        Some(ClaimValue::List(items)) => {
            let mut out: Vec<String> = Vec::new();
            let mut i: usize = 0;
            while i < items.len()
                invariant
                    i <= items@.len(),
                    texts(out@) == text_items(items@.take(i as int)),
                decreases items@.len() - i,
            {
                assert(items@.take(i + 1).drop_last() =~= items@.take(i as int));
                match &items[i] {
                    Some(s) => {
                        out.push(s.clone());
                        assert(texts(out@) =~= text_items(items@.take(i as int)).push(s@));
                    },
                    None => {},
                }
                i = i + 1;
            }
            assert(items@.take(i as int) =~= items@);
            out
        },
        _ => {
            let out: Vec<String> = Vec::new();
            assert(texts(out@) =~= Seq::<Seq<char>>::empty());
            out
        },
    }
}

impl RequestContext {
    /// The context of an unauthenticated request.
    pub fn anonymous(correlation_id: &str) -> (r: Self)
        ensures
            r.subject is None,
            r.tenant_id is None,
            r.instance_id is None,
            r.scopes@.len() == 0,
            r.roles@.len() == 0,
            r.correlation_id@ == correlation_id@,
    {
        RequestContext {
            subject: None,
            tenant_id: None,
            instance_id: None,
            scopes: Vec::new(),
            roles: Vec::new(),
            correlation_id: owned(correlation_id),
        }
    }

    /// The context of an authenticated request: tenant and instance come
    /// from the `tenant_id`/`tenant` and `instance_id`/`instance` claims,
    /// scopes and roles from the `scopes` and `roles` claims.
    pub fn from_auth(auth: &AuthContext, correlation_id: &str) -> (r: Self)
        ensures
            r.subject matches Some(s) && s@ == auth.subject@,
            opt_view(r.tenant_id) == claim_text(|k: Seq<char>| auth.claims.value_of(k), seq!["tenant_id"@, "tenant"@]),
            opt_view(r.instance_id) == claim_text(|k: Seq<char>| auth.claims.value_of(k), seq!["instance_id"@, "instance"@]),
            texts(r.scopes@) == claim_texts(auth.claims.value_of("scopes"@)),
            texts(r.roles@) == claim_texts(auth.claims.value_of("roles"@)),
            r.correlation_id@ == correlation_id@,
    {
        let tenant = match text_claim(auth, "tenant_id") {
            Some(s) => Some(s),
            None => text_claim(auth, "tenant"),
        };
        let instance = match text_claim(auth, "instance_id") {
            Some(s) => Some(s),
            None => text_claim(auth, "instance"),
        };
        proof {
            let claims = |k: Seq<char>| auth.claims.value_of(k);
            reveal_with_fuel(claim_text, 3);
            assert(seq!["tenant_id"@, "tenant"@].drop_first() =~= seq!["tenant"@]);
            assert(seq!["tenant"@].drop_first() =~= Seq::<Seq<char>>::empty());
            assert(seq!["instance_id"@, "instance"@].drop_first() =~= seq!["instance"@]);
            assert(seq!["instance"@].drop_first() =~= Seq::<Seq<char>>::empty());
        }
        RequestContext {
            subject: Some(auth.subject.clone()),
            tenant_id: tenant,
            instance_id: instance,
            scopes: claim_strings(auth, "scopes"),
            roles: claim_strings(auth, "roles"),
            correlation_id: owned(correlation_id),
        }
    }

    pub fn has_scope(&self, scope: &str) -> (r: bool)
        ensures
            r == has_text(self.scopes@, scope@),
    {
        contains_text(&self.scopes, scope)
    }

    pub fn has_role(&self, role: &str) -> (r: bool)
        ensures
            r == has_text(self.roles@, role@),
    {
        contains_text(&self.roles, role)
    }
}

/// The view of an optional text.
pub open spec fn opt_view(o: Option<String>) -> Option<Seq<char>> {
    match o {
        Some(s) => Some(s@),
        None => None,
    }
}

/// The caller context passed to a tool handler.
#[derive(Debug, Clone)]
pub struct ToolContext {
    /// Authenticated subject (user ID, API key ID, etc.).
    pub subject: String,
    /// Scopes granted to the caller.
    pub scopes: Vec<String>,
}

impl ToolContext {
    /// The context of an unauthenticated caller.
    pub fn anonymous() -> (r: Self)
        ensures
            r.subject@ == "anonymous"@,
            r.scopes@.len() == 0,
    {
        ToolContext { subject: owned("anonymous"), scopes: Vec::new() }
    }

    pub fn new(subject: &str, scopes: Vec<String>) -> (r: Self)
        ensures
            r.subject@ == subject@,
            r.scopes == scopes,
    {
        ToolContext { subject: owned(subject), scopes }
    }

    /// The context of an authenticated caller; scopes are the text items of
    /// a `scopes` list claim.
    pub fn from_auth_context(ctx: &AuthContext) -> (r: Self)
        ensures
            r.subject@ == ctx.subject@,
            texts(r.scopes@) == (match ctx.claims.value_of("scopes"@) {
                Some(ClaimValue::List(items)) => text_items(items@),
                _ => Seq::empty(),
            }),
    {
        let scopes = match ctx.claims.get("scopes") {
            Some(ClaimValue::List(_)) => claim_strings(ctx, "scopes"),
            _ => {
                let v: Vec<String> = Vec::new();
                assert(texts(v@) =~= Seq::<Seq<char>>::empty());
                v
            },
        };
        ToolContext { subject: ctx.subject.clone(), scopes }
    }

    /// Whether the caller was granted `scope`.
    pub fn has_scope(&self, scope: &str) -> (r: bool)
        ensures
            r == has_text(self.scopes@, scope@),
    {
        contains_text(&self.scopes, scope)
    }
}

/// Read-only information supplied to an application middleware hook.
#[derive(Debug, Clone)]
pub struct MiddlewareContext {
    method: String,
    path: String,
    request_id: String,
    request: RequestContext,
    status: Option<u16>,
}

impl MiddlewareContext {
    pub closed spec fn method_view(&self) -> Seq<char> { self.method@ }
    pub closed spec fn path_view(&self) -> Seq<char> { self.path@ }
    pub closed spec fn request_id_view(&self) -> Seq<char> { self.request_id@ }
    pub closed spec fn request_view(&self) -> RequestContext { self.request }
    pub closed spec fn status_view(&self) -> Option<u16> { self.status }

    /// The context before the handler runs: the request id is the request's
    /// correlation id and there is no status yet.
    pub fn before_handler(method: &str, path: &str, request: RequestContext) -> (r: Self)
        ensures
            r.method_view() == method@,
            r.path_view() == path@,
            r.request_id_view() == request.correlation_id@,
            r.request_view() == request,
            r.status_view() is None,
    {
        let request_id = request.correlation_id.clone();
        MiddlewareContext { method: owned(method), path: owned(path), request_id, request, status: None }
    }

    /// The same context once the handler answered with `status`.
    pub fn with_status(self, status: u16) -> (r: Self)
        ensures
            r.method_view() == self.method_view(),
            r.path_view() == self.path_view(),
            r.request_id_view() == self.request_id_view(),
            r.request_view() == self.request_view(),
            r.status_view() == Some(status),
    {
        MiddlewareContext { status: Some(status), ..self }
    }

    /// HTTP method of the current request.
    pub fn method(&self) -> (r: &str)
        ensures
            r@ == self.method_view(),
    {
        self.method.as_str()
    }

    /// Request path of the current request.
    pub fn path(&self) -> (r: &str)
        ensures
            r@ == self.path_view(),
    {
        self.path.as_str()
    }

    /// Correlation/request identifier of the current request.
    pub fn request_id(&self) -> (r: &str)
        ensures
            r@ == self.request_id_view(),
    {
        self.request_id.as_str()
    }

    /// Authentication and tenancy context.
    pub fn request_context(&self) -> (r: &RequestContext)
        ensures
            *r == self.request_view(),
    {
        &self.request
    }

    /// Response status; `None` before the handler runs.
    pub fn status(&self) -> (r: Option<u16>)
        ensures
            r == self.status_view(),
    {
        self.status
    }
}

/// The error a hook returns to refuse a request: an authorization error.
pub fn reject(message: &str) -> (r: AppError)
    ensures
        r.kind == ErrorKind::Authorization,
        r.message@ == message@,
        r.source is None,
{
    AppError::new(ErrorKind::Authorization, message)
}

/// Application-provided cache metadata for one response.
#[derive(Debug, Clone)]
pub struct HttpCachePolicy {
    pub etag: String,
    pub cache_control: String,
}

impl HttpCachePolicy {
    /// A publicly cacheable response with a maximum age.
    pub fn public(etag: &str, max_age_seconds: u64) -> (r: Self)
        ensures
            r.etag@ == etag@,
            r.cache_control@ == "public, max-age="@ + decimal_seq(max_age_seconds as nat),
    {
        let mut cache_control = owned("public, max-age=");
        push_decimal(&mut cache_control, max_age_seconds);
        HttpCachePolicy { etag: owned(etag), cache_control }
    }

    /// A private response that must be revalidated.
    pub fn private(etag: &str) -> (r: Self)
        ensures
            r.etag@ == etag@,
            r.cache_control@ == "private, no-cache"@,
    {
        HttpCachePolicy { etag: owned(etag), cache_control: owned("private, no-cache") }
    }

    /// Whether a request's `If-None-Match` value matches the ETag, so that
    /// the response is `304 Not Modified`.
    pub fn not_modified(&self, if_none_match: Option<&str>) -> (r: bool)
        ensures
            r == (if_none_match matches Some(v) && v@ == self.etag@),
    {
        match if_none_match {
            Some(v) => text_eq(v, self.etag.as_str()),
            None => false,
        }
    }
}

} // verus!
