//! Typed operations that the proxy applies after a rule matches.
use crate::rules::error::{ModelErrorKind, RuleModelError};
use crate::rules::family::ActionFamilySet;
use crate::rules::host_pool::HostPool;
use crate::rules::replace_pattern::RegexReplacePattern;
use crate::rules::value::{Value, ValueView};
use crate::text::lit;
use vstd::prelude::*;

verus! {

/// Request/response phase used by delay and throttling actions.
#[derive(Clone, Copy, Debug, PartialEq, Eq, Structural)]
pub enum Phase {
    /// Before or during upstream request forwarding.
    Req,
    /// Before or during downstream response forwarding.
    Res,
}

impl Phase {
    /// Returns the stable machine-readable phase identifier.
    pub fn as_str(self) -> (r: &'static str)
        ensures
            r@ == (match self {
                Phase::Req => "request"@,
                Phase::Res => "response"@,
            }),
    {
        match self {
            Phase::Req => "request",
            Phase::Res => "response",
        }
    }
}

/// One segment of a nested body path.
#[derive(Clone, Debug, PartialEq, Eq)]
pub enum DeleteBodyPathSegment {
    Key(String),
    Index(usize),
}

/// A body-path segment as plain data.
pub enum SegmentView {
    Key(Seq<char>),
    Index(nat),
}

impl View for DeleteBodyPathSegment {
    type V = SegmentView;

    open spec fn view(&self) -> SegmentView {
        match self {
            DeleteBodyPathSegment::Key(k) => SegmentView::Key(k@),
            DeleteBodyPathSegment::Index(i) => SegmentView::Index(*i as nat),
        }
    }
}

/// The views of a sequence of body-path segments.
pub open spec fn segment_views(v: Seq<DeleteBodyPathSegment>) -> Seq<SegmentView> {
    v.map_values(|x: DeleteBodyPathSegment| x@)
}

/// A non-empty path into a JSON or form body.
#[derive(Clone, Debug, PartialEq, Eq)]
pub struct DeleteBodyPath {
    segments: Vec<DeleteBodyPathSegment>,
}

impl View for DeleteBodyPath {
    type V = Seq<SegmentView>;

    closed spec fn view(&self) -> Seq<SegmentView> {
        segment_views(self.segments@)
    }
}

impl DeleteBodyPath {
    /// Builds a body path, rejecting an empty segment list.
    pub fn new(segments: Vec<DeleteBodyPathSegment>) -> (r: Result<DeleteBodyPath, RuleModelError>)
        ensures
            match r {
                Ok(p) => p@ == segment_views(segments@) && segments@.len() > 0,
                Err(e) => segments@.len() == 0 && e.is_error(
                    ModelErrorKind::EmptyInput,
                    "delete body path",
                ),
            },
    {
        if segments.len() == 0 {
            Err(RuleModelError::EmptyInput {
                context: "delete body path",
                message: lit("delete body path must contain at least one segment"),
            })
        } else {
            Ok(DeleteBodyPath { segments })
        }
    }

    /// A copy of this path.
    pub fn duplicate(&self) -> (r: DeleteBodyPath)
        ensures
            r@ == self@,
    {
        let mut segments: Vec<DeleteBodyPathSegment> = Vec::new();
        let mut i: usize = 0;
        while i < self.segments.len()
            invariant
                i <= self.segments@.len(),
                segment_views(segments@) == segment_views(self.segments@.take(i as int)),
            decreases self.segments@.len() - i,
        {
            let s = match &self.segments[i] {
                DeleteBodyPathSegment::Key(k) => DeleteBodyPathSegment::Key(k.clone()),
                DeleteBodyPathSegment::Index(n) => DeleteBodyPathSegment::Index(*n),
            };
            let ghost prev = segment_views(segments@);
            segments.push(s);
            assert(segment_views(segments@) =~= prev.push(self.segments@[i as int]@));
            assert(segment_views(self.segments@.take(i + 1)) =~= segment_views(
                self.segments@.take(i as int),
            ).push(self.segments@[i as int]@));
            i += 1;
        }
        assert(self.segments@.take(self.segments@.len() as int) == self.segments@);
        DeleteBodyPath { segments }
    }

    /// Returns the path's segments.
    pub fn segments(&self) -> (r: &[DeleteBodyPathSegment])
        ensures
            segment_views(r@) == self@,
    {
        self.segments.as_slice()
    }
}

/// Position of a pathname segment to delete.
#[derive(Clone, Copy, Debug, PartialEq, Eq, Structural)]
pub enum DeletePathSegment {
    Index(i32),
    Last,
}

/// A typed target of the `delete(...)` action.
#[derive(Clone, Debug, PartialEq, Eq)]
pub enum DeleteOp {
    /// Clears the complete URL pathname.
    Pathname,
    /// Removes an indexed pathname segment using original segment positions.
    PathSegment(DeletePathSegment),
    /// Removes every query parameter.
    UrlParams,
    /// Removes every occurrence of the named query parameter.
    UrlParam(String),
    /// Removes every request header with the given case-insensitive name.
    ReqHeader(String),
    /// Removes every response header with the given case-insensitive name.
    ResHeader(String),
    /// Removes the complete request body.
    ReqBody,
    /// Removes the complete response body.
    ResBody,
    /// Deletes a nested field from a supported request JSON or form body.
    ReqBodyPath(DeleteBodyPath),
    /// Deletes a nested field from a supported response JSON or JSONP body.
    ResBodyPath(DeleteBodyPath),
    /// Removes the media type portion of request `Content-Type`.
    ReqType,
    /// Removes the media type portion of response `Content-Type`.
    ResType,
    /// Removes the charset parameter from request `Content-Type`.
    ReqCharset,
    /// Removes the charset parameter from response `Content-Type`.
    ResCharset,
    /// Removes the named request cookie.
    ReqCookie(String),
    /// Removes response `Set-Cookie` fields for the named cookie.
    ResCookie(String),
    /// Removes the entire request `Cookie` header.
    ReqCookies,
    /// Removes every response `Set-Cookie` header.
    ResCookies,
    /// Removes the named response trailer.
    Trailer(String),
    /// Removes every response trailer.
    Trailers,
}

/// A deletion target as plain data.
pub enum DeleteOpView {
    Pathname,
    PathSegment(DeletePathSegment),
    UrlParams,
    UrlParam(Seq<char>),
    ReqHeader(Seq<char>),
    ResHeader(Seq<char>),
    ReqBody,
    ResBody,
    ReqBodyPath(Seq<SegmentView>),
    ResBodyPath(Seq<SegmentView>),
    ReqType,
    ResType,
    ReqCharset,
    ResCharset,
    ReqCookie(Seq<char>),
    ResCookie(Seq<char>),
    ReqCookies,
    ResCookies,
    Trailer(Seq<char>),
    Trailers,
}

impl View for DeleteOp {
    type V = DeleteOpView;

    open spec fn view(&self) -> DeleteOpView {
        match self {
            DeleteOp::Pathname => DeleteOpView::Pathname,
            DeleteOp::PathSegment(p) => DeleteOpView::PathSegment(*p),
            DeleteOp::UrlParams => DeleteOpView::UrlParams,
            DeleteOp::UrlParam(n) => DeleteOpView::UrlParam(n@),
            DeleteOp::ReqHeader(n) => DeleteOpView::ReqHeader(n@),
            DeleteOp::ResHeader(n) => DeleteOpView::ResHeader(n@),
            DeleteOp::ReqBody => DeleteOpView::ReqBody,
            DeleteOp::ResBody => DeleteOpView::ResBody,
            DeleteOp::ReqBodyPath(p) => DeleteOpView::ReqBodyPath(p@),
            DeleteOp::ResBodyPath(p) => DeleteOpView::ResBodyPath(p@),
            DeleteOp::ReqType => DeleteOpView::ReqType,
            DeleteOp::ResType => DeleteOpView::ResType,
            DeleteOp::ReqCharset => DeleteOpView::ReqCharset,
            DeleteOp::ResCharset => DeleteOpView::ResCharset,
            DeleteOp::ReqCookie(n) => DeleteOpView::ReqCookie(n@),
            DeleteOp::ResCookie(n) => DeleteOpView::ResCookie(n@),
            DeleteOp::ReqCookies => DeleteOpView::ReqCookies,
            DeleteOp::ResCookies => DeleteOpView::ResCookies,
            DeleteOp::Trailer(n) => DeleteOpView::Trailer(n@),
            DeleteOp::Trailers => DeleteOpView::Trailers,
        }
    }
}

/// The views of a sequence of deletion targets.
pub open spec fn delete_views(v: Seq<DeleteOp>) -> Seq<DeleteOpView> {
    v.map_values(|x: DeleteOp| x@)
}

/// The phase in which a deletion target takes effect.
pub open spec fn delete_phase(op: DeleteOpView) -> Phase {
    match op {
        DeleteOpView::ResHeader(_) | DeleteOpView::ResBody | DeleteOpView::ResBodyPath(_)
        | DeleteOpView::ResType | DeleteOpView::ResCharset | DeleteOpView::ResCookie(_)
        | DeleteOpView::ResCookies | DeleteOpView::Trailer(_) | DeleteOpView::Trailers => Phase::Res,
        _ => Phase::Req,
    }
}

/// Reports whether a deletion target has an effect in `phase`.
pub fn delete_operation_applies_in(operation: &DeleteOp, phase: Phase) -> (r: bool)
    ensures
        r == (delete_phase(operation@) == phase),
{
    let res = match operation {
        DeleteOp::ResHeader(_) | DeleteOp::ResBody | DeleteOp::ResBodyPath(_) | DeleteOp::ResType
        | DeleteOp::ResCharset | DeleteOp::ResCookie(_) | DeleteOp::ResCookies | DeleteOp::Trailer(
            _,
        ) | DeleteOp::Trailers => true,
        _ => false,
    };
    match phase {
        Phase::Req => !res,
        Phase::Res => res,
    }
}

/// An ordered query-string mutation.
#[derive(Clone, Debug, PartialEq, Eq)]
pub enum QueryOp {
    /// Adds a parameter or replaces its existing value.
    SetValue { name: String, value: Value },
    /// Removes all occurrences of a parameter.
    Remove { name: String },
}

/// A query mutation as plain data: the name and, for a set, the value.
pub type QueryOpView = (Seq<char>, Option<ValueView>);

impl View for QueryOp {
    type V = QueryOpView;

    open spec fn view(&self) -> QueryOpView {
        match self {
            QueryOp::SetValue { name, value } => (name@, Some(value@)),
            QueryOp::Remove { name } => (name@, None),
        }
    }
}

/// One parsed `Set-Cookie` attribute attached to [`CookieOp::SetValue`].
#[derive(Clone, Debug, PartialEq, Eq)]
pub struct CookieAttr {
    /// Attribute name, such as `Path`, `HttpOnly`, or `SameSite`.
    pub name: String,
    /// Optional attribute value; flag attributes such as `Secure` have none.
    pub value: Option<Value>,
}

/// A request-cookie or response-cookie mutation.
#[derive(Clone, Debug, PartialEq, Eq)]
pub enum CookieOp {
    /// Writes the named cookie, with attributes used for response cookies.
    SetValue { name: String, value: Value, attrs: Vec<CookieAttr> },
    /// Removes all entries with the named cookie key.
    Remove { name: String },
}

/// Structured payload of the inline `mock(status=..., header=..., body=...)` form.
#[derive(Clone, Debug, PartialEq, Eq)]
pub struct MockInlineOp {
    /// Response status; `None` defaults to 200.
    pub status: Option<u16>,
    /// Ordered response headers set on the mock response.
    pub headers: Vec<(String, Value)>,
    /// Optional response body; `None` sends an empty body.
    pub body: Option<Value>,
}

/// Structured values used to construct CORS response headers.
#[derive(Clone, Debug, PartialEq, Eq)]
pub struct CorsOp {
    /// Value for `Access-Control-Allow-Origin`.
    pub origin: Value,
    /// Optional space-separated allowed methods.
    pub methods: Option<Value>,
    /// Optional space-separated allowed request headers.
    pub headers: Option<Value>,
    /// Whether credentials are allowed; absence leaves the header unset.
    pub credentials: Option<bool>,
    /// Optional space-separated headers exposed to browser code.
    pub expose: Option<Value>,
    /// Optional preflight cache duration written to `Access-Control-Max-Age`.
    pub max_age: Option<Value>,
}

/// One name or name/value token in a `Cache-Control` header.
#[derive(Clone, Debug, PartialEq, Eq)]
pub struct CacheDirective {
    /// Directive name, normalized and validated during parsing.
    pub name: String,
    /// Optional directive argument, for example the seconds in `max-age=60`.
    pub value: Option<Value>,
}

/// A response caching policy compiled from `cache(...)`.
#[derive(Clone, Debug, PartialEq, Eq)]
pub enum CacheOp {
    /// Disables caching by writing no-cache `Cache-Control` and `Pragma` fields.
    Off,
    /// Serializes the ordered directives into `Cache-Control`.
    Directives(Vec<CacheDirective>),
}

/// Minimum origin TLS version.
#[derive(Clone, Copy, Debug, PartialEq, Eq, Structural)]
pub enum TlsMinVersion {
    /// Allows TLS 1.2 or newer.
    Tls12,
    /// Requires TLS 1.3.
    Tls13,
}

impl TlsMinVersion {
    /// Returns the stable spelling of this minimum version.
    pub fn as_str(self) -> (r: &'static str)
        ensures
            r@ == (match self {
                TlsMinVersion::Tls12 => "1.2"@,
                TlsMinVersion::Tls13 => "1.3"@,
            }),
    {
        match self {
            TlsMinVersion::Tls12 => "1.2",
            TlsMinVersion::Tls13 => "1.3",
        }
    }
}

/// A cipher suite accepted by `tls(ciphers=...)`.
#[derive(Clone, Copy, Debug, PartialEq, Eq, Structural)]
pub enum TlsCipherSuite {
    Tls13Aes128GcmSha256,
    Tls13Aes256GcmSha384,
    Tls13Chacha20Poly1305Sha256,
    Tls12EcdheEcdsaAes128GcmSha256,
    Tls12EcdheEcdsaAes256GcmSha384,
    Tls12EcdheEcdsaChacha20Poly1305Sha256,
    Tls12EcdheRsaAes128GcmSha256,
    Tls12EcdheRsaAes256GcmSha384,
    Tls12EcdheRsaChacha20Poly1305Sha256,
}

impl TlsCipherSuite {
    /// The suite's IANA name.
    pub open spec fn iana_name(self) -> Seq<char> {
        match self {
            TlsCipherSuite::Tls13Aes128GcmSha256 => "TLS_AES_128_GCM_SHA256"@,
            TlsCipherSuite::Tls13Aes256GcmSha384 => "TLS_AES_256_GCM_SHA384"@,
            TlsCipherSuite::Tls13Chacha20Poly1305Sha256 => "TLS_CHACHA20_POLY1305_SHA256"@,
            TlsCipherSuite::Tls12EcdheEcdsaAes128GcmSha256 => "TLS_ECDHE_ECDSA_WITH_AES_128_GCM_SHA256"@,
            TlsCipherSuite::Tls12EcdheEcdsaAes256GcmSha384 => "TLS_ECDHE_ECDSA_WITH_AES_256_GCM_SHA384"@,
            TlsCipherSuite::Tls12EcdheEcdsaChacha20Poly1305Sha256 => "TLS_ECDHE_ECDSA_WITH_CHACHA20_POLY1305_SHA256"@,
            TlsCipherSuite::Tls12EcdheRsaAes128GcmSha256 => "TLS_ECDHE_RSA_WITH_AES_128_GCM_SHA256"@,
            TlsCipherSuite::Tls12EcdheRsaAes256GcmSha384 => "TLS_ECDHE_RSA_WITH_AES_256_GCM_SHA384"@,
            TlsCipherSuite::Tls12EcdheRsaChacha20Poly1305Sha256 => "TLS_ECDHE_RSA_WITH_CHACHA20_POLY1305_SHA256"@,
        }
    }

    /// Returns the suite's stable IANA name.
    pub fn as_str(self) -> (r: &'static str)
        ensures
            r@ == self.iana_name(),
    {
        match self {
            TlsCipherSuite::Tls13Aes128GcmSha256 => "TLS_AES_128_GCM_SHA256",
            TlsCipherSuite::Tls13Aes256GcmSha384 => "TLS_AES_256_GCM_SHA384",
            TlsCipherSuite::Tls13Chacha20Poly1305Sha256 => "TLS_CHACHA20_POLY1305_SHA256",
            TlsCipherSuite::Tls12EcdheEcdsaAes128GcmSha256 => "TLS_ECDHE_ECDSA_WITH_AES_128_GCM_SHA256",
            TlsCipherSuite::Tls12EcdheEcdsaAes256GcmSha384 => "TLS_ECDHE_ECDSA_WITH_AES_256_GCM_SHA384",
            TlsCipherSuite::Tls12EcdheEcdsaChacha20Poly1305Sha256 => "TLS_ECDHE_ECDSA_WITH_CHACHA20_POLY1305_SHA256",
            TlsCipherSuite::Tls12EcdheRsaAes128GcmSha256 => "TLS_ECDHE_RSA_WITH_AES_128_GCM_SHA256",
            TlsCipherSuite::Tls12EcdheRsaAes256GcmSha384 => "TLS_ECDHE_RSA_WITH_AES_256_GCM_SHA384",
            TlsCipherSuite::Tls12EcdheRsaChacha20Poly1305Sha256 => "TLS_ECDHE_RSA_WITH_CHACHA20_POLY1305_SHA256",
        }
    }

    /// True for the suites defined for TLS 1.3.
    pub open spec fn tls13(self) -> bool {
        self is Tls13Aes128GcmSha256 || self is Tls13Aes256GcmSha384
            || self is Tls13Chacha20Poly1305Sha256
    }

    /// Reports whether the suite is defined for TLS 1.3 rather than TLS 1.2.
    pub fn is_tls13(self) -> (r: bool)
        ensures
            r == self.tls13(),
    {
        match self {
            TlsCipherSuite::Tls13Aes128GcmSha256 | TlsCipherSuite::Tls13Aes256GcmSha384
            | TlsCipherSuite::Tls13Chacha20Poly1305Sha256 => true,
            _ => false,
        }
    }
}

/// Origin TLS policy resolved from `tls(...)`.
#[derive(Clone, Debug, PartialEq, Eq)]
pub struct TlsOp {
    /// Optional PEM certificate-chain path for origin mutual TLS.
    pub client_cert: Option<String>,
    /// Optional PEM private-key path paired with `client_cert`.
    pub client_key: Option<String>,
    /// Minimum TLS protocol version accepted from the origin.
    pub min_version: Option<TlsMinVersion>,
    /// Allowed cipher suites; an empty list leaves the runtime default set intact.
    pub ciphers: Vec<TlsCipherSuite>,
}

/// Response media family required for an injection to run.
#[derive(Clone, Copy, Debug, PartialEq, Eq, Structural)]
pub enum InjectTarget {
    Html,
    Js,
    Css,
}

impl InjectTarget {
    /// Returns the stable spelling of this target.
    pub fn as_str(self) -> (r: &'static str)
        ensures
            r@ == (match self {
                InjectTarget::Html => "html"@,
                InjectTarget::Js => "js"@,
                InjectTarget::Css => "css"@,
            }),
    {
        match self {
            InjectTarget::Html => "html",
            InjectTarget::Js => "js",
            InjectTarget::Css => "css",
        }
    }
}

/// Placement of injected content relative to the existing response body.
#[derive(Clone, Copy, Debug, PartialEq, Eq, Structural)]
pub enum InjectMode {
    Append,
    Prepend,
    Replace,
}

impl InjectMode {
    /// Returns the stable spelling of this placement.
    pub fn as_str(self) -> (r: &'static str)
        ensures
            r@ == (match self {
                InjectMode::Append => "append"@,
                InjectMode::Prepend => "prepend"@,
                InjectMode::Replace => "replace"@,
            }),
    {
        match self {
            InjectMode::Append => "append",
            InjectMode::Prepend => "prepend",
            InjectMode::Replace => "replace",
        }
    }
}

/// A content-type-gated response injection.
#[derive(Clone, Debug, PartialEq, Eq)]
pub struct InjectOp {
    /// Response media family that permits the injection.
    pub target: InjectTarget,
    /// Binary-preserving content loaded or rendered by the caller.
    pub value: Value,
    /// Placement relative to the existing response body.
    pub mode: InjectMode,
}

/// A regex replacement pattern as plain data: its text and whether it ignores case.
pub type PatternView = (Seq<char>, bool);

/// The plain data of a compiled replacement pattern.
pub open spec fn pattern_view(p: RegexReplacePattern) -> PatternView {
    (p.pattern_spec(), p.case_insensitive_spec())
}

/// A request or response header mutation.
#[derive(Clone, Debug)]
pub enum HeaderOp {
    /// Replaces existing values or inserts the named field.
    SetValue { name: String, value: Value },
    /// Removes every occurrence of the named field.
    Remove { name: String },
    /// Replaces every regex match in every value of the named field.
    Replace { name: String, pattern: RegexReplacePattern, replacement: String },
}

/// A header mutation as plain data.
pub enum HeaderOpView {
    SetValue(Seq<char>, ValueView),
    Remove(Seq<char>),
    Replace(Seq<char>, PatternView, Seq<char>),
}

impl View for HeaderOp {
    type V = HeaderOpView;

    open spec fn view(&self) -> HeaderOpView {
        match self {
            HeaderOp::SetValue { name, value } => HeaderOpView::SetValue(name@, value@),
            HeaderOp::Remove { name } => HeaderOpView::Remove(name@),
            HeaderOp::Replace { name, pattern, replacement } => HeaderOpView::Replace(
                name@,
                pattern_view(*pattern),
                replacement@,
            ),
        }
    }
}

/// A request or response body mutation.
#[derive(Clone, Debug)]
pub enum BodyOp {
    /// Replaces the entire body with the resolved value.
    SetValue(Value),
    /// Inserts the resolved value before the existing body.
    Prepend(Value),
    /// Inserts the resolved value after the existing body.
    Append(Value),
    /// Replaces every regex match in a UTF-8 body.
    Replace { pattern: RegexReplacePattern, replacement: String },
}

/// A body mutation as plain data.
pub enum BodyOpView {
    SetValue(ValueView),
    Prepend(ValueView),
    Append(ValueView),
    Replace(PatternView, Seq<char>),
}

impl View for BodyOp {
    type V = BodyOpView;

    open spec fn view(&self) -> BodyOpView {
        match self {
            BodyOp::SetValue(v) => BodyOpView::SetValue(v@),
            BodyOp::Prepend(v) => BodyOpView::Prepend(v@),
            BodyOp::Append(v) => BodyOpView::Append(v@),
            BodyOp::Replace { pattern, replacement } => BodyOpView::Replace(
                pattern_view(*pattern),
                replacement@,
            ),
        }
    }
}

/// The match side of a `url.replace` rewrite.
#[derive(Clone, Debug)]
pub enum UrlRewritePattern {
    /// Literal string replacement with a structured replacement value.
    Plain(Value),
    /// Regular-expression replacement with capture expansion.
    Regex(RegexReplacePattern),
}

/// A URL rewrite pattern as plain data.
pub enum UrlRewriteView {
    Plain(ValueView),
    Regex(PatternView),
}

impl View for UrlRewritePattern {
    type V = UrlRewriteView;

    open spec fn view(&self) -> UrlRewriteView {
        match self {
            UrlRewritePattern::Plain(v) => UrlRewriteView::Plain(v@),
            UrlRewritePattern::Regex(p) => UrlRewriteView::Regex(pattern_view(*p)),
        }
    }
}

/// A validated operation that the proxy applies after a rule matches.
///
/// Variants retain structured [`Value`] sources. Resolving a rule chooses and orders actions,
/// but loading files and mutating protocol messages remains the caller's responsibility.
#[derive(Clone, Debug)]
pub enum Action {
    /// Selects one origin address from a per-rule round-robin pool while preserving `Host`.
    Host(HostPool),
    /// Routes through the proxy or mixed proxy chain described by the value.
    Upstream(Value),
    /// Forces origin routing and overrides a previously matched upstream route.
    Direct,
    /// Short-circuits the request with an inline, referenced, or file-backed body.
    Mock(Value),
    /// Short-circuits with a raw HTTP status line, headers, and body payload.
    MockRaw(Value),
    /// Short-circuits with a structured status/header/body combination.
    MockInline(MockInlineOp),
    /// Short-circuits with the given HTTP response status.
    Status(u16),
    /// Short-circuits with an HTTP redirect.
    Redirect { url: Value, code: u16 },
    /// Applies a set, removal, or regex replacement to request headers.
    ReqHeader(HeaderOp),
    /// Applies a set, removal, or regex replacement to response headers.
    ResHeader(HeaderOp),
    /// Replaces the upstream response status before downstream forwarding.
    ResStatus(u16),
    /// Replaces the request method before upstream forwarding.
    ReqMethod(Value),
    /// Sets or removes entries in the request `Cookie` header.
    ReqCookie(CookieOp),
    /// Adds or removes response `Set-Cookie` headers.
    ResCookie(CookieOp),
    /// Sets the request `User-Agent` header.
    ReqUa(Value),
    /// Sets the request `Referer` header.
    ReqReferer(Value),
    /// Sets Basic credentials in the request `Authorization` header.
    ReqAuth(Value),
    /// Sets `X-Forwarded-For`, normalizing socket-address values to their IP.
    ReqForwarded(Value),
    /// Sets the media type portion of the request `Content-Type` header.
    ReqType(Value),
    /// Sets the charset parameter of the request `Content-Type` header.
    ReqCharset(Value),
    /// Materializes common CORS response headers from a structured policy.
    ResCors(CorsOp),
    /// Sets the media type portion of the response `Content-Type` header.
    ResType(Value),
    /// Sets the charset parameter of the response `Content-Type` header.
    ResCharset(Value),
    /// Deep-merges an object into an object-valued JSON response.
    ResMerge(Value),
    /// Sets or removes an HTTP/1.1 response trailer.
    ResTrailer(HeaderOp),
    /// Sets `Content-Disposition: attachment`, optionally with a filename.
    Attachment(Option<Value>),
    /// Writes response cache headers, including the explicit no-cache form.
    Cache(CacheOp),
    /// Constrains origin TLS or supplies a client identity for origin mTLS.
    Tls(TlsOp),
    /// Transparently replaces the request origin before forwarding, without a redirect.
    MapRemote(Value),
    /// Rewrites the request path and query before forwarding.
    UrlRewrite { from: UrlRewritePattern, to: Value },
    /// Applies ordered additions, updates, and removals to query parameters.
    UrlQuery(Vec<QueryOp>),
    /// Applies typed deletions to request or response properties.
    Delete(Vec<DeleteOp>),
    /// Rewrites a buffered request body and updates its framing metadata.
    ReqBody(BodyOp),
    /// Rewrites a buffered response body and updates its framing metadata.
    ResBody(BodyOp),
    /// Injects bytes into a response selected by its content type.
    Inject(InjectOp),
    /// Delays request or response forwarding by a number of milliseconds.
    Delay { phase: Phase, millis: u64 },
    /// Paces request or response body writes to a rate in bytes per second.
    Throttle { phase: Phase, bytes_per_sec: u64 },
    /// Keeps matching `CONNECT` traffic as passthrough instead of enabling MITM.
    Bypass,
    /// Suppresses trace recording without suppressing other matched actions.
    Hide,
    /// Adds a rendered `tag:<value>` flag to the trace.
    Tag(Value),
    /// Suppresses later action families, or all later actions when the set is empty.
    Skip(ActionFamilySet),
}

} // verus!
