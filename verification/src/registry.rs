//! The client of one registry: its addresses, what it makes of responses, and
//! what it carries along. Sending requests is left to its caller.

use vstd::prelude::*;
use vstd::string::*;
use crate::error::{AcdpError, SchemaFault};
use crate::text::{decimal, parse_u64, split, starts_with, trim, trim_end_matches};
use crate::time::{parse_http_date, Span, Timestamp};
use crate::types::{CtxId, LineageId};

verus! {

/// How many bytes of a context are read at most.
pub const MAX_CONTEXT_BYTES: usize = 1_048_576;

/// How many bytes of anything else are read at most.
pub const MAX_METADATA_BYTES: usize = 65_536;

/// How many redirects are followed at most.
pub const MAX_REDIRECTS: usize = 3;

/// Whether a byte stands for itself in a percent-encoded text.
pub open spec fn is_unreserved(b: u8) -> bool {
    ||| 0x30 <= b <= 0x39
    ||| 0x41 <= b <= 0x5a
    ||| 0x61 <= b <= 0x7a
    ||| b == 0x2d
    ||| b == 0x2e
    ||| b == 0x5f
    ||| b == 0x7e
}

/// The uppercase hexadecimal digit for a number below sixteen.
pub open spec fn upper_hex(d: u8) -> char {
    if d < 10 {
        (0x30 + d) as char
    } else {
        (0x41 + d - 10) as char
    }
}

/// A byte in a percent-encoded text.
pub open spec fn encoded_byte(b: u8) -> Seq<char> {
    if is_unreserved(b) {
        seq![b as char]
    } else {
        seq!['%', upper_hex(b / 16), upper_hex((b % 16) as u8)]
    }
}

/// The percent-encoded text for some bytes.
pub open spec fn percent_encoded(bytes: Seq<u8>) -> Seq<char>
    decreases bytes.len(),
{
    if bytes.len() == 0 {
        Seq::empty()
    } else {
        percent_encoded(bytes.drop_last()) + encoded_byte(bytes.last())
    }
}

/// A text as it stands in an address: percent-encoded, byte by byte.
pub open spec fn url_encoded(text: Seq<char>) -> Seq<char> {
    percent_encoded(vstd::utf8::encode_utf8(text))
}

/// Calls `urlencoding::encode`, which keeps the bytes of letters, digits and
/// `-`, `.`, `_`, `~` and writes every other byte of the text as `%` and two
/// uppercase hexadecimal digits.
#[verifier::external_body]
fn urlencode(text: &str) -> (encoded: String)
    ensures
        encoded@ == url_encoded(text@),
{
    urlencoding::encode(text).into_owned()
}

/// What counts of an address: its host, its explicit port, the port that it
/// leads to, and its scheme.
#[derive(Debug, PartialEq, Eq)]
pub struct UrlParts {
    pub host: Option<String>,
    /// The port, where it is not the scheme's own.
    pub port: Option<u16>,
    /// The port, explicit or the scheme's own, where one is known.
    pub effective_port: Option<u16>,
    pub scheme: String,
}

impl UrlParts {
    /// The parts with their texts as character sequences.
    pub open spec fn view(&self) -> (Option<Seq<char>>, Option<u16>, Option<u16>, Seq<char>) {
        (crate::error::opt_text(self.host), self.port, self.effective_port, self.scheme@)
    }
}

/// Optional parts of an address as a contract sees them.
pub open spec fn parts_view(p: Option<UrlParts>) -> Option<
    (Option<Seq<char>>, Option<u16>, Option<u16>, Seq<char>),
> {
    match p {
        Some(p) => Some(p@),
        None => None,
    }
}

/// The host, the explicit port, the effective port and the scheme that
/// `url::Url::parse` reads from an address; none where it refuses it.
pub uninterp spec fn url_parts(
    s: Seq<char>,
) -> Option<(Option<Seq<char>>, Option<u16>, Option<u16>, Seq<char>)>;

/// Calls `url::Url::parse` and hands out the address's `host_str`, `port`,
/// `port_or_known_default` and `scheme`. The result depends on the text alone.
#[verifier::external_body]
fn parse_url(text: &str) -> (parts: Option<UrlParts>)
    ensures
        parts_view(parts) == url_parts(text@),
{
    match url::Url::parse(text) {
        Ok(u) => Some(UrlParts {
            host: u.host_str().map(str::to_string),
            port: u.port(),
            effective_port: u.port_or_known_default(),
            scheme: u.scheme().to_string(),
        }),
        Err(_) => None,
    }
}

/// The authority of an address: its host and, where explicit, its port.
pub open spec fn authority_of_parts(
    parts: Option<(Option<Seq<char>>, Option<u16>, Option<u16>, Seq<char>)>,
) -> Option<Seq<char>> {
    match parts {
        Some((Some(host), Some(port), _, _)) => Some(
            host + ":"@ + crate::text::decimal_digits(port as nat),
        ),
        Some((Some(host), None, _, _)) => Some(host),
        _ => None,
    }
}

/// The authority of an address that has been taken apart.
pub fn authority_from(parts: &Option<UrlParts>) -> (authority: Option<String>)
    ensures
        crate::error::opt_text(authority) == authority_of_parts(parts_view(*parts)),
{
    match parts {
        None => None,
        Some(parts) => match &parts.host {
            None => None,
            Some(host) => match parts.port {
                None => Some(host.clone()),
                Some(port) => {
                    let mut text: String = host.clone();
                    text.append(":");
                    let digits: String = decimal(port as u64);
                    text.append(digits.as_str());
                    Some(text)
                },
            },
        },
    }
}

/// The client of one registry.
///
/// `H` sends requests, `B` is a handle to a search budget and `C` one to a
/// cache of revocations; the client only carries them.
pub struct RegistryClient<H, B, C> {
    base: String,
    http: H,
    budget: Option<B>,
    revocation_cache: Option<C>,
    revocation_freshness: Span,
}

impl<H, B, C> RegistryClient<H, B, C> {
    /// The registry's address, without a slash at its end.
    pub closed spec fn address(&self) -> Seq<char> {
        self.base@
    }

    /// What sends requests.
    pub closed spec fn sender(&self) -> H {
        self.http
    }

    /// The attached budget.
    pub closed spec fn attached_budget(&self) -> Option<B> {
        self.budget
    }

    /// The attached cache.
    pub closed spec fn attached_cache(&self) -> Option<C> {
        self.revocation_cache
    }

    /// For how long a marker in the attached cache counts.
    pub closed spec fn freshness(&self) -> Span {
        self.revocation_freshness
    }

    /// A client of the registry at `base_url`, with nothing attached.
    pub fn connect(base_url: &str, http: H) -> (client: Self)
        ensures
            client.address() == crate::text::without_trailing(base_url@, '/'),
            client.sender() == http,
            client.attached_budget() is None,
            client.attached_cache() is None,
            client.freshness().total_nanos() == 0,
    {
        RegistryClient {
            base: trim_end_matches(base_url, '/').to_owned(),
            http,
            budget: None,
            revocation_cache: None,
            revocation_freshness: Span::zero(),
        }
    }

    /// The authority of the registry.
    pub fn authority(&self) -> (authority: Option<String>)
        ensures
            crate::error::opt_text(authority) == authority_of_parts(url_parts(self.address())),
    {
        authority_from(&parse_url(self.base.as_str()))
    }

    /// What sends requests.
    pub fn http(&self) -> (http: &H)
        ensures
            *http == self.sender(),
    {
        &self.http
    }

    /// The attached budget.
    pub fn budget(&self) -> (budget: Option<&B>)
        ensures
            match budget {
                Some(b) => self.attached_budget() == Some(*b),
                None => self.attached_budget() is None,
            },
    {
        self.budget.as_ref()
    }

    /// The attached cache, and for how long its markers count.
    pub fn revocation_cache(&self) -> (cache: Option<(&C, Span)>)
        ensures
            match cache {
                Some((c, freshness)) => self.attached_cache() == Some(*c) && freshness
                    == self.freshness(),
                None => self.attached_cache() is None,
            },
    {
        match &self.revocation_cache {
            Some(c) => Some((c, self.revocation_freshness)),
            None => None,
        }
    }

    fn address_of(&self, path: &str) -> (url: String)
        ensures
            url@ == self.address() + path@,
    {
        let mut url: String = self.base.clone();
        url.append(path);
        url
    }

    /// Where the registry's capabilities are.
    pub fn capabilities_url(&self) -> (url: String)
        ensures
            url@ == self.address() + "/.well-known/acdp.json"@,
    {
        self.address_of("/.well-known/acdp.json")
    }

    /// Where contexts are published.
    pub fn contexts_url(&self) -> (url: String)
        ensures
            url@ == self.address() + "/contexts"@,
    {
        self.address_of("/contexts")
    }

    /// Where contexts are searched.
    pub fn search_url(&self) -> (url: String)
        ensures
            url@ == self.address() + "/contexts/search"@,
    {
        self.address_of("/contexts/search")
    }

    /// Where a context is.
    pub fn context_url(&self, ctx_id: &CtxId) -> (url: String)
        ensures
            url@ == self.address() + "/contexts/"@ + url_encoded(ctx_id@),
    {
        let mut url: String = self.address_of("/contexts/");
        let id: String = urlencode(ctx_id.as_str());
        url.append(id.as_str());
        url
    }

    /// Where the body of a context is.
    pub fn body_url(&self, ctx_id: &CtxId) -> (url: String)
        ensures
            url@ == self.address() + "/contexts/"@ + url_encoded(ctx_id@) + "/body"@,
    {
        let mut url: String = self.context_url(ctx_id);
        url.append("/body");
        url
    }

    /// Where the contexts of a lineage are.
    pub fn lineage_url(&self, lineage_id: &LineageId) -> (url: String)
        ensures
            url@ == self.address() + "/lineages/"@ + url_encoded(lineage_id@),
    {
        let mut url: String = self.address_of("/lineages/");
        let id: String = urlencode(lineage_id.as_str());
        url.append(id.as_str());
        url
    }

    /// Where the head of a lineage is.
    pub fn current_url(&self, lineage_id: &LineageId) -> (url: String)
        ensures
            url@ == self.address() + "/lineages/"@ + url_encoded(lineage_id@) + "/current"@,
    {
        let mut url: String = self.lineage_url(lineage_id);
        url.append("/current");
        url
    }
}

/// A copy of an optional value.
pub open spec fn cloned_option<T: Clone>(a: Option<T>, b: Option<T>) -> bool {
    match (a, b) {
        (Some(x), Some(y)) => cloned(x, y),
        (None, None) => true,
        _ => false,
    }
}

fn copy_option<T: Clone>(a: &Option<T>) -> (b: Option<T>)
    ensures
        cloned_option(*a, b),
{
    match a {
        Some(x) => Some(x.clone()),
        None => None,
    }
}

impl<H: Clone, B: Clone, C: Clone> Clone for RegistryClient<H, B, C> {
    fn clone(&self) -> (copy: Self)
        ensures
            copy.address() == self.address(),
            cloned(self.sender(), copy.sender()),
            cloned_option(self.attached_budget(), copy.attached_budget()),
            cloned_option(self.attached_cache(), copy.attached_cache()),
            copy.freshness() == self.freshness(),
    {
        RegistryClient {
            base: self.base.clone(),
            http: self.http.clone(),
            budget: copy_option(&self.budget),
            revocation_cache: copy_option(&self.revocation_cache),
            revocation_freshness: self.revocation_freshness,
        }
    }
}

impl<H: Clone, B: Clone, C: Clone> RegistryClient<H, B, C> {
    /// A copy of this client with `budget` attached in place of any other.
    pub fn with_discovery_budget(&self, budget: B) -> (client: Self)
        ensures
            client.address() == self.address(),
            cloned(self.sender(), client.sender()),
            client.attached_budget() == Some(budget),
            cloned_option(self.attached_cache(), client.attached_cache()),
            client.freshness() == self.freshness(),
    {
        RegistryClient {
            base: self.base.clone(),
            http: self.http.clone(),
            budget: Some(budget),
            revocation_cache: copy_option(&self.revocation_cache),
            revocation_freshness: self.revocation_freshness,
        }
    }

    /// A copy of this client with `cache` attached in place of any other. Its
    /// markers count for no time at all until [`Self::with_revocation_freshness`]
    /// says otherwise; its facts always count.
    pub fn with_revocation_cache(&self, cache: C) -> (client: Self)
        ensures
            client.address() == self.address(),
            cloned(self.sender(), client.sender()),
            cloned_option(self.attached_budget(), client.attached_budget()),
            client.attached_cache() == Some(cache),
            client.freshness().total_nanos() == 0,
    {
        RegistryClient {
            base: self.base.clone(),
            http: self.http.clone(),
            budget: copy_option(&self.budget),
            revocation_cache: Some(cache),
            revocation_freshness: Span::zero(),
        }
    }

    /// A copy of this client in whose attached cache, if any, markers count
    /// for `freshness`.
    pub fn with_revocation_freshness(&self, freshness: Span) -> (client: Self)
        ensures
            client.address() == self.address(),
            cloned(self.sender(), client.sender()),
            cloned_option(self.attached_budget(), client.attached_budget()),
            cloned_option(self.attached_cache(), client.attached_cache()),
            client.freshness() == freshness,
    {
        RegistryClient {
            base: self.base.clone(),
            http: self.http.clone(),
            budget: copy_option(&self.budget),
            revocation_cache: copy_option(&self.revocation_cache),
            revocation_freshness: freshness,
        }
    }
}

/// How to connect to a registry. `P` is the policy on the addresses that may
/// be connected to.
#[derive(Debug)]
pub struct RegistryClientBuilder<P> {
    pub base_url: String,
    /// Resolve the host once and stay with that address.
    pub pinned: bool,
    pub ssrf_policy: P,
    /// A further root certificate to trust.
    pub root_cert_pem: Option<Vec<u8>>,
    pub connect_timeout: Span,
    pub request_timeout: Span,
}

impl<P> RegistryClientBuilder<P> {
    /// The usual way to connect: hosts are resolved anew for every
    /// connection, which may take five seconds, a request thirty.
    pub fn new(base_url: &str, ssrf_policy: P) -> (b: Self)
        ensures
            b.base_url@ == base_url@,
            !b.pinned,
            b.ssrf_policy == ssrf_policy,
            b.root_cert_pem is None,
            b.connect_timeout == (Span { secs: 5, nanos: 0 }),
            b.request_timeout == (Span { secs: 30, nanos: 0 }),
    {
        RegistryClientBuilder {
            base_url: base_url.to_owned(),
            pinned: false,
            ssrf_policy,
            root_cert_pem: None,
            connect_timeout: Span::from_secs(5),
            request_timeout: Span::from_secs(30),
        }
    }

    /// Whether to resolve the host once and stay with that address.
    pub fn pinned(self, pinned: bool) -> (b: Self)
        ensures
            b == (RegistryClientBuilder { pinned, ..self }),
    {
        let mut b: Self = self;
        b.pinned = pinned;
        b
    }

    /// The policy on the addresses that may be connected to.
    pub fn ssrf_policy(self, policy: P) -> (b: Self)
        ensures
            b == (RegistryClientBuilder { ssrf_policy: policy, ..self }),
    {
        let mut b: Self = self;
        b.ssrf_policy = policy;
        b
    }

    /// Trusts a further root certificate.
    pub fn root_cert_pem(self, pem: Vec<u8>) -> (b: Self)
        ensures
            b == (RegistryClientBuilder { root_cert_pem: Some(pem), ..self }),
    {
        let mut b: Self = self;
        b.root_cert_pem = Some(pem);
        b
    }

    /// How long connecting may take.
    pub fn connect_timeout(self, timeout: Span) -> (b: Self)
        ensures
            b == (RegistryClientBuilder { connect_timeout: timeout, ..self }),
    {
        let mut b: Self = self;
        b.connect_timeout = timeout;
        b
    }

    /// How long a request may take.
    pub fn request_timeout(self, timeout: Span) -> (b: Self)
        ensures
            b == (RegistryClientBuilder { request_timeout: timeout, ..self }),
    {
        let mut b: Self = self;
        b.request_timeout = timeout;
        b
    }

    /// The registry's address, without a slash at its end.
    pub fn base(&self) -> (base: String)
        ensures
            base@ == crate::text::without_trailing(self.base_url@, '/'),
    {
        trim_end_matches(self.base_url.as_str(), '/').to_owned()
    }

    /// The host and port to resolve once where the connection is pinned,
    /// given what the address policy says of the base address.
    pub fn pin_target(&self, policy_check: Result<(), AcdpError>) -> (r: Result<
        (String, u16),
        AcdpError,
    >)
        ensures
            pin_result(r) == pin_outcome(
                crate::text::without_trailing(self.base_url@, '/'),
                url_parts(crate::text::without_trailing(self.base_url@, '/')),
                crate::error::checked(policy_check),
            ),
    {
        let base: &str = trim_end_matches(self.base_url.as_str(), '/');
        pin_from(base, parse_url(base), policy_check)
    }
}

/// A host and a port, or a failure, as a contract sees them.
pub open spec fn pin_result(r: Result<(String, u16), AcdpError>) -> Result<
    (Seq<char>, u16),
    AcdpError<Seq<char>>,
> {
    match r {
        Ok((host, port)) => Ok((host@, port)),
        Err(e) => Err(e@),
    }
}

/// The host and port to resolve once: the address must parse, pass the
/// policy and name a host. Without a known port it is 80 for `http` and 443
/// for anything else.
pub open spec fn pin_outcome(
    base: Seq<char>,
    parts: Option<(Option<Seq<char>>, Option<u16>, Option<u16>, Seq<char>)>,
    policy_check: Result<(), AcdpError<Seq<char>>>,
) -> Result<(Seq<char>, u16), AcdpError<Seq<char>>> {
    match parts {
        None => Err(AcdpError::SchemaViolation(SchemaFault::InvalidBaseUrl(base))),
        Some((host, _, effective, scheme)) => if policy_check is Err {
            Err(policy_check->Err_0)
        } else {
            match host {
                None => Err(AcdpError::SchemaViolation(SchemaFault::NoHost)),
                Some(host) => Ok(
                    (
                        host,
                        match effective {
                            Some(port) => port,
                            None => if scheme == "http"@ {
                                80
                            } else {
                                443
                            },
                        },
                    ),
                ),
            }
        },
    }
}

/// The host and port to resolve once, given the parts of the address.
pub fn pin_from(
    base: &str,
    parts: Option<UrlParts>,
    policy_check: Result<(), AcdpError>,
) -> (r: Result<(String, u16), AcdpError>)
    ensures
        pin_result(r) == pin_outcome(
            base@,
            parts_view(parts),
            crate::error::checked(policy_check),
        ),
{
    match parts {
        None => Err(AcdpError::SchemaViolation(SchemaFault::InvalidBaseUrl(base.to_owned()))),
        Some(parts) => {
            if let Err(e) = policy_check {
                return Err(e);
            }
            match parts.host {
                None => Err(AcdpError::SchemaViolation(SchemaFault::NoHost)),
                Some(host) => {
                    let port: u16 = match parts.effective_port {
                        Some(p) => p,
                        None => if crate::text::same_text(parts.scheme.as_str(), "http") {
                            80
                        } else {
                            443
                        },
                    };
                    Ok((host, port))
                },
            }
        },
    }
}

/// Whether two addresses have the same scheme, host and port. One that cannot
/// be parsed has none of them.
pub open spec fn is_same_authority(
    a: Option<(Option<Seq<char>>, Option<u16>, Option<u16>, Seq<char>)>,
    b: Option<(Option<Seq<char>>, Option<u16>, Option<u16>, Seq<char>)>,
) -> bool {
    match (a, b) {
        (Some((host_a, _, port_a, scheme_a)), Some((host_b, _, port_b, scheme_b))) => host_a
            == host_b && port_a == port_b && scheme_a == scheme_b,
        _ => false,
    }
}

/// Whether two addresses that have been taken apart have the same scheme,
/// host and port.
pub fn same_parts(a: &Option<UrlParts>, b: &Option<UrlParts>) -> (yes: bool)
    ensures
        yes == is_same_authority(parts_view(*a), parts_view(*b)),
{
    match (a, b) {
        (Some(a), Some(b)) => {
            let same_host: bool = match (&a.host, &b.host) {
                (Some(x), Some(y)) => crate::text::same_text(x.as_str(), y.as_str()),
                (None, None) => true,
                _ => false,
            };
            let same_port: bool = match (a.effective_port, b.effective_port) {
                (Some(x), Some(y)) => x == y,
                (None, None) => true,
                _ => false,
            };
            same_host && same_port && crate::text::same_text(a.scheme.as_str(), b.scheme.as_str())
        },
        _ => false,
    }
}

/// Whether two addresses have the same scheme, host and port.
pub fn same_fetch_authority(a: &str, b: &str) -> (yes: bool)
    ensures
        yes == is_same_authority(url_parts(a@), url_parts(b@)),
{
    same_parts(&parse_url(a), &parse_url(b))
}

/// What to do about a redirect.
#[derive(Clone, Copy, Debug, PartialEq, Eq, Structural)]
pub enum RedirectDecision {
    Follow,
    /// Too many have been followed already.
    TooMany,
    /// It leads to another scheme, host or port.
    CrossAuthority,
}

/// What to do about a redirect after `followed` others, given whether it stays
/// with the scheme, host and port of the original request.
pub fn redirect_policy(followed: usize, same_authority: bool) -> (decision: RedirectDecision)
    ensures
        decision == if followed >= MAX_REDIRECTS {
            RedirectDecision::TooMany
        } else if !same_authority {
            RedirectDecision::CrossAuthority
        } else {
            RedirectDecision::Follow
        },
{
    if followed >= MAX_REDIRECTS {
        RedirectDecision::TooMany
    } else if !same_authority {
        RedirectDecision::CrossAuthority
    } else {
        RedirectDecision::Follow
    }
}

/// What follows an attempt to publish.
#[derive(Debug, PartialEq, Eq)]
pub enum PublishStep<R> {
    /// This is the outcome.
    Done(Result<R, AcdpError>),
    /// Try again after this many milliseconds.
    RetryAfter(u64),
}

/// How many milliseconds to wait after an attempt, counted from zero: 250,
/// 500, 1000, and 2000 from then on.
pub open spec fn backoff_millis(attempt: u32) -> u64 {
    if attempt == 0 {
        250
    } else if attempt == 1 {
        500
    } else if attempt == 2 {
        1000
    } else {
        2000
    }
}

/// How many attempts are made: at least one.
pub open spec fn attempts_made(max_attempts: u32) -> u32 {
    if max_attempts == 0 {
        1
    } else {
        max_attempts
    }
}

/// Decides what follows an attempt to publish, counted from zero: only a
/// transient failure is worth another attempt, and only while there is one
/// left.
pub fn publish_with_retry<R>(
    attempt: u32,
    max_attempts: u32,
    outcome: Result<R, AcdpError>,
) -> (step: PublishStep<R>)
    ensures
        step == if outcome matches Err(e) && e.transient() && attempt + 1 < attempts_made(
            max_attempts,
        ) {
            PublishStep::RetryAfter(backoff_millis(attempt))
        } else {
            PublishStep::Done(outcome)
        },
{
    let attempts: u32 = if max_attempts == 0 {
        1
    } else {
        max_attempts
    };
    match outcome {
        Ok(r) => PublishStep::Done(Ok(r)),
        Err(e) => {
            if e.is_transient() && attempt < attempts - 1 {
                let delay: u64 = match attempt {
                    0 => 250,
                    1 => 500,
                    2 => 1000,
                    _ => 2000,
                };
                return PublishStep::RetryAfter(delay);
            }
            PublishStep::Done(Err(e))
        },
    }
}

/// The cache and integrity headers of a retrieved context.
#[derive(Debug, PartialEq, Eq)]
pub struct RetrievalMetadata {
    /// The strong validator for a conditional retrieval.
    pub etag: Option<String>,
    /// The `Cache-Control` header as it was sent.
    pub cache_control: Option<String>,
    /// The `Last-Modified` header, if it is a date.
    pub last_modified: Option<Timestamp>,
}

impl Default for RetrievalMetadata {
    fn default() -> (m: Self)
        ensures
            m.etag is None,
            m.cache_control is None,
            m.last_modified is None,
    {
        RetrievalMetadata { etag: None, cache_control: None, last_modified: None }
    }
}

/// An optional text as a contract sees it.
pub open spec fn header_view(h: Option<&str>) -> Option<Seq<char>> {
    match h {
        Some(t) => Some(t@),
        None => None,
    }
}

fn copy_header(h: Option<&str>) -> (t: Option<String>)
    ensures
        crate::error::opt_text(t) == header_view(h),
{
    match h {
        Some(t) => Some(t.to_owned()),
        None => None,
    }
}

/// The headers that count of a retrieved context, given their texts where
/// they are there and are text.
pub fn parse_retrieval_metadata(
    etag: Option<&str>,
    cache_control: Option<&str>,
    last_modified: Option<&str>,
) -> (m: RetrievalMetadata)
    ensures
        crate::error::opt_text(m.etag) == header_view(etag),
        crate::error::opt_text(m.cache_control) == header_view(cache_control),
        m.last_modified == match last_modified {
            Some(t) => crate::time::as_timestamp(crate::time::rfc2822_instant(t@)),
            None => None,
        },
{
    RetrievalMetadata {
        etag: copy_header(etag),
        cache_control: copy_header(cache_control),
        last_modified: match last_modified {
            Some(t) => parse_http_date(t),
            None => None,
        },
    }
}

/// The text behind a prefix, if it is there.
pub open spec fn behind(s: Seq<char>, prefix: Seq<char>) -> Option<Seq<char>> {
    if prefix.is_prefix_of(s) {
        Some(s.skip(prefix.len() as int))
    } else {
        None
    }
}

fn strip_prefix<'a>(s: &'a str, prefix: &str) -> (rest: Option<&'a str>)
    ensures
        header_view(rest) == behind(s@, prefix@),
{
    if !starts_with(s, prefix) {
        return None;
    }
    let rest: &'a str = s.substring_char(prefix.unicode_len(), s.unicode_len());
    proof {
        assert(rest@ =~= s@.skip(prefix@.len() as int));
    }
    Some(rest)
}

/// The age in seconds that a caching directive gives a private cache, if it
/// gives one.
pub open spec fn directive_age(directive: Seq<char>) -> Option<u64> {
    let d = crate::text::trimmed_end(crate::text::trimmed_start(directive));
    match behind(d, "max-age="@) {
        Some(value) => crate::text::u64_of(value),
        None => None,
    }
}

/// The first age that caching directives give.
pub open spec fn first_age(directives: Seq<Seq<char>>) -> Option<u64>
    decreases directives.len(),
{
    if directives.len() == 0 {
        None
    } else {
        match first_age(directives.drop_last()) {
            Some(age) => Some(age),
            None => directive_age(directives.last()),
        }
    }
}

/// How many seconds a registry's capabilities are kept, given its
/// `Cache-Control` header: as long as its `max-age` says and never more than
/// an hour, or five minutes if there is no readable one.
pub open spec fn cache_seconds(cache_control: Option<Seq<char>>) -> u64 {
    match cache_control {
        None => 300,
        Some(header) => match first_age(crate::text::pieces(header, ',')) {
            Some(age) => if age > 3600 {
                3600
            } else {
                age
            },
            None => 300,
        },
    }
}

fn age_of(directive: &str) -> (age: Option<u64>)
    ensures
        age == directive_age(directive@),
{
    let d: &str = trim(directive);
    match strip_prefix(d, "max-age=") {
        Some(value) => parse_u64(value),
        None => None,
    }
}

/// How long a registry's capabilities are kept, given its `Cache-Control`
/// header.
pub fn cache_ttl_from_response(cache_control: Option<&str>) -> (ttl: Span)
    ensures
        ttl == (Span { secs: cache_seconds(header_view(cache_control)), nanos: 0 }),
        ttl.total_nanos() <= 3600 * 1_000_000_000,
{
    let header: &str = match cache_control {
        Some(h) => h,
        None => {
            return Span::from_secs(300);
        },
    };
    let directives: Vec<&str> = split(header, ',');
    let ghost all = crate::text::texts(directives@);
    let mut i: usize = 0;
    proof {
        assert(all.take(0) =~= Seq::empty());
    }
    while i < directives.len()
        invariant
            i <= directives@.len(),
            all == crate::text::texts(directives@),
            all == crate::text::pieces(header@, ','),
            cache_control == Some(header),
            first_age(all.take(i as int)) is None,
        decreases directives@.len() - i,
    {
        proof {
            assert(all.take(i as int + 1).drop_last() =~= all.take(i as int));
            assert(all.take(i as int + 1).last() == directives@[i as int]@);
            lemma_first_age_stays(all, i as int + 1);
        }
        if let Some(age) = age_of(directives[i]) {
            return Span::from_secs(
                if age > 3600 {
                    3600
                } else {
                    age
                },
            );
        }
        i = i + 1;
    }
    proof {
        assert(all.take(i as int) =~= all);
    }
    Span::from_secs(300)
}

proof fn lemma_first_age_stays(directives: Seq<Seq<char>>, n: int)
    requires
        0 <= n <= directives.len(),
    ensures
        first_age(directives.take(n)) is Some ==> first_age(directives) == first_age(
            directives.take(n),
        ),
    decreases directives.len(),
{
    if n < directives.len() {
        lemma_first_age_stays(directives.drop_last(), n);
        assert(directives.drop_last().take(n) =~= directives.take(n));
    } else {
        assert(directives.take(n) =~= directives);
    }
}

/// A response body that is being read, of which no more is kept than allowed.
#[derive(Debug, PartialEq, Eq)]
pub struct CappedBody {
    bytes: Vec<u8>,
    max_bytes: usize,
}

impl CappedBody {
    /// What has been read.
    pub closed spec fn view(&self) -> Seq<u8> {
        self.bytes@
    }

    /// How much may be read.
    pub closed spec fn cap(&self) -> usize {
        self.max_bytes
    }

    /// No more has been read than allowed.
    pub open spec fn well_formed(&self) -> bool {
        self@.len() <= self.cap()
    }

    /// Begins to read a body that announces its length, or not. One that
    /// announces too much is not read at all.
    pub fn begin(content_length: Option<u64>, max_bytes: usize) -> (r: Result<Self, AcdpError>)
        ensures
            match r {
                Ok(body) => {
                    &&& content_length matches Some(len) ==> len <= max_bytes
                    &&& body.well_formed()
                    &&& body@.len() == 0
                    &&& body.cap() == max_bytes
                },
                Err(e) => {
                    &&& content_length matches Some(len)
                    &&& len > max_bytes
                    &&& e@ == (AcdpError::<Seq<char>>::PayloadTooLarge {
                        bytes: len,
                        limit: max_bytes as u64,
                    })
                },
            },
    {
        if let Some(len) = content_length {
            if len > max_bytes as u64 {
                return Err(AcdpError::PayloadTooLarge { bytes: len, limit: max_bytes as u64 });
            }
        }
        Ok(CappedBody { bytes: Vec::new(), max_bytes })
    }

    /// Takes in a further piece of the body, or refuses it.
    pub fn push(&mut self, chunk: &Vec<u8>) -> (r: Result<(), AcdpError>)
        requires
            old(self).well_formed(),
        ensures
            final(self).well_formed(),
            final(self).cap() == old(self).cap(),
            match r {
                Ok(()) => final(self)@ == old(self)@ + chunk@,
                Err(e) => {
                    &&& old(self)@.len() + chunk@.len() > old(self).cap()
                    &&& e@ == (AcdpError::<Seq<char>>::PayloadTooLarge {
                        bytes: old(self)@.len() as u64,
                        limit: old(self).cap() as u64,
                    })
                    &&& final(self)@ == old(self)@
                },
            },
    {
        if chunk.len() > self.max_bytes - self.bytes.len() {
            return Err(
                AcdpError::PayloadTooLarge {
                    bytes: self.bytes.len() as u64,
                    limit: self.max_bytes as u64,
                },
            );
        }
        let ghost before = self.bytes@;
        self.bytes.extend_from_slice(chunk.as_slice());
        proof {
            assert(self.bytes@ =~= before + chunk@);
        }
        Ok(())
    }

    /// What has been read.
    pub fn into_bytes(self) -> (bytes: Vec<u8>)
        ensures
            bytes@ == self@,
    {
        self.bytes
    }
}

/// What a registry can be asked.
#[derive(Clone, Copy, Debug, PartialEq, Eq, Structural)]
pub enum Endpoint {
    Capabilities,
    Publish,
    /// A context.
    Context,
    /// A context with the headers that count.
    ContextWithMetadata,
    /// The body of a context.
    Body,
    Lineage,
    /// The head of a lineage.
    Current,
    Search,
}

/// How many bytes a successful answer may have: what holds contexts may be
/// large, everything else is small.
pub open spec fn answer_limit(endpoint: Endpoint) -> usize {
    match endpoint {
        Endpoint::Capabilities => MAX_METADATA_BYTES,
        Endpoint::Publish => MAX_METADATA_BYTES,
        Endpoint::Search => MAX_METADATA_BYTES,
        _ => MAX_CONTEXT_BYTES,
    }
}

/// Whether a request draws on the budget of a search for revocations: those
/// do that such a search makes.
pub open spec fn is_charged(endpoint: Endpoint) -> bool {
    match endpoint {
        Endpoint::Capabilities => true,
        Endpoint::Context => true,
        Endpoint::Lineage => true,
        Endpoint::Search => true,
        _ => false,
    }
}

impl Endpoint {
    /// How many bytes a successful answer may have.
    pub fn max_bytes(self) -> (n: usize)
        ensures
            n == answer_limit(self),
    {
        match self {
            Endpoint::Capabilities => MAX_METADATA_BYTES,
            Endpoint::Publish => MAX_METADATA_BYTES,
            Endpoint::Search => MAX_METADATA_BYTES,
            _ => MAX_CONTEXT_BYTES,
        }
    }

    /// Whether a request draws on the budget of a search for revocations.
    pub fn draws_on_budget(self) -> (yes: bool)
        ensures
            yes == is_charged(self),
    {
        match self {
            Endpoint::Capabilities => true,
            Endpoint::Context => true,
            Endpoint::Lineage => true,
            Endpoint::Search => true,
            _ => false,
        }
    }
}

/// The status of an answer that says that nothing has changed.
pub const NOT_MODIFIED: u16 = 304;

/// What a conditional retrieval comes to: nothing where the registry says
/// that nothing has changed, else what the answer comes to, with its headers.
pub fn retrieve_if_none_match<T>(
    status: u16,
    metadata: RetrievalMetadata,
    answer: Result<(T, usize), AcdpError>,
) -> (r: Result<Option<(T, RetrievalMetadata)>, AcdpError>)
    ensures
        match r {
            Ok(None) => status == NOT_MODIFIED,
            Ok(Some((value, m))) => {
                &&& status != NOT_MODIFIED
                &&& m == metadata
                &&& answer matches Ok((v, _))
                &&& v == value
            },
            Err(e) => status != NOT_MODIFIED && answer == Err::<(T, usize), AcdpError>(e),
        },
{
    if status == NOT_MODIFIED {
        return Ok(None);
    }
    match answer {
        Ok((value, _)) => Ok(Some((value, metadata))),
        Err(e) => Err(e),
    }
}

/// What could be made of the document that a registry sends with a failure.
#[derive(Debug, PartialEq, Eq)]
pub enum ErrorEnvelope {
    /// It could not be read.
    Unreadable,
    /// It is not an error document.
    Unparsable,
    /// It stands for this failure.
    Parsed(AcdpError),
}

/// The failure that an error document stands for.
pub open spec fn envelope_error(envelope: ErrorEnvelope) -> AcdpError<Seq<char>> {
    match envelope {
        ErrorEnvelope::Unreadable => AcdpError::Wire {
            code: "unknown"@,
            message: "could not read registry error response"@,
            transient: false,
        },
        ErrorEnvelope::Unparsable => AcdpError::Wire {
            code: "unknown"@,
            message: "could not parse registry error response"@,
            transient: false,
        },
        ErrorEnvelope::Parsed(e) => e@,
    }
}

/// How much of a response is read: what is allowed of a success, and little
/// of a failure.
pub fn response_cap(success: bool, max_bytes: usize) -> (cap: usize)
    ensures
        cap == if success {
            max_bytes
        } else {
            MAX_METADATA_BYTES
        },
{
    if success {
        max_bytes
    } else {
        MAX_METADATA_BYTES
    }
}

/// What a response comes to. Of a success: its value and how many bytes it
/// had, unless it could not be read or parsed. Of a failure: what the error
/// document says.
pub fn parse_success<T>(
    success: bool,
    read: Result<usize, AcdpError>,
    parsed: Result<T, AcdpError>,
    envelope: ErrorEnvelope,
) -> (r: Result<(T, usize), AcdpError>)
    ensures
        match r {
            Ok((value, n)) => success && read == Ok::<usize, AcdpError>(n) && parsed == Ok::<
                T,
                AcdpError,
            >(value),
            Err(e) => if !success {
                e@ == envelope_error(envelope)
            } else if read is Err {
                read == Err::<usize, AcdpError>(e)
            } else {
                parsed == Err::<T, AcdpError>(e)
            },
        },
{
    if !success {
        let e: AcdpError = match envelope {
            ErrorEnvelope::Unreadable => AcdpError::Wire {
                code: "unknown".to_owned(),
                message: "could not read registry error response".to_owned(),
                transient: false,
            },
            ErrorEnvelope::Unparsable => AcdpError::Wire {
                code: "unknown".to_owned(),
                message: "could not parse registry error response".to_owned(),
                transient: false,
            },
            ErrorEnvelope::Parsed(e) => e,
        };
        return Err(e);
    }
    match read {
        Err(e) => Err(e),
        Ok(n) => match parsed {
            Err(e) => Err(e),
            Ok(value) => Ok((value, n)),
        },
    }
}

/// A character that never ends or divides a part of an address.
pub open spec fn is_path_safe(c: char) -> bool {
    ||| '0' <= c <= '9'
    ||| 'A' <= c <= 'Z'
    ||| 'a' <= c <= 'z'
    ||| c == '-'
    ||| c == '.'
    ||| c == '_'
    ||| c == '~'
    ||| c == '%'
}

/// An identifier in an address stays one part of it: nothing in its encoded
/// form divides paths or ends them, whatever the identifier holds.
pub proof fn law_encoded_text_stays_one_part(text: Seq<char>, i: int)
    requires
        0 <= i < url_encoded(text).len(),
    ensures
        is_path_safe(url_encoded(text)[i]),
{
    lemma_percent_encoded_is_safe(vstd::utf8::encode_utf8(text), i);
}

proof fn lemma_percent_encoded_is_safe(bytes: Seq<u8>, i: int)
    requires
        0 <= i < percent_encoded(bytes).len(),
    ensures
        is_path_safe(percent_encoded(bytes)[i]),
    decreases bytes.len(),
{
    let init = percent_encoded(bytes.drop_last());
    if i < init.len() {
        lemma_percent_encoded_is_safe(bytes.drop_last(), i);
    } else {
        let b = bytes.last();
        let k = i - init.len();
        assert(percent_encoded(bytes)[i] == encoded_byte(b)[k]);
        assert(b / 16 < 16 && b % 16 < 16);
    }
}

/// Encoding goes byte by byte: what two texts put together are encoded as is
/// what each is; letters, digits, `-`, `.`, `_` and `~` stand for themselves,
/// and any other byte is written with a `%` and its two hexadecimal digits.
pub proof fn law_encoding_goes_by_byte(a: Seq<u8>, b: Seq<u8>, byte: u8)
    ensures
        percent_encoded(a + b) == percent_encoded(a) + percent_encoded(b),
        ({
            let c = byte as char;
            let digits = "0123456789ABCDEF"@;
            let plain = 'a' <= c <= 'z' || 'A' <= c <= 'Z' || '0' <= c <= '9' || c == '-' || c
                == '.' || c == '_' || c == '~';
            percent_encoded(seq![byte]) == if plain {
                seq![c]
            } else {
                seq!['%', digits[(byte / 16) as int], digits[(byte % 16) as int]]
            }
        }),
    decreases b.len(),
{
    reveal_strlit("0123456789ABCDEF");
    reveal_with_fuel(percent_encoded, 2);
    assert(seq![byte].drop_last() =~= Seq::empty());
    assert(seq![byte].last() == byte);
    assert(percent_encoded(seq![byte]) =~= encoded_byte(byte));
    if b.len() == 0 {
        assert(a + b =~= a);
        assert(percent_encoded(a) + percent_encoded(b) =~= percent_encoded(a));
    } else {
        law_encoding_goes_by_byte(a, b.drop_last(), byte);
        assert((a + b).drop_last() =~= a + b.drop_last());
        assert(percent_encoded(a + b) =~= percent_encoded(a) + percent_encoded(b));
    }
}

/// The authority of an address is its host, and behind a `:` its port where
/// that is explicit; an address without a host has none.
pub proof fn law_authority_of_an_address(
    host: Option<Seq<char>>,
    port: Option<u16>,
    effective: Option<u16>,
    scheme: Seq<char>,
)
    ensures
        ({
            let authority = authority_of_parts(Some((host, port, effective, scheme)));
            &&& authority is Some <==> host is Some
            &&& host is Some && port is None ==> authority == host
            &&& host is Some && port is Some ==> authority == Some(
                host->Some_0 + seq![':'] + crate::text::decimal_digits(port->Some_0 as nat),
            )
        }),
        authority_of_parts(None) is None,
{
    reveal_strlit(":");
    assert(":"@ =~= seq![':']);
}

/// An address is resolved to a host and port exactly if it parses, passes the
/// policy and names a host: the port is that of the address, and without one
/// 80 for `http` and 443 for anything else.
pub proof fn law_what_is_resolved_once(
    base: Seq<char>,
    parts: Option<(Option<Seq<char>>, Option<u16>, Option<u16>, Seq<char>)>,
    policy_check: Result<(), AcdpError<Seq<char>>>,
    host: Seq<char>,
    port: u16,
)
    ensures
        pin_outcome(base, parts, policy_check) == Ok::<(Seq<char>, u16), AcdpError<Seq<char>>>(
            (host, port),
        ) <==> {
            &&& parts is Some
            &&& policy_check is Ok
            &&& parts->Some_0.0 == Some(host)
            &&& parts->Some_0.2 is Some ==> parts->Some_0.2->Some_0 == port
            &&& parts->Some_0.2 is None ==> if parts->Some_0.3 == "http"@ {
                port == 80
            } else {
                port == 443
            }
        },
        parts is None ==> pin_outcome(base, parts, policy_check) == Err::<
            (Seq<char>, u16),
            AcdpError<Seq<char>>,
        >(AcdpError::SchemaViolation(SchemaFault::InvalidBaseUrl(base))),
        parts is Some && policy_check is Err ==> pin_outcome(base, parts, policy_check) == Err::<
            (Seq<char>, u16),
            AcdpError<Seq<char>>,
        >(policy_check->Err_0),
        parts is Some && policy_check is Ok && parts->Some_0.0 is None ==> pin_outcome(
            base,
            parts,
            policy_check,
        ) == Err::<(Seq<char>, u16), AcdpError<Seq<char>>>(
            AcdpError::SchemaViolation(SchemaFault::NoHost),
        ),
{
}

/// A redirect stays with an authority exactly if both addresses parse and
/// have the same scheme, host and effective port, whether or not the port is
/// explicit.
pub proof fn law_what_is_the_same_authority(
    a: Option<(Option<Seq<char>>, Option<u16>, Option<u16>, Seq<char>)>,
    b: Option<(Option<Seq<char>>, Option<u16>, Option<u16>, Seq<char>)>,
)
    ensures
        is_same_authority(a, b) <==> {
            &&& a is Some
            &&& b is Some
            &&& a->Some_0.0 == b->Some_0.0
            &&& a->Some_0.2 == b->Some_0.2
            &&& a->Some_0.3 == b->Some_0.3
        },
        is_same_authority(a, b) == is_same_authority(b, a),
        a is Some ==> is_same_authority(a, a),
{
}

/// The wait between attempts begins with a quarter of a second and doubles,
/// but is never more than two seconds; at least one attempt is made.
pub proof fn law_waits_double_up_to_two_seconds(attempt: u32, max_attempts: u32)
    ensures
        backoff_millis(0) == 250,
        backoff_millis(attempt) <= 2000,
        attempt < u32::MAX && backoff_millis(attempt) < 2000 ==> backoff_millis(
            (attempt + 1) as u32,
        ) == 2 * backoff_millis(attempt),
        attempt < u32::MAX && backoff_millis(attempt) == 2000 ==> backoff_millis(
            (attempt + 1) as u32,
        ) == 2000,
        max_attempts > 0 ==> attempts_made(max_attempts) == max_attempts,
        attempts_made(0) == 1,
{
}

proof fn lemma_first_age_of_both(a: Seq<Seq<char>>, b: Seq<Seq<char>>)
    ensures
        first_age(a + b) == if first_age(a) is Some {
            first_age(a)
        } else {
            first_age(b)
        },
    decreases b.len(),
{
    if b.len() == 0 {
        assert(a + b =~= a);
    } else {
        lemma_first_age_of_both(a, b.drop_last());
        assert((a + b).drop_last() =~= a + b.drop_last());
    }
}

/// The first directive that gives a readable age counts, up to an hour;
/// directives that do not are passed over, and without any it is five
/// minutes.
pub proof fn law_first_readable_age_counts(directive: Seq<char>, rest: Seq<char>)
    requires
        !directive.contains(','),
    ensures
        ({
            let text = crate::text::trimmed_end(crate::text::trimmed_start(directive));
            let age = crate::text::u64_of(text.skip(8));
            let told = text.len() >= 8 && text.take(8) == "max-age="@ && age is Some;
            let kept = if age->Some_0 > 3600 {
                3600
            } else {
                age->Some_0
            };
            &&& cache_seconds(Some(directive + seq![','] + rest)) == if told {
                kept
            } else {
                cache_seconds(Some(rest))
            }
            &&& cache_seconds(Some(directive)) == if told {
                kept
            } else {
                300
            }
            &&& cache_seconds(None) == 300
        }),
{
    reveal_strlit("max-age=");
    let text = crate::text::trimmed_end(crate::text::trimmed_start(directive));
    crate::text::law_pieces_make_the_text(directive, rest, ',');
    lemma_first_age_of_both(seq![directive], crate::text::pieces(rest, ','));
    assert("max-age="@.is_prefix_of(text) <==> text.len() >= 8 && text.take(8) == "max-age="@) by {
        if text.len() >= 8 {
            assert(text.take(8) =~= text.subrange(0, 8));
        }
    }
    reveal_with_fuel(first_age, 2);
    let one = seq![directive];
    assert(one.drop_last() =~= Seq::empty());
    assert(first_age(one) == directive_age(directive));
}

/// Answers that hold contexts may have a mebibyte, others 64 kibibytes; a
/// search for revocations pays for the requests of the kinds that it makes.
pub proof fn law_limits_of_answers(endpoint: Endpoint)
    ensures
        answer_limit(endpoint) == if endpoint is Capabilities || endpoint is Publish || endpoint
            is Search {
            65_536usize
        } else {
            1_048_576usize
        },
        is_charged(endpoint) <==> endpoint is Capabilities || endpoint is Context || endpoint
            is Lineage || endpoint is Search,
{
}

/// A text is encoded by its bytes in UTF-8, so that two texts put together
/// are encoded as each is.
pub proof fn law_texts_are_encoded_by_their_bytes(a: Seq<char>, b: Seq<char>)
    ensures
        url_encoded(a) == percent_encoded(vstd::utf8::encode_utf8(a)),
        vstd::utf8::encode_utf8(a + b) == vstd::utf8::encode_utf8(a) + vstd::utf8::encode_utf8(b)
            ==> url_encoded(a + b) == url_encoded(a) + url_encoded(b),
{
    law_encoding_goes_by_byte(vstd::utf8::encode_utf8(a), vstd::utf8::encode_utf8(b), 0);
}

/// An error document stands for the failure that it says; one that cannot be
/// made out stands for an unknown failure, which may not pass.
pub proof fn law_what_error_documents_stand_for(envelope: ErrorEnvelope)
    ensures
        envelope matches ErrorEnvelope::Parsed(e) ==> envelope_error(envelope) == e@,
        !(envelope is Parsed) ==> {
            &&& envelope_error(envelope) is Wire
            &&& envelope_error(envelope)->code == "unknown"@
            &&& !envelope_error(envelope).transient()
        },
{
}

} // verus!
