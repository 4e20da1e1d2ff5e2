//! The session manager: the three-step login handshake as a state machine
//! driven by the transport, and the cache that reuses an established session
//! for thirty minutes.

use vstd::prelude::*;
use crate::config::{IptvConfig, imei_of, ip_of};
use crate::crypto::{auth_blob, encode_auth_with_nonce};
use crate::error::IptvError;
use crate::request::{
    Request, authorize_path, authorize_query, authorize_request, discovery_request, discovery_url,
    query_view, token_path, token_query, token_request,
};
use crate::text::{decimal_chars, push_char, push_decimal, push_str};

verus! {

/// The scheme, host and port (explicit or the scheme's default) that
/// `reqwest::Url::parse` reads from a URL.
pub uninterp spec fn url_parts(s: Seq<char>) -> Option<(Seq<char>, Option<Seq<char>>, Option<u16>)>;

pub open spec fn opt_view(o: Option<String>) -> Option<Seq<char>> {
    match o {
        Some(s) => Some(s@),
        None => None,
    }
}

/// Relies on `reqwest::Url::parse`, `Url::scheme`, `Url::host_str` and
/// `Url::port_or_known_default`.
#[verifier::external_body]
fn parse_url_parts(s: &str) -> (r: Option<(String, Option<String>, Option<u16>)>)
    ensures
        r is None ==> url_parts(s@) is None,
        r matches Some((sc, h, p)) ==> url_parts(s@) == Some((sc@, opt_view(h), p)),
{
    reqwest::Url::parse(s).ok().map(
        |u| (u.scheme().to_owned(), u.host_str().map(|h| h.to_owned()), u.port_or_known_default()),
    )
}

/// `scheme://host:port`.
pub open spec fn origin(scheme: Seq<char>, host: Seq<char>, port: u16) -> Seq<char> {
    scheme + "://"@ + host + seq![':'] + decimal_chars(port as nat)
}

/// The base URL of the backend from the parts of the URL it redirects to;
/// none without a host or a port.
pub fn base_url_from_parts(scheme: &str, host: Option<&str>, port: Option<u16>) -> (r: Option<String>)
    ensures
        match (host, port) {
            (Some(h), Some(p)) => r matches Some(b) && b@ == origin(scheme@, h@, p),
            _ => r is None,
        },
{
    match (host, port) {
        (Some(h), Some(p)) => {
            let mut s = String::new();
            push_str(&mut s, scheme);
            push_str(&mut s, "://");
            push_str(&mut s, h);
            push_char(&mut s, ':');
            push_decimal(&mut s, p as u64);
            assert(Seq::<char>::empty() + scheme@ == scheme@);
            Some(s)
        },
        _ => None,
    }
}

/// The base URL that the redirect target `epgurl` gives.
pub open spec fn base_url_of(epgurl: Seq<char>) -> Option<Seq<char>> {
    match url_parts(epgurl) {
        Some((sc, Some(h), Some(p))) => Some(origin(sc, h, p)),
        _ => None,
    }
}

/// The base URL of the backend from the redirect target it announced; a
/// target without scheme, host or port is a `Parse` error carrying it.
pub fn base_url_from_epgurl(epgurl: &str) -> (r: Result<String, IptvError>)
    ensures
        match base_url_of(epgurl@) {
            Some(b) => r matches Ok(s) && s@ == b,
            None => r matches Err(IptvError::Parse(t)) && t@ == epgurl@,
        },
{
    match parse_url_parts(epgurl) {
        None => Err(IptvError::Parse(epgurl.to_owned())),
        Some((scheme, host, port)) => {
            let h: Option<&str> = match &host {
                Some(x) => Some(x.as_str()),
                None => None,
            };
            match base_url_from_parts(scheme.as_str(), h, port) {
                Some(b) => Ok(b),
                None => Err(IptvError::Parse(epgurl.to_owned())),
            }
        },
    }
}

/// Where the handshake stands. The base URL is known from the second step on.
pub enum LoginPhase {
    Discovering,
    Authorizing(String),
    Exchanging(String),
    Established(String),
    Failed,
}

pub enum PhaseModel {
    Discovering,
    Authorizing(Seq<char>),
    Exchanging(Seq<char>),
    Established(Seq<char>),
    Failed,
}

impl View for LoginPhase {
    type V = PhaseModel;

    open spec fn view(&self) -> PhaseModel {
        match self {
            LoginPhase::Discovering => PhaseModel::Discovering,
            LoginPhase::Authorizing(b) => PhaseModel::Authorizing(b@),
            LoginPhase::Exchanging(b) => PhaseModel::Exchanging(b@),
            LoginPhase::Established(b) => PhaseModel::Established(b@),
            LoginPhase::Failed => PhaseModel::Failed,
        }
    }
}

/// What the transport reports back after sending the handshake's request.
pub enum LoginEvent {
    /// The discovery answer, with its `epgurl` field.
    Discovered(String),
    /// The authorize answer, with its `EncryToken` field.
    TokenIssued(String),
    /// The token endpoint accepted the blob.
    Granted,
    /// The request failed, or its answer could not be decoded.
    Failed(IptvError),
}

/// What the transport does next.
pub enum LoginAction {
    Send(Request),
    /// The session is established at this base URL.
    Complete(String),
    Abort(IptvError),
}

/// A login in progress for one account.
pub struct Handshake {
    pub phase: LoginPhase,
    pub config: IptvConfig,
}

/// `r` is a request for `url` with the query `q`.
pub open spec fn sends(r: LoginAction, url: Seq<char>, q: Seq<(Seq<char>, Seq<char>)>) -> bool {
    r matches LoginAction::Send(req) && req.url@ == url && query_view(req.query@) == q
}

/// The result of the handshake step on `event` in `phase`, with `nonce` in the
/// authentication blob.
pub open spec fn step_spec(
    config: IptvConfig,
    phase: PhaseModel,
    event: LoginEvent,
    nonce: nat,
    next: PhaseModel,
    r: LoginAction,
) -> bool {
    match (phase, event) {
        (_, LoginEvent::Failed(e)) => next == PhaseModel::Failed && r == LoginAction::Abort(e),
        (PhaseModel::Discovering, LoginEvent::Discovered(u)) => match base_url_of(u@) {
            Some(b) => next == PhaseModel::Authorizing(b) && sends(r, b + authorize_path(), authorize_query(config.user@)),
            None => next == PhaseModel::Failed && (r matches LoginAction::Abort(IptvError::Parse(t)) && t@ == u@),
        },
        (PhaseModel::Authorizing(b), LoginEvent::TokenIssued(t)) => next == PhaseModel::Exchanging(b) && sends(
            r,
            b + token_path(),
            token_query(
                config.user@,
                auth_blob(nonce, config.passwd@, t@, config.user@, imei_of(config), ip_of(config), config.mac@),
            ),
        ),
        (PhaseModel::Exchanging(b), LoginEvent::Granted) => next == PhaseModel::Established(b) && (r
            matches LoginAction::Complete(s) && s@ == b),
        _ => next == PhaseModel::Failed && (r matches LoginAction::Abort(IptvError::Decode(_))),
    }
}

impl Handshake {
    /// A new handshake and its first request, to the discovery endpoint.
    pub fn start(config: IptvConfig) -> (r: (Handshake, Request))
        ensures
            r.0.phase@ == PhaseModel::Discovering,
            r.0.config == config,
            r.1.url@ == discovery_url(),
            query_view(r.1.query@) == seq![("Action"@, "Login"@), ("return_type"@, "1"@), ("UserID"@, config.user@)],
    {
        let req = discovery_request(config.user.as_str());
        (Handshake { phase: LoginPhase::Discovering, config }, req)
    }

    /// Advances the handshake on `event`, with `nonce` in the authentication
    /// blob. An event that does not fit the phase fails the handshake.
    pub fn step_with_nonce(&mut self, event: LoginEvent, nonce: u32) -> (r: LoginAction)
        ensures
            final(self).config == old(self).config,
            step_spec(old(self).config, old(self).phase@, event, nonce as nat, final(self).phase@, r),
    {
        let mut phase = LoginPhase::Failed;
        std::mem::swap(&mut self.phase, &mut phase);
        match (phase, event) {
            (_, LoginEvent::Failed(e)) => LoginAction::Abort(e),
            (LoginPhase::Discovering, LoginEvent::Discovered(u)) => match base_url_from_epgurl(u.as_str()) {
                Ok(b) => {
                    let req = authorize_request(b.as_str(), self.config.user.as_str());
                    self.phase = LoginPhase::Authorizing(b);
                    LoginAction::Send(req)
                },
                Err(e) => LoginAction::Abort(e),
            },
            (LoginPhase::Authorizing(b), LoginEvent::TokenIssued(t)) => {
                let c = &self.config;
                let auth = encode_auth_with_nonce(
                    nonce,
                    c.passwd.as_str(),
                    t.as_str(),
                    c.user.as_str(),
                    c.imei_or_default(),
                    c.ip_or_default(),
                    c.mac.as_str(),
                );
                let req = token_request(b.as_str(), c.user.as_str(), auth.as_str());
                self.phase = LoginPhase::Exchanging(b);
                LoginAction::Send(req)
            },
            (LoginPhase::Exchanging(b), LoginEvent::Granted) => {
                let done = b.clone();
                self.phase = LoginPhase::Established(b);
                LoginAction::Complete(done)
            },
            _ => LoginAction::Abort(IptvError::Decode("unexpected handshake reply".to_owned())),
        }
    }

    /// Advances the handshake on `event`, with a fresh nonce.
    pub fn step(&mut self, event: LoginEvent) -> (r: LoginAction)
        ensures
            final(self).config == old(self).config,
            exists|n: nat| n < 10_000_000 && #[trigger] step_spec(old(self).config, old(self).phase@, event, n, final(self).phase@, r),
    {
        let n = crate::crypto::draw_nonce();
        let r = self.step_with_nonce(event, n);
        assert(step_spec(old(self).config, old(self).phase@, event, n as nat, self.phase@, r));
        r
    }
}

/// How long an established session is reused: thirty minutes.
pub const SESSION_TTL_MS: u64 = 1_800_000;

/// An established session: the transport handle, the backend's base URL and
/// when it was established, in milliseconds of a monotonic clock.
pub struct Session<H> {
    pub handle: H,
    pub base_url: String,
    pub created_ms: u64,
}

/// The process-wide session slot.
pub struct SessionCache<H> {
    pub current: Option<Session<H>>,
}

/// The session that a lookup at `now_ms` reuses: the cached one while it is
/// younger than the TTL.
pub open spec fn reusable<H>(cache: SessionCache<H>, now_ms: u64) -> Option<Session<H>> {
    match cache.current {
        Some(s) => if (now_ms as int) < s.created_ms + SESSION_TTL_MS { Some(s) } else { None },
        None => None,
    }
}

impl<H> SessionCache<H> {
    /// An empty cache: the first caller logs in.
    pub fn new() -> (r: SessionCache<H>)
        ensures
            r.current is None,
    {
        SessionCache { current: None }
    }

    /// The cached session, if it may still be used at `now_ms`.
    pub fn lookup(&self, now_ms: u64) -> (r: Option<&Session<H>>)
        ensures
            match r {
                Some(s) => reusable(*self, now_ms) == Some(*s),
                None => reusable(*self, now_ms) is None,
            },
    {
        match &self.current {
            Some(s) => if now_ms < s.created_ms || now_ms - s.created_ms < SESSION_TTL_MS {
                Some(s)
            } else {
                None
            },
            None => None,
        }
    }

    /// Replaces the cached session with one established at `now_ms`.
    pub fn store(&mut self, handle: H, base_url: String, now_ms: u64)
        ensures
            final(self).current == Some(Session { handle, base_url, created_ms: now_ms }),
    {
        self.current = Some(Session { handle, base_url, created_ms: now_ms });
    }
}

/// A session stored at `t0` is reused, unchanged, by every lookup before the
/// TTL has elapsed, and by none after it: those start a new handshake.
pub proof fn lemma_session_reuse<H>(handle: H, base_url: String, t0: u64, t1: u64, t2: u64, t3: u64)
    requires
        t0 <= t1 < t0 + SESSION_TTL_MS,
        t0 <= t2 < t0 + SESSION_TTL_MS,
        t3 >= t0 + SESSION_TTL_MS,
    ensures
        ({
            let c = SessionCache { current: Some(Session { handle, base_url, created_ms: t0 }) };
            &&& reusable(c, t1) == Some(Session { handle, base_url, created_ms: t0 })
            &&& reusable(c, t1) == reusable(c, t2)
            &&& reusable(c, t3) is None
        }),
{
}

} // verus!
