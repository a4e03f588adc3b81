//! The credential lifecycle: caching the short-lived bearer token and
//! deciding when a refresh call must be made.
//!
//! The store itself never talks to the network. Each `get_token` round is
//! two steps: `token_action` decides, from the cache and the clock, either
//! to hand out the cached token or to demand exactly one refresh call;
//! when a refresh was demanded, `absorb_auth_reply` takes the
//! authorization endpoint's decoded reply, stores the fetched token with
//! the current timestamp, and hands it out. The caller performs the call
//! between the two steps.

use crate::errors::CredentialError;
use crate::json::{spec_lookup, JsonVal};
use crate::response::Response;
use crate::strutil::spec_opt_view;
use vstd::prelude::*;

verus! {

/// Seconds a fetched token stays valid: 24 hours.
pub const TOKEN_TTL_SECS: u64 = 86400;

/// One cached credential: the bearer token and the whole-second timestamp
/// at which it was stored.
#[derive(Debug, Clone)]
pub struct Credential {
    pub token: String,
    pub issued_at: u64,
}

/// The store's state, as contracts see it: the configured secrets and the
/// cached token with its timestamp.
pub struct StoreModel {
    pub client_id: Option<Seq<char>>,
    pub client_secret: Option<Seq<char>>,
    pub cached: Option<(Seq<char>, u64)>,
}

/// What one `get_token` round must do.
pub enum TokenDecision {
    /// A secret is missing: fail, calling nothing.
    MissingConfig,
    /// The cache is fresh: hand out the cached token, calling nothing.
    UseCached(Seq<char>),
    /// Stale or absent: one refresh call must be made.
    Refresh,
}

/// A cached credential is fresh while no more than the TTL has passed
/// since it was stored.
pub open spec fn spec_fresh(cached: Option<(Seq<char>, u64)>, now: u64) -> bool {
    match cached {
        Some(c) => c.1 <= now && now - c.1 <= TOKEN_TTL_SECS,
        None => false,
    }
}

/// The decision of one round.
pub open spec fn spec_decide(m: StoreModel, now: u64) -> TokenDecision {
    if m.client_id is None || m.client_secret is None {
        TokenDecision::MissingConfig
    } else if spec_fresh(m.cached, now) {
        TokenDecision::UseCached(m.cached->Some_0.0)
    } else {
        TokenDecision::Refresh
    }
}

/// Storing a fetched token overwrites the cache with it, stamped `now`.
pub open spec fn spec_store(m: StoreModel, token: Seq<char>, now: u64) -> StoreModel {
    StoreModel { cached: Some((token, now)), ..m }
}

/// The cache never holds a timestamp from the future; a caller that found
/// one would have corrupted the store, which this crate treats as a bug,
/// not as an input.
pub open spec fn spec_store_wf(m: StoreModel, now: u64) -> bool {
    match m.cached {
        Some(c) => c.1 <= now,
        None => true,
    }
}

/// What the authorization endpoint's decoded reply amounts to.
pub enum AuthOutcome {
    /// The endpoint rejected the refresh: its `error` and
    /// `error_description` fields, each as its string content where it is
    /// a string and empty otherwise.
    Rejected(Seq<char>, Seq<char>),
    /// The fetched token, from the `access_token` string field.
    Token(Seq<char>),
    /// No `error` field, yet no `access_token` string either.
    Malformed,
}

/// The string content of a field, empty where absent or not a string.
pub open spec fn spec_field_str(v: JsonVal, key: Seq<char>) -> Seq<char> {
    match spec_lookup(v, key) {
        Some(f) => match f {
            JsonVal::Str(s) => s@,
            _ => Seq::empty(),
        },
        None => Seq::empty(),
    }
}

/// Classifying the authorization endpoint's reply: an `error` field wins;
/// otherwise the token is the `access_token` string.
pub open spec fn spec_auth_outcome(v: JsonVal) -> AuthOutcome {
    if spec_lookup(v, "error"@) is Some {
        AuthOutcome::Rejected(spec_field_str(v, "error"@), spec_field_str(v, "error_description"@))
    } else {
        match spec_lookup(v, "access_token"@) {
            Some(t) => match t {
                JsonVal::Str(s) => AuthOutcome::Token(s@),
                _ => AuthOutcome::Malformed,
            },
            None => AuthOutcome::Malformed,
        }
    }
}

/// What `get_token` consults: the two configured secrets and the cache.
#[derive(Debug)]
pub struct CredentialStore {
    client_id: Option<String>,
    client_secret: Option<String>,
    cached: Option<Credential>,
}

impl CredentialStore {
    /// The store's state.
    pub closed spec fn model(&self) -> StoreModel {
        StoreModel {
            client_id: spec_opt_view(self.client_id),
            client_secret: spec_opt_view(self.client_secret),
            cached: match self.cached {
                Some(c) => Some((c.token@, c.issued_at)),
                None => None,
            },
        }
    }

    /// A store with the given configuration and an empty cache.
    pub fn new(client_id: Option<String>, client_secret: Option<String>) -> (r: Self)
        ensures
            r.model() == (StoreModel {
                client_id: spec_opt_view(client_id),
                client_secret: spec_opt_view(client_secret),
                cached: None,
            }),
    {
        CredentialStore { client_id, client_secret, cached: None }
    }

    /// A store with the given configuration and a cached credential.
    pub fn with_cached(
        client_id: Option<String>,
        client_secret: Option<String>,
        cached: Option<Credential>,
    ) -> (r: Self)
        ensures
            r.model() == (StoreModel {
                client_id: spec_opt_view(client_id),
                client_secret: spec_opt_view(client_secret),
                cached: match cached {
                    Some(c) => Some((c.token@, c.issued_at)),
                    None => None,
                },
            }),
    {
        CredentialStore { client_id, client_secret, cached }
    }

    /// Decide this round: hand out the fresh cached token, demand exactly
    /// one refresh call, or fail for want of configuration.
    pub fn token_action(&self, now: u64) -> (r: Result<TokenAction, CredentialError>)
        requires
            spec_store_wf(self.model(), now),
        ensures
            match spec_decide(self.model(), now) {
                TokenDecision::MissingConfig => r matches Err(e) && e is MissingConfig,
                TokenDecision::UseCached(t) => r matches Ok(a) && a matches TokenAction::UseCached(
                    tok,
                ) && tok@ == t,
                TokenDecision::Refresh => r matches Ok(a) && a matches TokenAction::Refresh {
                    client_id,
                    client_secret,
                } && Some(client_id@) == self.model().client_id && Some(client_secret@)
                    == self.model().client_secret,
            },
    {
        match (&self.client_id, &self.client_secret) {
            (Some(id), Some(secret)) => {
                match &self.cached {
                    Some(c) => {
                        if now - c.issued_at <= TOKEN_TTL_SECS {
                            return Ok(TokenAction::UseCached(c.token.clone()));
                        }
                    },
                    None => {},
                }
                Ok(
                    TokenAction::Refresh {
                        client_id: id.clone(),
                        client_secret: secret.clone(),
                    },
                )
            },
            _ => Err(CredentialError::MissingConfig),
        }
    }

    /// Overwrite the cache with a just-fetched token, stamped `now`.
    pub fn store_refreshed(&mut self, token: String, now: u64)
        ensures
            final(self).model() == spec_store(old(self).model(), token@, now),
    {
        self.cached = Some(Credential { token, issued_at: now });
    }

    /// Absorb the authorization endpoint's decoded reply: a rejection is
    /// surfaced and leaves the cache alone; a token is stored, stamped
    /// `now`, and handed out.
    pub fn absorb_auth_reply(&mut self, reply: &Response, now: u64) -> (r: Result<
        String,
        CredentialError,
    >)
        ensures
            match spec_auth_outcome(reply.raw()) {
                AuthOutcome::Rejected(c, d) => {
                    &&& r matches Err(e) && e matches CredentialError::RemoteRejected {
                        code,
                        description,
                    } && code@ == c && description@ == d
                    &&& final(self).model() == old(self).model()
                },
                AuthOutcome::Token(t) => {
                    &&& r matches Ok(tok) && tok@ == t
                    &&& final(self).model() == spec_store(old(self).model(), t, now)
                },
                AuthOutcome::Malformed => {
                    &&& r matches Err(e) && e matches CredentialError::Transport(m) && m@
                        == "authorization reply carries no access_token"@
                    &&& final(self).model() == old(self).model()
                },
            },
    {
        if reply.get("error").is_some() {
            let code = field_str_or_empty(reply, "error");
            let description = field_str_or_empty(reply, "error_description");
            return Err(CredentialError::RemoteRejected { code, description });
        }
        let token: Option<String> = match reply.get("access_token") {
            Some(v) => match v {
                JsonVal::Str(s) => Some(s.clone()),
                _ => None,
            },
            None => None,
        };
        match token {
            Some(t) => {
                self.store_refreshed(t.clone(), now);
                Ok(t)
            },
            None => Err(
                CredentialError::Transport(
                    String::from_str("authorization reply carries no access_token"),
                ),
            ),
        }
    }
}

/// What one `get_token` round asks its caller to do.
#[derive(Debug)]
pub enum TokenAction {
    /// The cached token is still fresh: use it; no refresh call is made.
    UseCached(String),
    /// Stale or absent cache: make one refresh call with these secrets
    /// (`grant_type=client_credentials`), then absorb the reply.
    Refresh { client_id: String, client_secret: String },
}

/// The string content of a field of the reply, empty where absent or not
/// a string.
fn field_str_or_empty(reply: &Response, key: &str) -> (r: String)
    ensures
        r@ == spec_field_str(reply.raw(), key@),
{
    match reply.get(key) {
        Some(v) => match v {
            JsonVal::Str(s) => s.clone(),
            _ => String::new(),
        },
        None => String::new(),
    }
}

/// A fresh cache short-circuits: the round hands out the cached token and
/// demands no refresh call.
pub proof fn lemma_fresh_cache_no_refresh(m: StoreModel, now: u64)
    requires
        m.client_id is Some,
        m.client_secret is Some,
        spec_fresh(m.cached, now),
    ensures
        spec_decide(m, now) == TokenDecision::UseCached(m.cached->Some_0.0),
{
}

/// A stale or absent cache demands exactly one refresh call, and the
/// token it fetches is what the round hands out and what the store then
/// holds.
pub proof fn lemma_stale_cache_refreshes(m: StoreModel, now: u64, tok: Seq<char>)
    requires
        m.client_id is Some,
        m.client_secret is Some,
        !spec_fresh(m.cached, now),
    ensures
        spec_decide(m, now) == TokenDecision::Refresh,
        spec_store(m, tok, now).cached == Some((tok, now)),
        spec_decide(spec_store(m, tok, now), now) == TokenDecision::UseCached(tok),
{
}

/// The store never hands out a definitely-expired token: a round only
/// answers `UseCached` while the cached credential is within its TTL.
pub proof fn lemma_no_expired_token(m: StoreModel, now: u64)
    requires
        spec_decide(m, now) is UseCached,
    ensures
        spec_fresh(m.cached, now),
{
}

/// Two rounds in immediate succession on an empty cache refresh once: the
/// first round fetches and stores a token, the second hands the same
/// token straight back for as long as the TTL runs.
pub proof fn lemma_refresh_once_then_cached(m: StoreModel, tok: Seq<char>, now: u64, now2: u64)
    requires
        m.client_id is Some,
        m.client_secret is Some,
        m.cached is None,
        now <= now2,
        now2 - now <= TOKEN_TTL_SECS,
    ensures
        spec_decide(m, now) == TokenDecision::Refresh,
        spec_decide(spec_store(m, tok, now), now2) == TokenDecision::UseCached(tok),
{
}

} // verus!
