//! Replay protection: each nonce is accepted once while it is remembered.

use vstd::prelude::*;
use vstd::string::*;
use vstd::utf8::*;

use crate::clock::current_timestamp;
use crate::headers::{header_text, header_text_of};
use crate::text::{parse_unsigned, unsigned_value};

verus! {

/// Nonces remembered where nothing is configured.
pub const DEFAULT_CACHE_SIZE: usize = 10_000;

/// Seconds for which a nonce is remembered where nothing is configured.
pub const DEFAULT_NONCE_TTL_SECS: u64 = 3_600;

/// How nonces are remembered.
#[derive(Clone, Copy, Debug, PartialEq, Eq, Structural)]
pub struct ReplayProtectionConfig {
    /// Whether requests need a nonce at all.
    pub enabled: bool,
    /// How many nonces are remembered at most.
    pub cache_size: usize,
    /// For how many seconds a nonce is remembered.
    pub nonce_ttl_secs: u64,
}

/// Whether a text is the word "true" in any case.
pub open spec fn says_true(text: Seq<char>) -> bool {
    &&& text.len() == 4
    &&& text[0] == 't' || text[0] == 'T'
    &&& text[1] == 'r' || text[1] == 'R'
    &&& text[2] == 'u' || text[2] == 'U'
    &&& text[3] == 'e' || text[3] == 'E'
}

/// What a variable says, if it is set.
pub open spec fn said(var: Option<String>) -> Option<Seq<char>> {
    match var {
        Some(text) => Some(text@),
        None => None,
    }
}

/// The number of at most `max` that a variable gives, `default` if it gives none.
pub open spec fn number_or(var: Option<Seq<char>>, max: nat, default: nat) -> nat {
    match var {
        Some(text) => match unsigned_value(text, max) {
            Some(n) => n,
            None => default,
        },
        None => default,
    }
}

fn is_true(text: &str) -> (yes: bool)
    ensures
        yes == says_true(text@),
{
    broadcast use is_ascii_spec_bytes;

    let bytes = text.as_bytes();
    if !text.is_ascii() {
        proof {
            if says_true(text@) {
                assert forall|i: int| 0 <= i < text@.len() implies '\0' <= #[trigger] text@[i]
                    <= '\u{7f}' by {
                    if i == 0 {
                    } else if i == 1 {
                    } else if i == 2 {
                    } else {
                        assert(i == 3);
                    }
                }
                assert(is_ascii_chars(text@));
            }
        }
        return false;
    }
    if bytes.len() != 4 {
        return false;
    }
    (bytes[0] == 116 || bytes[0] == 84) && (bytes[1] == 114 || bytes[1] == 82) && (bytes[2] == 117
        || bytes[2] == 85) && (bytes[3] == 101 || bytes[3] == 69)
}

fn read_number(var: &Option<String>, max: u64, default: u64) -> (n: u64)
    requires
        default <= max,
    ensures
        n == number_or(said(*var), max as nat, default as nat),
        n <= max,
{
    match var {
        Some(text) => match parse_unsigned(text.as_str(), max) {
            Some(n) => n,
            None => default,
        },
        None => default,
    }
}

impl ReplayProtectionConfig {
    /// Reads the configuration out of the environment: protection is enabled if
    /// `ROUTER_REPLAY_PROTECTION_ENABLED` says so, and `ROUTER_NONCE_CACHE_SIZE`
    /// and `ROUTER_NONCE_TTL_SECS` that are no numbers have their defaults.
    pub fn from_env(
        enabled: &Option<String>,
        cache_size: &Option<String>,
        nonce_ttl_secs: &Option<String>,
    ) -> (config: Self)
        ensures
            config.enabled == (said(*enabled) is Some && says_true(said(*enabled)->0)),
            config.cache_size == number_or(
                said(*cache_size),
                usize::MAX as nat,
                DEFAULT_CACHE_SIZE as nat,
            ),
            config.nonce_ttl_secs == number_or(
                said(*nonce_ttl_secs),
                u64::MAX as nat,
                DEFAULT_NONCE_TTL_SECS as nat,
            ),
            protection_of(said(*enabled), said(*cache_size), said(*nonce_ttl_secs)) == (
                config.enabled,
                config.cache_size as nat,
                config.nonce_ttl_secs as nat,
            ),
    {
        let on = match enabled {
            Some(text) => is_true(text.as_str()),
            None => false,
        };
        let size: u64 = read_number(cache_size, usize::MAX as u64, DEFAULT_CACHE_SIZE as u64);
        let ttl: u64 = read_number(nonce_ttl_secs, u64::MAX, DEFAULT_NONCE_TTL_SECS);
        ReplayProtectionConfig { enabled: on, cache_size: size as usize, nonce_ttl_secs: ttl }
    }
}

/// The nonces that a map holds, each with the second at which it came.
pub uninterp spec fn nonces_held(map: dashmap::DashMap<String, u64>) -> Map<Seq<char>, u64>;

/// No nonces.
pub open spec fn no_nonces() -> Map<Seq<char>, u64> {
    Map::empty()
}

/// How old a nonce is, zero if it came later than `now`.
pub open spec fn age(now: u64, stamp: u64) -> nat {
    if now >= stamp {
        (now - stamp) as nat
    } else {
        0
    }
}

/// The nonces that are remembered at the time `now`.
pub open spec fn remembered(nonces: Map<Seq<char>, u64>, now: u64, ttl: u64) -> Map<Seq<char>, u64> {
    nonces.restrict(Set::new(|nonce: Seq<char>| age(now, nonces[nonce]) < ttl))
}

/// What a request with this nonce is answered at the time `now`, and the nonces
/// after it.
pub open spec fn screen_step(
    nonces: Map<Seq<char>, u64>,
    config: ReplayProtectionConfig,
    nonce: Option<Seq<char>>,
    now: u64,
) -> (Result<(), ReplayError>, Map<Seq<char>, u64>) {
    if !config.enabled {
        (Ok(()), nonces)
    } else {
        match nonce {
            None => (Err(ReplayError::MissingNonce), nonces),
            Some(nonce) => {
                let (accepted, after) = nonce_step(nonces, config, nonce, now);
                (
                    if accepted {
                        Ok(())
                    } else {
                        Err(ReplayError::DuplicateNonce)
                    },
                    after,
                )
            },
        }
    }
}

/// What the environment asks of replay protection: whether it is on, how many
/// nonces are remembered, and for how many seconds.
pub open spec fn protection_of(
    enabled: Option<Seq<char>>,
    cache_size: Option<Seq<char>>,
    nonce_ttl_secs: Option<Seq<char>>,
) -> (bool, nat, nat) {
    (
        match enabled {
            Some(text) => says_true(text),
            None => false,
        },
        number_or(cache_size, usize::MAX as nat, DEFAULT_CACHE_SIZE as nat),
        number_or(nonce_ttl_secs, u64::MAX as nat, DEFAULT_NONCE_TTL_SECS as nat),
    )
}

/// Whether a nonce that came at `stamp` is remembered at the time `now`.
fn is_remembered(now: u64, stamp: u64, ttl: u64) -> (kept: bool)
    ensures
        kept == (age(now, stamp) < ttl),
{
    if now >= stamp {
        now - stamp < ttl
    } else {
        ttl > 0
    }
}

/// Calls `DashMap::new`: a map without entries.
#[verifier::external_body]
fn new_nonces() -> (nonces: dashmap::DashMap<String, u64>)
    ensures
        nonces_held(nonces) == no_nonces(),
{
    dashmap::DashMap::new()
}

/// Calls `DashMap::contains_key`.
#[verifier::external_body]
fn has_nonce(map: &dashmap::DashMap<String, u64>, nonce: &str) -> (found: bool)
    ensures
        found == nonces_held(*map).contains_key(nonce@),
{
    map.contains_key(nonce)
}

/// Calls `DashMap::len`: the number of entries.
#[verifier::external_body]
fn count_nonces(map: &dashmap::DashMap<String, u64>) -> (count: usize)
    ensures
        count == nonces_held(*map).len(),
{
    map.len()
}

/// Calls `DashMap::insert`: the entry under the nonce is the one given, and no
/// other entry changes.
#[verifier::external_body]
fn put_nonce(map: &mut dashmap::DashMap<String, u64>, nonce: &str, stamp: u64)
    ensures
        nonces_held(*final(map)) == nonces_held(*old(map)).insert(nonce@, stamp),
{
    map.insert(nonce.to_string(), stamp);
}

/// Calls `DashMap::retain`: the entries for which the function returns true stay
/// as they are, and the others go.
#[verifier::external_body]
fn retain_nonces(map: &mut dashmap::DashMap<String, u64>, now: u64, ttl: u64)
    ensures
        nonces_held(*final(map)) == remembered(nonces_held(*old(map)), now, ttl),
{
    map.retain(|_, stamp| is_remembered(now, *stamp, ttl));
}

/// What a cache does with a nonce at the time `now`: whether it accepts it, and
/// what it remembers then. A nonce that is remembered is refused, and so is any
/// while there is no room.
pub open spec fn nonce_step(
    nonces: Map<Seq<char>, u64>,
    config: ReplayProtectionConfig,
    nonce: Seq<char>,
    now: u64,
) -> (bool, Map<Seq<char>, u64>) {
    let kept = remembered(nonces, now, config.nonce_ttl_secs);
    if kept.contains_key(nonce) || kept.len() >= config.cache_size {
        (false, kept)
    } else {
        (true, kept.insert(nonce, now))
    }
}

/// Remembers nonces.
pub struct NonceCache {
    cache: dashmap::DashMap<String, u64>,
    config: ReplayProtectionConfig,
}

/// Why a request is refused.
#[derive(Clone, Copy, Debug, PartialEq, Eq, Structural)]
pub enum ReplayError {
    /// The request has no nonce.
    MissingNonce,
    /// The nonce has been used, or there is no room for it.
    DuplicateNonce,
}

impl ReplayError {
    /// The HTTP status.
    pub open spec fn code(self) -> u16 {
        match self {
            ReplayError::MissingNonce => 400,
            ReplayError::DuplicateNonce => 409,
        }
    }

    /// The body of the response.
    pub open spec fn words(self) -> Seq<char> {
        match self {
            ReplayError::MissingNonce => "Missing X-Nonce header"@,
            ReplayError::DuplicateNonce => "Duplicate nonce detected (replay attack)"@,
        }
    }

    /// The HTTP status and the body of the response.
    pub fn response(&self) -> (response: (u16, &'static str))
        ensures
            response.0 == self.code(),
            response.1@ == self.words(),
    {
        match self {
            ReplayError::MissingNonce => (400, "Missing X-Nonce header"),
            ReplayError::DuplicateNonce => (409, "Duplicate nonce detected (replay attack)"),
        }
    }
}

/// Reads the nonce of a request: its `X-Nonce` header.
pub fn extract_nonce(headers: &axum::http::HeaderMap) -> (nonce: Option<String>)
    ensures
        match nonce {
            Some(n) => header_text_of(*headers, "x-nonce"@) == Some(n@),
            None => header_text_of(*headers, "x-nonce"@) is None,
        },
{
    proof {
        reveal_strlit("x-nonce");
    }
    header_text(headers, "x-nonce")
}

impl NonceCache {
    /// The nonces inside, each with the second at which it came.
    pub closed spec fn nonces(&self) -> Map<Seq<char>, u64> {
        nonces_held(self.cache)
    }

    /// How nonces are remembered.
    pub closed spec fn settings(&self) -> ReplayProtectionConfig {
        self.config
    }

    /// A cache that has seen no nonce.
    pub fn new(config: ReplayProtectionConfig) -> (cache: Self)
        ensures
            cache.nonces() == no_nonces(),
            cache.settings() == config,
    {
        NonceCache { cache: new_nonces(), config }
    }

    /// Forgets the nonces that are too old at the time `now`.
    fn cleanup_expired(&mut self, now: u64)
        ensures
            final(self).nonces() == remembered(
                old(self).nonces(),
                now,
                old(self).settings().nonce_ttl_secs,
            ),
            final(self).settings() == old(self).settings(),
    {
        retain_nonces(&mut self.cache, now, self.config.nonce_ttl_secs);
    }

    /// Takes a nonce at the time `now`, in seconds, and says whether it is
    /// accepted.
    pub fn check_and_add_at(&mut self, nonce: &str, now: u64) -> (accepted: bool)
        ensures
            (accepted, final(self).nonces()) == nonce_step(
                old(self).nonces(),
                old(self).settings(),
                nonce@,
                now,
            ),
            final(self).settings() == old(self).settings(),
    {
        self.cleanup_expired(now);
        if has_nonce(&self.cache, nonce) {
            return false;
        }
        if count_nonces(&self.cache) >= self.config.cache_size {
            return false;
        }
        put_nonce(&mut self.cache, nonce, now);
        true
    }

    /// Takes a nonce now, and says whether it is accepted.
    pub fn check_and_add(&mut self, nonce: &str) -> (accepted: bool)
        ensures
            exists|now: u64|
                (accepted, final(self).nonces()) == #[trigger] nonce_step(
                    old(self).nonces(),
                    old(self).settings(),
                    nonce@,
                    now,
                ),
            final(self).settings() == old(self).settings(),
    {
        let now: u64 = current_timestamp();
        self.check_and_add_at(nonce, now)
    }

    /// Takes a request at the time `now`. Without protection every request is let
    /// through, and nothing is remembered.
    pub fn screen_at(&mut self, headers: &axum::http::HeaderMap, now: u64) -> (result: Result<
        (),
        ReplayError,
    >)
        ensures
            final(self).settings() == old(self).settings(),
            ({
                let nonce = header_text_of(*headers, "x-nonce"@);
                let after = nonce_step(old(self).nonces(), old(self).settings(), nonce->0, now);
                if !old(self).settings().enabled {
                    result is Ok && final(self).nonces() == old(self).nonces()
                } else if nonce is None {
                    result == Err::<(), ReplayError>(ReplayError::MissingNonce)
                        && final(self).nonces() == old(self).nonces()
                } else {
                    final(self).nonces() == after.1 && result == if after.0 {
                        Ok::<(), ReplayError>(())
                    } else {
                        Err::<(), ReplayError>(ReplayError::DuplicateNonce)
                    }
                }
            }),
            (result, final(self).nonces()) == screen_step(
                old(self).nonces(),
                old(self).settings(),
                header_text_of(*headers, "x-nonce"@),
                now,
            ),
    {
        if !self.config.enabled {
            return Ok(());
        }
        match extract_nonce(headers) {
            None => Err(ReplayError::MissingNonce),
            Some(nonce) => if self.check_and_add_at(nonce.as_str(), now) {
                Ok(())
            } else {
                Err(ReplayError::DuplicateNonce)
            },
        }
    }

    /// Takes a request now.
    pub fn screen(&mut self, headers: &axum::http::HeaderMap) -> (result: Result<(), ReplayError>)
        ensures
            final(self).settings() == old(self).settings(),
            !old(self).settings().enabled ==> result is Ok && final(self).nonces() == old(
                self,
            ).nonces(),
            old(self).settings().enabled && header_text_of(*headers, "x-nonce"@) is None ==> result
                == Err::<(), ReplayError>(ReplayError::MissingNonce) && final(self).nonces()
                == old(self).nonces(),
            old(self).settings().enabled && header_text_of(*headers, "x-nonce"@) is Some ==> exists|
                now: u64,
            |
                (result is Ok, final(self).nonces()) == #[trigger] nonce_step(
                    old(self).nonces(),
                    old(self).settings(),
                    header_text_of(*headers, "x-nonce"@)->0,
                    now,
                ) && (result matches Err(e) ==> e == ReplayError::DuplicateNonce),
    {
        let now: u64 = current_timestamp();
        self.screen_at(headers, now)
    }
}

// ── What holds of caches ────────────────────────────────────────────────────

/// A nonce that was accepted is refused for as long as it is remembered.
pub proof fn accepted_once(
    nonces: Map<Seq<char>, u64>,
    config: ReplayProtectionConfig,
    nonce: Seq<char>,
    first: u64,
    again: u64,
)
    requires
        nonce_step(nonces, config, nonce, first).0,
        age(again, first) < config.nonce_ttl_secs,
    ensures
        !nonce_step(nonce_step(nonces, config, nonce, first).1, config, nonce, again).0,
{
}

/// A nonce that is remembered stays remembered, with its own time, whatever other
/// requests come before it is too old. With `accepted_once`, no nonce is
/// accepted twice within its time.
pub proof fn nonces_stay_remembered(
    nonces: Map<Seq<char>, u64>,
    config: ReplayProtectionConfig,
    nonce: Seq<char>,
    other: Seq<char>,
    now: u64,
)
    requires
        nonces.contains_key(nonce),
        age(now, nonces[nonce]) < config.nonce_ttl_secs,
    ensures
        nonce_step(nonces, config, other, now).1.contains_key(nonce),
        nonce_step(nonces, config, other, now).1[nonce] == nonces[nonce],
        !nonce_step(nonces, config, nonce, now).0,
{
}

/// A nonce that is too old may be used again, if there is room.
pub proof fn old_nonces_are_forgotten(
    nonces: Map<Seq<char>, u64>,
    config: ReplayProtectionConfig,
    nonce: Seq<char>,
    now: u64,
)
    requires
        nonces.contains_key(nonce) ==> age(now, nonces[nonce]) >= config.nonce_ttl_secs,
        remembered(nonces, now, config.nonce_ttl_secs).len() < config.cache_size,
    ensures
        nonce_step(nonces, config, nonce, now).0,
        nonce_step(nonces, config, nonce, now).1.contains_key(nonce),
        nonce_step(nonces, config, nonce, now).1[nonce] == now,
{
}

/// A cache never remembers more nonces than it has room for.
pub proof fn caches_do_not_overflow(
    nonces: Map<Seq<char>, u64>,
    config: ReplayProtectionConfig,
    nonce: Seq<char>,
    now: u64,
)
    requires
        nonces.dom().finite(),
        nonces.len() <= config.cache_size,
    ensures
        nonce_step(nonces, config, nonce, now).1.dom().finite(),
        nonce_step(nonces, config, nonce, now).1.len() <= config.cache_size,
{
    let kept = remembered(nonces, now, config.nonce_ttl_secs);
    assert(kept.dom() =~= nonces.dom().filter(
        |n: Seq<char>| age(now, nonces[n]) < config.nonce_ttl_secs,
    ));
    nonces.dom().lemma_len_filter(|n: Seq<char>| age(now, nonces[n]) < config.nonce_ttl_secs);
}

} // verus!
