//! What rate limiting and replay protection do with a request, and what they are
//! told by the environment.

use vstd::prelude::*;

use crate::headers::{header_text_of, headers_held, is_visible, visible_text};
use crate::rate_limit::{configured, key_of, LimiterView, RateConfigError, RateVariable, Rejection};
use crate::rate_limit::{limits_of, screened, EnvVar, DEFAULT_MAX_REQUESTS, DEFAULT_WINDOW_SECS};
use crate::replay_protection::{
    nonce_step, number_or, protection_of, remembered, said, says_true, screen_step,
};
use crate::replay_protection::{
    ReplayError, ReplayProtectionConfig, DEFAULT_CACHE_SIZE, DEFAULT_NONCE_TTL_SECS,
};
use crate::text::{decimal_text, unsigned_value};

verus! {

// ── Rate limiting ───────────────────────────────────────────────────────────

/// Whether the window that began at `start` goes on at `now`. A window that
/// begins later than now has not begun to run.
pub open spec fn goes_on(start: u128, now: u128, window: nat) -> bool {
    if start <= now {
        now - start < window
    } else {
        0 < window
    }
}

/// A request within the window of its key is let through exactly where fewer
/// than the maximum came before it, and is counted there, also where it is turned
/// away. The count stops at the largest number. No other key is touched.
pub proof fn what_a_request_in_a_window_does(s: LimiterView, key: Seq<char>, now: u128)
    requires
        s.buckets.contains_key(key),
        goes_on(s.buckets[key].1, now, s.window),
    ensures
        ({
            let (count, start) = s.buckets[key];
            let t = s.after(key, now);
            &&& s.admits(key, now) <==> count < s.max_requests
            &&& t.max_requests == s.max_requests
            &&& t.window == s.window
            &&& count < u32::MAX ==> t.buckets == s.buckets.insert(key, ((count + 1) as u32, start))
            &&& count == u32::MAX ==> t.buckets == s.buckets.insert(key, (count, start))
        }),
{
}

/// A request of a new key, or of one whose window is over, begins a window, of
/// which it is the first; it is let through unless the maximum is zero.
pub proof fn what_the_first_request_does(s: LimiterView, key: Seq<char>, now: u128)
    requires
        s.buckets.contains_key(key) ==> !goes_on(s.buckets[key].1, now, s.window),
    ensures
        ({
            let t = s.after(key, now);
            &&& s.admits(key, now) <==> s.max_requests > 0
            &&& t.max_requests == s.max_requests
            &&& t.window == s.window
            &&& t.buckets == s.buckets.insert(key, (1u32, now))
        }),
{
}

/// A key is told to wait for the whole seconds that are left of its window, and
/// for one where less than two are left, or none.
pub proof fn how_long_a_key_waits(s: LimiterView, key: Seq<char>, now: u128)
    ensures
        ({
            let secs = s.retry_after(key, now);
            &&& secs >= 1
            &&& !s.buckets.contains_key(key) ==> secs == 1
            &&& s.buckets.contains_key(key) ==> {
                let start = s.buckets[key].1;
                let left = s.window - (if start <= now {
                    now - start
                } else {
                    0
                });
                &&& left >= 2_000_000_000 ==> secs * 1_000_000_000 <= left < (secs + 1)
                    * 1_000_000_000
                &&& left < 2_000_000_000 ==> secs == 1
            }
        }),
{
}

/// A request is limited by its API key where it has one that is not empty, and by
/// its address otherwise.
pub proof fn what_limits_a_request(api_key: Option<Seq<char>>, ip: Seq<char>)
    ensures
        api_key is None ==> key_of(api_key, ip) == "ip:"@ + ip,
        api_key is Some && api_key->0.len() == 0 ==> key_of(api_key, ip) == "ip:"@ + ip,
        api_key is Some && api_key->0.len() > 0 ==> key_of(api_key, ip) == "api-key:"@ + api_key->0,
{
}

/// How a request is turned away: with the status 429, and with the seconds to
/// wait as a number, in the header and in words.
pub proof fn how_requests_are_turned_away(rejection: Rejection, secs: nat)
    requires
        rejection.is_for(secs),
    ensures
        rejection.status == 429,
        rejection.retry_after_secs == secs,
        rejection.retry_after@ == decimal_text(secs),
        rejection.error@ == "rate_limit_exceeded"@,
        rejection.message@ == "Too many requests. Retry after "@ + decimal_text(secs)
            + " second(s)."@,
{
}

/// A variable that is unset has its default, one that is no text, no number of
/// its range, or zero is refused for that, and any other is taken as it is.
pub proof fn how_limits_are_configured(
    var: EnvVar,
    name: RateVariable,
    max: nat,
    default: nat,
)
    ensures
        ({
            let n = configured(var, name, max, default);
            &&& var is Unset ==> n == Ok::<nat, RateConfigError>(default)
            &&& var is NotText ==> n == Err::<nat, RateConfigError>(
                RateConfigError::Unreadable(name),
            )
            &&& var matches EnvVar::Text(text) ==> {
                &&& unsigned_value(text@, max) is None ==> n == Err::<nat, RateConfigError>(
                    RateConfigError::NotAnInteger(name),
                )
                &&& unsigned_value(text@, max) == Some(0nat) ==> n == Err::<nat, RateConfigError>(
                    RateConfigError::Zero(name),
                )
                &&& unsigned_value(text@, max) is Some && unsigned_value(text@, max)->0 > 0 ==> n
                    == Ok::<nat, RateConfigError>(unsigned_value(text@, max)->0)
            }
        }),
        DEFAULT_MAX_REQUESTS == 60,
        DEFAULT_WINDOW_SECS == 60,
        RateVariable::MaxRequests.text() == "ROUTER_API_MAX_REQUESTS"@,
        RateVariable::WindowSecs.text() == "ROUTER_API_RATE_WINDOW_SECS"@,
        RateConfigError::Unreadable(name).words() == "failed to read "@ + name.text(),
        RateConfigError::NotAnInteger(name).words() == name.text() + " must be a positive integer"@,
        RateConfigError::Zero(name).words() == name.text() + " must be greater than 0"@,
{
}

/// A header has a text where every byte of its first value is a visible ASCII
/// character, a space or a tab; the text is then those bytes.
pub proof fn which_headers_have_a_text(headers: axum::http::HeaderMap, name: Seq<char>)
    ensures
        !headers_held(headers).contains_key(name) ==> header_text_of(headers, name) is None,
        headers_held(headers).contains_key(name) ==> {
            let value = headers_held(headers)[name];
            let plain = forall|i: int|
                0 <= i < value.len() ==> 32 <= #[trigger] value[i] <= 126 || value[i] == 9;
            &&& plain ==> {
                &&& header_text_of(headers, name) is Some
                &&& header_text_of(headers, name)->0.len() == value.len()
                &&& forall|i: int|
                    0 <= i < value.len() ==> #[trigger] header_text_of(headers, name)->0[i]
                        == value[i] as char
            }
            &&& !plain ==> header_text_of(headers, name) is None
        },
{
    if headers_held(headers).contains_key(name) {
        let value = headers_held(headers)[name];
        if visible_text(value) is Some {
            assert forall|i: int| 0 <= i < value.len() implies 32 <= #[trigger] value[i] <= 126
                || value[i] == 9 by {
                assert(is_visible(value[i]));
            }
        } else {
            let i = choose|i: int|
                0 <= i < value.len() && !is_visible(#[trigger] value[i]);
            assert(!(32 <= value[i] <= 126 || value[i] == 9));
        }
    }
}

// ── Replay protection ───────────────────────────────────────────────────────

/// Whether a nonce that came at `stamp` is younger than `ttl` seconds at `now`. One
/// that came later than now is as young as can be.
pub open spec fn is_young(stamp: u64, now: u64, ttl: u64) -> bool {
    if stamp <= now {
        now - stamp < ttl
    } else {
        0 < ttl
    }
}

/// What is remembered at a time is what has not grown too old, each with its own
/// time.
pub proof fn what_is_remembered(
    nonces: Map<Seq<char>, u64>,
    now: u64,
    ttl: u64,
    nonce: Seq<char>,
)
    ensures
        remembered(nonces, now, ttl).contains_key(nonce) <==> nonces.contains_key(nonce)
            && is_young(nonces[nonce], now, ttl),
        remembered(nonces, now, ttl).contains_key(nonce) ==> remembered(nonces, now, ttl)[nonce]
            == nonces[nonce],
{
}

/// A nonce is accepted exactly where it is not remembered and there is room for
/// one more. It is then remembered with the time. Nothing else changes but that
/// what has grown too old is forgotten.
pub proof fn what_a_nonce_does(
    nonces: Map<Seq<char>, u64>,
    config: ReplayProtectionConfig,
    nonce: Seq<char>,
    now: u64,
    other: Seq<char>,
)
    ensures
        ({
            let (accepted, after) = nonce_step(nonces, config, nonce, now);
            let ttl = config.nonce_ttl_secs;
            let known = nonces.contains_key(nonce) && is_young(nonces[nonce], now, ttl);
            let room = remembered(nonces, now, ttl).len() < config.cache_size;
            &&& accepted <==> !known && room
            &&& accepted ==> after.contains_key(nonce) && after[nonce] == now
            &&& !accepted ==> (after.contains_key(nonce) <==> known)
            &&& !accepted && known ==> after[nonce] == nonces[nonce]
            &&& other != nonce ==> {
                &&& after.contains_key(other) <==> nonces.contains_key(other) && is_young(
                    nonces[other],
                    now,
                    ttl,
                )
                &&& after.contains_key(other) ==> after[other] == nonces[other]
            }
        }),
{
}

/// What the environment says of nonces: protection is on where the word is
/// "true", in upper or lower case letters, and numbers that cannot be read have
/// their defaults.
pub proof fn how_protection_is_configured(text: Seq<char>, max: nat, default: nat)
    ensures
        says_true(text) <==> text.len() == 4 && forall|i: int|
            0 <= i < 4 ==> #[trigger] text[i] == "true"@[i] || text[i] == "TRUE"@[i],
        number_or(None, max, default) == default,
        unsigned_value(text, max) is None ==> number_or(Some(text), max, default) == default,
        unsigned_value(text, max) matches Some(n) ==> number_or(Some(text), max, default) == n,
        said(None) is None,
        DEFAULT_CACHE_SIZE == 10_000,
        DEFAULT_NONCE_TTL_SECS == 3_600,
{
    reveal_strlit("true");
    reveal_strlit("TRUE");
    if text.len() == 4 && forall|i: int|
        0 <= i < 4 ==> #[trigger] text[i] == "true"@[i] || text[i] == "TRUE"@[i] {
        assert(text[0] == "true"@[0] || text[0] == "TRUE"@[0]);
        assert(text[1] == "true"@[1] || text[1] == "TRUE"@[1]);
        assert(text[2] == "true"@[2] || text[2] == "TRUE"@[2]);
        assert(text[3] == "true"@[3] || text[3] == "TRUE"@[3]);
    }
}

/// A variable says its text.
pub proof fn what_variables_say(text: String)
    ensures
        said(Some(text)) == Some(text@),
{
}

/// How requests are answered that are refused.
pub proof fn how_replays_are_answered()
    ensures
        ReplayError::MissingNonce.code() == 400,
        ReplayError::DuplicateNonce.code() == 409,
        ReplayError::MissingNonce.words() == "Missing X-Nonce header"@,
        ReplayError::DuplicateNonce.words() == "Duplicate nonce detected (replay attack)"@,
{
}

/// A request is counted under its API key where it has one that is not empty, and
/// under its address otherwise; it is let through exactly where that key is, and
/// is turned away for at least a second.
pub proof fn how_requests_are_screened(
    s: LimiterView,
    api_key: Option<Seq<char>>,
    ip: Seq<char>,
    now: u128,
    later: u128,
)
    ensures
        ({
            let key = if api_key is Some && api_key->0.len() > 0 {
                "api-key:"@ + api_key->0
            } else {
                "ip:"@ + ip
            };
            let (after, secs) = screened(s, api_key, ip, now, later);
            &&& after == s.after(key, now)
            &&& secs is None <==> s.admits(key, now)
            &&& secs is Some ==> secs->0 == after.retry_after(key, later) && secs->0 >= 1
        }),
{
}

/// The limits are those that the variables give, the window in nanoseconds; 60
/// requests, and 60 seconds, where they are unset. Where both variables are
/// wrong, the first is told.
pub proof fn which_limits_are_set(max_requests: EnvVar, window_secs: EnvVar)
    ensures
        ({
            let requests = configured(
                max_requests,
                RateVariable::MaxRequests,
                0xffff_ffff,
                60,
            );
            let secs = configured(
                window_secs,
                RateVariable::WindowSecs,
                0xffff_ffff_ffff_ffff,
                60,
            );
            let limits = limits_of(max_requests, window_secs);
            &&& requests is Err ==> limits == Err::<(nat, nat), RateConfigError>(requests->Err_0)
            &&& requests is Ok && secs is Err ==> limits == Err::<(nat, nat), RateConfigError>(
                secs->Err_0,
            )
            &&& requests is Ok && secs is Ok ==> limits is Ok && limits->Ok_0.0 == requests->Ok_0
                && limits->Ok_0.1 == secs->Ok_0 * 1_000_000_000
        }),
{
}

/// Where protection is off every request passes and nothing is remembered. Where
/// it is on, a request without a nonce is refused and changes nothing, and any
/// other passes exactly where its nonce is accepted.
pub proof fn how_nonces_are_screened(
    nonces: Map<Seq<char>, u64>,
    config: ReplayProtectionConfig,
    nonce: Option<Seq<char>>,
    now: u64,
)
    ensures
        ({
            let (answer, after) = screen_step(nonces, config, nonce, now);
            &&& !config.enabled ==> answer is Ok && after == nonces
            &&& config.enabled && nonce is None ==> answer == Err::<(), ReplayError>(
                ReplayError::MissingNonce,
            ) && after == nonces
            &&& config.enabled && nonce is Some ==> {
                let step = nonce_step(nonces, config, nonce->0, now);
                &&& answer is Ok <==> step.0
                &&& answer is Err ==> answer->Err_0 is DuplicateNonce
                &&& after == step.1
            }
        }),
{
}

/// Protection is on where the environment says so, and off where it says
/// nothing; 10000 nonces are remembered, for an hour, unless it says otherwise.
pub proof fn which_protection_is_set(
    enabled: Option<Seq<char>>,
    cache_size: Option<Seq<char>>,
    nonce_ttl_secs: Option<Seq<char>>,
)
    ensures
        ({
            let (on, size, ttl) = protection_of(enabled, cache_size, nonce_ttl_secs);
            &&& on <==> enabled is Some && says_true(enabled->0)
            &&& size == number_or(cache_size, usize::MAX as nat, 10_000)
            &&& ttl == number_or(nonce_ttl_secs, 0xffff_ffff_ffff_ffff, 3_600)
        }),
{
}

} // verus!
