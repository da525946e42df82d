//! Rate limiting: so many requests for each key in each window of time.

use vstd::prelude::*;
use vstd::string::*;

use crate::clock::{nanos_since, this_instant, Duration, NANOS_PER_SEC};
use crate::headers::{header_text, header_text_of};
use crate::text::{decimal, decimal_text, join, parse_unsigned, same_text, unsigned_value};

verus! {

/// Requests for each key where nothing is configured.
pub const DEFAULT_MAX_REQUESTS: u32 = 60;

/// Seconds of a window where nothing is configured.
pub const DEFAULT_WINDOW_SECS: u64 = 60;

/// How many requests are let through in how long a window.
#[derive(Clone, Copy, Debug)]
pub struct RateLimitConfig {
    pub max_requests: u32,
    pub window: Duration,
}

impl Default for RateLimitConfig {
    fn default() -> (config: Self)
        ensures
            config.max_requests == DEFAULT_MAX_REQUESTS,
            config.window.length() == DEFAULT_WINDOW_SECS * NANOS_PER_SEC,
    {
        RateLimitConfig {
            max_requests: DEFAULT_MAX_REQUESTS,
            window: Duration::from_secs(DEFAULT_WINDOW_SECS),
        }
    }
}

/// What the environment says of a variable.
#[derive(Debug)]
pub enum EnvVar {
    Unset,
    /// It is set to something that is no text.
    NotText,
    Text(String),
}

/// A variable that configures the limiter.
#[derive(Clone, Copy, Debug, PartialEq, Eq, Structural)]
pub enum RateVariable {
    MaxRequests,
    WindowSecs,
}

impl RateVariable {
    /// The name of the variable.
    pub open spec fn text(self) -> Seq<char> {
        match self {
            RateVariable::MaxRequests => "ROUTER_API_MAX_REQUESTS"@,
            RateVariable::WindowSecs => "ROUTER_API_RATE_WINDOW_SECS"@,
        }
    }

    /// The name of the variable.
    pub fn name(&self) -> (name: &'static str)
        ensures
            name@ == self.text(),
    {
        match self {
            RateVariable::MaxRequests => "ROUTER_API_MAX_REQUESTS",
            RateVariable::WindowSecs => "ROUTER_API_RATE_WINDOW_SECS",
        }
    }
}

/// Why the environment does not configure a limiter.
#[derive(Clone, Copy, Debug, PartialEq, Eq, Structural)]
pub enum RateConfigError {
    /// The variable holds no text.
    Unreadable(RateVariable),
    /// The variable holds no number of its range.
    NotAnInteger(RateVariable),
    /// The variable holds zero.
    Zero(RateVariable),
}

impl RateConfigError {
    /// The error in words.
    pub open spec fn words(self) -> Seq<char> {
        match self {
            RateConfigError::Unreadable(v) => "failed to read "@ + v.text(),
            RateConfigError::NotAnInteger(v) => v.text() + " must be a positive integer"@,
            RateConfigError::Zero(v) => v.text() + " must be greater than 0"@,
        }
    }

    /// The error in words.
    pub fn message(&self) -> (message: String)
        ensures
            message@ == self.words(),
    {
        match self {
            RateConfigError::Unreadable(v) => join("failed to read ", v.name()),
            RateConfigError::NotAnInteger(v) => join(v.name(), " must be a positive integer"),
            RateConfigError::Zero(v) => join(v.name(), " must be greater than 0"),
        }
    }
}

/// The number that a variable gives: `default` if it is unset, and an error if
/// it is anything but a number from one to `max`.
pub open spec fn configured(var: EnvVar, name: RateVariable, max: nat, default: nat) -> Result<
    nat,
    RateConfigError,
> {
    match var {
        EnvVar::Unset => Ok(default),
        EnvVar::NotText => Err(RateConfigError::Unreadable(name)),
        EnvVar::Text(text) => match unsigned_value(text@, max) {
            None => Err(RateConfigError::NotAnInteger(name)),
            Some(n) => if n == 0 {
                Err(RateConfigError::Zero(name))
            } else {
                Ok(n)
            },
        },
    }
}

fn read_variable(var: &EnvVar, name: RateVariable, max: u64, default: u64) -> (n: Result<
    u64,
    RateConfigError,
>)
    ensures
        match n {
            Ok(n) => configured(*var, name, max as nat, default as nat) == Ok::<
                nat,
                RateConfigError,
            >(n as nat),
            Err(e) => configured(*var, name, max as nat, default as nat) == Err::<
                nat,
                RateConfigError,
            >(e),
        },
{
    match var {
        EnvVar::Unset => Ok(default),
        EnvVar::NotText => Err(RateConfigError::Unreadable(name)),
        EnvVar::Text(text) => match parse_unsigned(text.as_str(), max) {
            None => Err(RateConfigError::NotAnInteger(name)),
            Some(n) => if n == 0 {
                Err(RateConfigError::Zero(name))
            } else {
                Ok(n)
            },
        },
    }
}

/// The limits that the environment sets: how many requests, and for how many
/// nanoseconds.
pub open spec fn limits_of(max_requests: EnvVar, window_secs: EnvVar) -> Result<
    (nat, nat),
    RateConfigError,
> {
    match configured(
        max_requests,
        RateVariable::MaxRequests,
        u32::MAX as nat,
        DEFAULT_MAX_REQUESTS as nat,
    ) {
        Err(e) => Err(e),
        Ok(requests) => match configured(
            window_secs,
            RateVariable::WindowSecs,
            u64::MAX as nat,
            DEFAULT_WINDOW_SECS as nat,
        ) {
            Err(e) => Err(e),
            Ok(secs) => Ok((requests, secs * NANOS_PER_SEC as nat)),
        },
    }
}

impl RateLimitConfig {
    /// Reads the configuration out of what the environment says of
    /// `ROUTER_API_MAX_REQUESTS` and `ROUTER_API_RATE_WINDOW_SECS`. What is unset
    /// has its default.
    pub fn from_env(max_requests: &EnvVar, window_secs: &EnvVar) -> (config: Result<
        Self,
        RateConfigError,
    >)
        ensures
            ({
                let requests = configured(
                    *max_requests,
                    RateVariable::MaxRequests,
                    u32::MAX as nat,
                    DEFAULT_MAX_REQUESTS as nat,
                );
                let secs = configured(
                    *window_secs,
                    RateVariable::WindowSecs,
                    u64::MAX as nat,
                    DEFAULT_WINDOW_SECS as nat,
                );
                match config {
                    Ok(config) => requests == Ok::<nat, RateConfigError>(
                        config.max_requests as nat,
                    ) && secs is Ok && config.window.length() == secs->Ok_0 * NANOS_PER_SEC,
                    Err(e) => requests == Err::<nat, RateConfigError>(e) || (requests is Ok && secs
                        == Err::<nat, RateConfigError>(e)),
                }
            }),
            limits_of(*max_requests, *window_secs) == match config {
                Ok(config) => Ok::<(nat, nat), RateConfigError>(
                    (config.max_requests as nat, config.window.length()),
                ),
                Err(e) => Err(e),
            },
    {
        let requests: u64 = match read_variable(
            max_requests,
            RateVariable::MaxRequests,
            u32::MAX as u64,
            DEFAULT_MAX_REQUESTS as u64,
        ) {
            Err(e) => {
                return Err(e);
            },
            Ok(n) => n,
        };
        let secs: u64 = match read_variable(
            window_secs,
            RateVariable::WindowSecs,
            u64::MAX,
            DEFAULT_WINDOW_SECS,
        ) {
            Err(e) => {
                return Err(e);
            },
            Ok(n) => n,
        };
        proof {
            assert(requests <= u32::MAX);
        }
        Ok(RateLimitConfig { max_requests: requests as u32, window: Duration::from_secs(secs) })
    }
}

/// A concurrent map.
#[verifier::external_type_specification]
#[verifier::external_body]
#[verifier::reject_recursive_types(K)]
#[verifier::reject_recursive_types(V)]
#[verifier::reject_recursive_types(S)]
pub struct ExDashMap<K, V, S>(dashmap::DashMap<K, V, S>);

/// The buckets that a map holds: for each key, how many requests came in its
/// window, and when the window began.
pub uninterp spec fn buckets_held(map: dashmap::DashMap<String, (u32, u128)>) -> Map<
    Seq<char>,
    (u32, u128),
>;

/// No buckets.
pub open spec fn no_buckets() -> Map<Seq<char>, (u32, u128)> {
    Map::empty()
}

/// Calls `DashMap::new`: a map without entries.
#[verifier::external_body]
fn new_buckets() -> (buckets: dashmap::DashMap<String, (u32, u128)>)
    ensures
        buckets_held(buckets) == no_buckets(),
{
    dashmap::DashMap::new()
}

/// Calls `DashMap::get`: the entry under the key, if there is one.
#[verifier::external_body]
fn get_bucket(map: &dashmap::DashMap<String, (u32, u128)>, key: &str) -> (bucket: Option<
    (u32, u128),
>)
    ensures
        bucket == if buckets_held(*map).contains_key(key@) {
            Some(buckets_held(*map)[key@])
        } else {
            None
        },
{
    match map.get(key) {
        Some(entry) => Some(*entry),
        None => None,
    }
}

/// Calls `DashMap::insert`: the entry under the key is the one given, and no
/// other entry changes.
#[verifier::external_body]
fn put_bucket(map: &mut dashmap::DashMap<String, (u32, u128)>, key: &str, bucket: (u32, u128))
    ensures
        buckets_held(*final(map)) == buckets_held(*old(map)).insert(key@, bucket),
{
    map.insert(key.to_string(), bucket);
}

/// What a limiter remembers. Times are in nanoseconds.
#[verifier::ext_equal]
pub struct LimiterView {
    pub max_requests: u32,
    pub window: nat,
    pub buckets: Map<Seq<char>, (u32, u128)>,
}

/// The time from `start` to `now`, zero if `start` is later.
pub open spec fn elapsed(start: u128, now: u128) -> nat {
    if now >= start {
        (now - start) as nat
    } else {
        0
    }
}

/// The bucket that a request at the time `now` falls into, the request counted.
/// Where there is none, or its window is over, a new window begins.
pub open spec fn counted(bucket: Option<(u32, u128)>, now: u128, window: nat) -> (int, u128) {
    match bucket {
        Some((count, start)) => if elapsed(start, now) < window {
            (count + 1, start)
        } else {
            (1, now)
        },
        None => (1, now),
    }
}

impl LimiterView {
    /// The bucket of a key.
    pub open spec fn bucket(self, key: Seq<char>) -> Option<(u32, u128)> {
        if self.buckets.contains_key(key) {
            Some(self.buckets[key])
        } else {
            None
        }
    }

    /// Whether a request at the time `now` is let through.
    pub open spec fn admits(self, key: Seq<char>, now: u128) -> bool {
        counted(self.bucket(key), now, self.window).0 <= self.max_requests
    }

    /// After a request at the time `now`. A count stops at the largest number.
    pub open spec fn after(self, key: Seq<char>, now: u128) -> LimiterView {
        let (count, start) = counted(self.bucket(key), now, self.window);
        let kept = if count <= u32::MAX {
            count as u32
        } else {
            u32::MAX
        };
        LimiterView { buckets: self.buckets.insert(key, (kept, start)), ..self }
    }

    /// How many whole seconds are left of the window of a key at the time `now`,
    /// one at least.
    pub open spec fn retry_after(self, key: Seq<char>, now: u128) -> nat {
        match self.bucket(key) {
            Some((_, start)) => {
                let left = (self.window - elapsed(start, now)) / NANOS_PER_SEC as int;
                if left > 1 {
                    left as nat
                } else {
                    1
                }
            },
            None => 1,
        }
    }
}

/// Limits requests by key.
pub struct RateLimiter {
    config: RateLimitConfig,
    origin: std::time::Instant,
    buckets: dashmap::DashMap<String, (u32, u128)>,
}

impl View for RateLimiter {
    type V = LimiterView;

    closed spec fn view(&self) -> LimiterView {
        LimiterView {
            max_requests: self.config.max_requests,
            window: self.config.window.length(),
            buckets: buckets_held(self.buckets),
        }
    }
}

/// The API key that limits a request, if it has one, or else its address.
pub open spec fn key_of(api_key: Option<Seq<char>>, ip: Seq<char>) -> Seq<char> {
    match api_key {
        Some(value) => if value.len() > 0 {
            "api-key:"@ + value
        } else {
            "ip:"@ + ip
        },
        None => "ip:"@ + ip,
    }
}

/// The key by which a request is limited, given its API key and its address.
pub fn choose_key(api_key: &Option<String>, ip: &str) -> (key: String)
    ensures
        key@ == key_of(
            match *api_key {
                Some(value) => Some(value@),
                None => None,
            },
            ip@,
        ),
{
    match api_key {
        Some(value) => {
            proof {
                reveal_strlit("");
                assert(value@.len() == 0 ==> value@ =~= ""@);
            }
            if same_text(value.as_str(), "") {
                join("ip:", ip)
            } else {
                join("api-key:", value.as_str())
            }
        },
        None => join("ip:", ip),
    }
}

/// The key by which a request is limited: its `X-API-Key` header if it has one
/// that is not empty, or else its address.
pub fn limit_key(headers: &axum::http::HeaderMap, ip: &str) -> (key: String)
    ensures
        key@ == key_of(header_text_of(*headers, "x-api-key"@), ip@),
{
    proof {
        reveal_strlit("x-api-key");
    }
    choose_key(&header_text(headers, "x-api-key"), ip)
}

/// How a request is turned away.
#[derive(Debug)]
pub struct Rejection {
    /// The HTTP status.
    pub status: u16,
    /// The value of the `retry-after` header.
    pub retry_after: String,
    pub error: String,
    pub message: String,
    pub retry_after_secs: u64,
}

impl Rejection {
    /// Whether this turns a request away for `secs` seconds.
    pub open spec fn is_for(self, secs: nat) -> bool {
        &&& self.status == 429
        &&& self.retry_after_secs == secs
        &&& self.retry_after@ == decimal_text(secs)
        &&& self.error@ == "rate_limit_exceeded"@
        &&& self.message@ == "Too many requests. Retry after "@ + decimal_text(secs)
            + " second(s)."@
    }

    /// Turns a request away for `secs` seconds.
    pub fn new(secs: u64) -> (rejection: Rejection)
        ensures
            rejection.is_for(secs as nat),
    {
        let number = decimal(secs);
        let start = join("Too many requests. Retry after ", number.as_str());
        Rejection {
            status: 429,
            retry_after: number,
            error: "rate_limit_exceeded".to_string(),
            message: join(start.as_str(), " second(s)."),
            retry_after_secs: secs,
        }
    }
}

/// What a limiter is after a request of the time `now`, and for how many seconds
/// the request is turned away, as of the time `later`, if it is.
pub open spec fn screened(
    s: LimiterView,
    api_key: Option<Seq<char>>,
    ip: Seq<char>,
    now: u128,
    later: u128,
) -> (LimiterView, Option<nat>) {
    let key = key_of(api_key, ip);
    let after = s.after(key, now);
    (
        after,
        if s.admits(key, now) {
            None
        } else {
            Some(after.retry_after(key, later))
        },
    )
}

impl RateLimiter {
    /// A limiter that has seen no request.
    pub fn new(config: RateLimitConfig) -> (limiter: Self)
        ensures
            limiter@ == (LimiterView {
                max_requests: config.max_requests,
                window: config.window.length(),
                buckets: no_buckets(),
            }),
    {
        RateLimiter { config, origin: this_instant(), buckets: new_buckets() }
    }

    /// Counts a request of a key at a time, in nanoseconds since the limiter was
    /// made, and says whether it is let through.
    pub fn check_at(&mut self, key: &str, now: u128) -> (admitted: bool)
        ensures
            admitted == old(self)@.admits(key@, now),
            final(self)@ == old(self)@.after(key@, now),
    {
        let window: u128 = self.config.window.as_nanos();
        let (count, start): (u32, u128) = match get_bucket(&self.buckets, key) {
            Some((count, start)) => {
                let age: u128 = if now >= start {
                    now - start
                } else {
                    0
                };
                if age < window {
                    (count, start)
                } else {
                    (0u32, now)
                }
            },
            None => (0u32, now),
        };
        if count < u32::MAX {
            put_bucket(&mut self.buckets, key, (count + 1, start));
            assert(self@ =~= old(self)@.after(key@, now));
            count + 1 <= self.config.max_requests
        } else {
            put_bucket(&mut self.buckets, key, (count, start));
            assert(self@ =~= old(self)@.after(key@, now));
            false
        }
    }

    /// Counts a request of a key now, and says whether it is let through.
    pub fn check(&mut self, key: &str) -> (admitted: bool)
        ensures
            exists|now: u128| #[trigger]
                old(self)@.admits(key@, now) == admitted && final(self)@ == old(self)@.after(
                    key@,
                    now,
                ),
    {
        let now: u128 = nanos_since(&self.origin);
        let ghost before = self@;
        let admitted = self.check_at(key, now);
        assert(before.admits(key@, now) == admitted);
        admitted
    }

    /// After how many seconds a key may try again, at a time in nanoseconds since
    /// the limiter was made.
    pub fn retry_after_secs_at(&self, key: &str, now: u128) -> (secs: u64)
        ensures
            secs == self@.retry_after(key@, now),
    {
        match get_bucket(&self.buckets, key) {
            Some((_, start)) => {
                let window: u128 = self.config.window.as_nanos();
                let age: u128 = if now >= start {
                    now - start
                } else {
                    0
                };
                if age < window {
                    let left: u64 = ((window - age) / NANOS_PER_SEC) as u64;
                    if left > 1 {
                        left
                    } else {
                        1
                    }
                } else {
                    1
                }
            },
            None => 1,
        }
    }

    /// After how many seconds a key may try again.
    pub fn retry_after_secs(&self, key: &str) -> (secs: u64)
        ensures
            exists|now: u128| #[trigger] self@.retry_after(key@, now) == secs,
    {
        let now: u128 = nanos_since(&self.origin);
        let secs: u64 = self.retry_after_secs_at(key, now);
        assert(self@.retry_after(key@, now) == secs);
        secs
    }

    /// Takes a request at the time `now`: none if it is let through, or how it is
    /// turned away, as of the time `later`.
    pub fn screen_at(
        &mut self,
        headers: &axum::http::HeaderMap,
        ip: &str,
        now: u128,
        later: u128,
    ) -> (rejection: Option<Rejection>)
        ensures
            ({
                let key = key_of(header_text_of(*headers, "x-api-key"@), ip@);
                &&& final(self)@ == old(self)@.after(key, now)
                &&& match rejection {
                    None => old(self)@.admits(key, now),
                    Some(r) => !old(self)@.admits(key, now) && r.is_for(
                        final(self)@.retry_after(key, later),
                    ),
                }
            }),
            ({
                let (after, secs) = screened(
                    old(self)@,
                    header_text_of(*headers, "x-api-key"@),
                    ip@,
                    now,
                    later,
                );
                &&& final(self)@ == after
                &&& match rejection {
                    None => secs is None,
                    Some(r) => secs is Some && r.is_for(secs->0),
                }
            }),
    {
        let key = limit_key(headers, ip);
        if self.check_at(key.as_str(), now) {
            return None;
        }
        Some(Rejection::new(self.retry_after_secs_at(key.as_str(), later)))
    }

    /// Takes a request: none if it is let through, or how it is turned away.
    pub fn screen(&mut self, headers: &axum::http::HeaderMap, ip: &str) -> (rejection: Option<
        Rejection,
    >)
        ensures
            ({
                let key = key_of(header_text_of(*headers, "x-api-key"@), ip@);
                exists|now: u128, later: u128|
                    {
                        &&& final(self)@ == #[trigger] old(self)@.after(key, now)
                        &&& match rejection {
                            None => old(self)@.admits(key, now),
                            Some(r) => !old(self)@.admits(key, now) && r.is_for(
                                final(self)@.retry_after(key, later),
                            ),
                        }
                        &&& #[trigger] final(self)@.retry_after(key, later) >= 1
                    }
            }),
    {
        let now: u128 = nanos_since(&self.origin);
        let later: u128 = nanos_since(&self.origin);
        let ghost key = key_of(header_text_of(*headers, "x-api-key"@), ip@);
        let rejection = self.screen_at(headers, ip, now, later);
        assert(self@.retry_after(key, later) >= 1);
        rejection
    }
}

// ── What holds of limiters ──────────────────────────────────────────────────

/// Requests of one key do not count for another.
pub proof fn keys_are_independent(s: LimiterView, key: Seq<char>, other: Seq<char>, now: u128)
    requires
        key != other,
    ensures
        s.after(key, now).bucket(other) == s.bucket(other),
        forall|t: u128| s.after(key, now).admits(other, t) == #[trigger] s.admits(other, t),
{
}

/// The limiter after requests of one key at these times.
pub open spec fn after_all(s: LimiterView, key: Seq<char>, times: Seq<u128>) -> LimiterView
    decreases times.len(),
{
    if times.len() == 0 {
        s
    } else {
        after_all(s, key, times.drop_last()).after(key, times.last())
    }
}

/// Of the requests of a key within one window, the first `max_requests` are let
/// through, and no others.
pub proof fn so_many_in_a_window(s: LimiterView, key: Seq<char>, times: Seq<u128>, now: u128)
    requires
        s.bucket(key) is None,
        times.len() < u32::MAX,
        forall|i: int|
            0 <= i < times.len() ==> times[0] <= #[trigger] times[i] && times[i] - times[0]
                < s.window,
        times.len() > 0 ==> times[0] <= now && now - times[0] < s.window,
    ensures
        after_all(s, key, times).admits(key, now) <==> times.len() < s.max_requests,
        times.len() > 0 ==> after_all(s, key, times).bucket(key) == Some(
            (times.len() as u32, times[0]),
        ),
        after_all(s, key, times).window == s.window,
        after_all(s, key, times).max_requests == s.max_requests,
    decreases times.len(),
{
    if times.len() > 0 {
        let rest = times.drop_last();
        let last = times.last();
        if rest.len() > 0 {
            assert forall|i: int| 0 <= i < rest.len() implies rest[0] <= #[trigger] rest[i]
                && rest[i] - rest[0] < s.window by {
                assert(rest[i] == times[i]);
            }
            assert(times[times.len() - 1] == last);
            assert(rest[0] == times[0]);
        }
        so_many_in_a_window(s, key, rest, last);
    }
}

/// When the window of a key is over, the next request of the key is let through.
pub proof fn a_new_window_lets_through(s: LimiterView, key: Seq<char>, now: u128)
    requires
        s.max_requests > 0,
        s.bucket(key) matches Some(bucket) ==> elapsed(bucket.1, now) >= s.window,
    ensures
        s.admits(key, now),
        s.after(key, now).bucket(key) == Some((1u32, now)),
{
}

/// A key that waits one second longer than it was told is let through.
pub proof fn waiting_helps(s: LimiterView, key: Seq<char>, now: u128, later: u128)
    requires
        s.max_requests > 0,
        s.bucket(key) matches Some(bucket) ==> bucket.1 <= now,
        later >= now + (s.retry_after(key, now) + 1) * NANOS_PER_SEC,
    ensures
        s.admits(key, later),
{
    if let Some((_, start)) = s.bucket(key) {
        let left = (s.window - elapsed(start, now)) as int;
        let secs = s.retry_after(key, now) as int;
        assert(secs >= left / NANOS_PER_SEC as int);
        assert((secs + 1) * NANOS_PER_SEC >= left) by (nonlinear_arith)
            requires
                secs >= left / (NANOS_PER_SEC as int),
                NANOS_PER_SEC == 1_000_000_000,
        ;
    }
}

/// A key made of an API key is never one made of an address, and different API
/// keys make different keys, as do different addresses.
pub proof fn keys_tell_requests_apart(
    a: Option<Seq<char>>,
    x: Seq<char>,
    b: Option<Seq<char>>,
    y: Seq<char>,
)
    ensures
        key_of(a, x) == key_of(b, y) <==> {
            let has_a = a is Some && a->0.len() > 0;
            let has_b = b is Some && b->0.len() > 0;
            has_a == has_b && (if has_a {
                a == b
            } else {
                x == y
            })
        },
{
    reveal_strlit("api-key:");
    reveal_strlit("ip:");
    let p = key_of(a, x);
    let q = key_of(b, y);
    let has_a = a is Some && a->0.len() > 0;
    let has_b = b is Some && b->0.len() > 0;
    assert(p[0] == if has_a { 'a' } else { 'i' });
    assert(q[0] == if has_b { 'a' } else { 'i' });
    if p == q {
        if has_a {
            assert(p.skip(8) =~= a->0);
            assert(q.skip(8) =~= b->0);
        } else {
            assert(p.skip(3) =~= x);
            assert(q.skip(3) =~= y);
        }
    }
}

} // verus!
