//! Pacing of requests to GitHub.
//!
//! Instants and delays are plain numbers: nanoseconds on one clock, or seconds
//! where that is said.
use crate::{numeral, text};
use vstd::prelude::*;

verus! {

pub const DEFAULT_GITHUB_API_REQUESTS_PER_HOUR: u32 = 1200;

pub const DEFAULT_GITHUB_NOTIFICATION_WINDOW_HOURS: u32 = 96;

pub const MAX_RATE_LIMIT_RETRIES: usize = 5;

pub const NANOS_PER_SECOND: u128 = 1000000000;

#[derive(Debug, Eq, PartialEq)]
pub enum GitHubError {
    ZeroRequestRate,
    ZeroNotificationWindow,
}

impl GitHubError {
    pub open spec fn message_text(self) -> Seq<char> {
        match self {
            GitHubError::ZeroRequestRate => "github_api_requests_per_hour must be at least 1"@,
            GitHubError::ZeroNotificationWindow => {
                "github_notification_window_hours must be at least 1"@
            },
        }
    }

    /// The error in words.
    pub fn message(&self) -> (r: String)
        ensures
            r@ == self.message_text(),
    {
        match self {
            GitHubError::ZeroRequestRate => {
                "github_api_requests_per_hour must be at least 1".to_owned()
            },
            GitHubError::ZeroNotificationWindow => {
                "github_notification_window_hours must be at least 1".to_owned()
            },
        }
    }
}

// ---------------------------------------------------------------------------
// Request rate
// ---------------------------------------------------------------------------
/// How many requests may be made in an hour; at least one.
#[derive(Clone, Copy, Debug, Eq, PartialEq)]
pub struct GitHubApiRequestRate {
    requests_per_hour: u32,
}

/// `a / b`, rounded to the nearest integer, and to the even one of two.
pub open spec fn nearest_even(a: nat, b: nat) -> nat {
    let quotient = a / b;
    let rest = a % b;
    if 2 * rest > b || (2 * rest == b && quotient % 2 == 1) {
        quotient + 1
    } else {
        quotient
    }
}

/// `num` and `den`, both doubled as often as it takes until `num / rate` is at
/// least 2^52.
pub open spec fn scaled(num: nat, den: nat, rate: nat) -> (nat, nat)
    decreases 0x20000000000000 * rate - num,
{
    if num == 0 || num >= 0x10000000000000 * rate {
        (num, den)
    } else {
        scaled(2 * num, 2 * den, rate)
    }
}

/// An hour divided by `rate`, in nanoseconds, as double-precision arithmetic has
/// it: the quotient in seconds is rounded to 53 binary digits, and that number to
/// whole nanoseconds.
pub open spec fn interval_of(rate: nat) -> nat {
    let (num, den) = scaled(3600, 1, rate);
    nearest_even(nearest_even(num, rate) * 1000000000, den)
}

fn divide_nearest_even(a: u128, b: u128) -> (r: u128)
    requires
        0 < b < 0x1_0000_0000_0000_0000_0000_0000,
    ensures
        r == nearest_even(a as nat, b as nat),
        r <= a / b + 1,
{
    let quotient: u128 = a / b;
    let rest: u128 = a % b;
    assert(rest < b);
    if 2 * rest > b || (2 * rest == b && quotient % 2 == 1) {
        proof {
            lemma_quotient_small(a as int, b as int);
        }
        quotient + 1
    } else {
        quotient
    }
}

proof fn lemma_quotient_small(a: int, b: int)
    requires
        0 <= a <= u128::MAX,
        0 < b,
        2 * (a % b) >= b,
    ensures
        a / b < u128::MAX,
{
    assert(a / b < u128::MAX) by (nonlinear_arith)
        requires
            0 <= a <= u128::MAX,
            0 < b,
            2 * (a % b) >= b,
    {
        assert(a == b * (a / b) + a % b);
        assert(a % b >= 1);
        if a / b >= u128::MAX {
            assert(b * (a / b) >= u128::MAX);
        }
    }
}

impl GitHubApiRequestRate {
    pub closed spec fn rate(self) -> u32 {
        self.requests_per_hour
    }

    #[verifier::type_invariant]
    spec fn not_zero(self) -> bool {
        self.requests_per_hour > 0
    }

    pub fn per_hour(requests_per_hour: u32) -> (r: Result<GitHubApiRequestRate, GitHubError>)
        ensures
            match r {
                Ok(rate) => requests_per_hour > 0 && rate.rate() == requests_per_hour,
                Err(error) => requests_per_hour == 0 && error == GitHubError::ZeroRequestRate,
            },
    {
        if requests_per_hour == 0 {
            Err(GitHubError::ZeroRequestRate)
        } else {
            Ok(GitHubApiRequestRate { requests_per_hour })
        }
    }

    pub fn requests_per_hour(self) -> (r: u32)
        ensures
            r == self.rate(),
            r > 0,
    {
        proof {
            use_type_invariant(&self);
        }
        self.requests_per_hour
    }

    /// The time from one request to the next, in nanoseconds.
    pub fn interval(self) -> (r: u64)
        ensures
            r == interval_of(self.rate() as nat),
    {
        proof {
            use_type_invariant(&self);
        }
        let rate: u128 = self.requests_per_hour as u128;
        let mut num: u128 = 3600;
        let mut den: u128 = 1;
        while num < 0x10000000000000 * rate
            invariant
                0 < rate <= u32::MAX,
                num == 3600 * den,
                3600 <= num < 0x20000000000000 * rate,
                scaled(3600, 1, rate as nat) == scaled(num as nat, den as nat, rate as nat),
            decreases 0x20000000000000 * rate - num,
        {
            num = 2 * num;
            den = 2 * den;
        }
        let mantissa: u128 = divide_nearest_even(num, rate);
        assert(num / rate <= 0x20000000000000) by (nonlinear_arith)
            requires
                num < 0x20000000000000 * rate,
                rate > 0,
        ;
        let nanos: u128 = divide_nearest_even(mantissa * 1000000000, den);
        proof {
            let a = (mantissa * 1000000000) as int;
            let d = den as int;
            assert(d * 3600 >= 0x10000000000000);
            assert(a / d <= a / 1000000000000) by (nonlinear_arith)
                requires
                    a >= 0,
                    d >= 1000000000000,
            ;
        }
        nanos as u64
    }
}

impl Default for GitHubApiRequestRate {
    fn default() -> (r: Self)
        ensures
            r.rate() == DEFAULT_GITHUB_API_REQUESTS_PER_HOUR,
    {
        GitHubApiRequestRate { requests_per_hour: DEFAULT_GITHUB_API_REQUESTS_PER_HOUR }
    }
}

/// How far back notifications are asked for, in hours; at least one.
#[derive(Clone, Copy, Debug, Eq, PartialEq)]
pub struct GitHubNotificationWindow {
    hours: u32,
}

impl GitHubNotificationWindow {
    pub closed spec fn length(self) -> u32 {
        self.hours
    }

    #[verifier::type_invariant]
    spec fn not_zero(self) -> bool {
        self.hours > 0
    }

    pub fn hours(hours: u32) -> (r: Result<GitHubNotificationWindow, GitHubError>)
        ensures
            match r {
                Ok(window) => hours > 0 && window.length() == hours,
                Err(error) => hours == 0 && error == GitHubError::ZeroNotificationWindow,
            },
    {
        if hours == 0 {
            Err(GitHubError::ZeroNotificationWindow)
        } else {
            Ok(GitHubNotificationWindow { hours })
        }
    }

    pub fn as_hours(self) -> (r: u32)
        ensures
            r == self.length(),
            r > 0,
    {
        proof {
            use_type_invariant(&self);
        }
        self.hours
    }
}

// ---------------------------------------------------------------------------
// Turns
// ---------------------------------------------------------------------------
/// When the next request may be made: no sooner than one interval after the last
/// one, and not while GitHub has asked to back off.
#[derive(Debug, Eq, PartialEq)]
pub struct GitHubTraffic {
    pub interval: u64,
    pub next_request_at: Option<u128>,
    pub backoff_until: Option<u128>,
}

impl GitHubTraffic {
    pub open spec fn backing_off(self, now: u64) -> bool {
        self.backoff_until is Some && self.backoff_until->0 > now
    }

    /// A request may be made at `now`.
    pub open spec fn turn_at(self, now: u64) -> bool {
        !self.backing_off(now) && !(self.next_request_at is Some && self.next_request_at->0 > now)
    }

    /// How long a request has to wait at `now` before it asks again.
    pub open spec fn wait_at(self, now: u64) -> int {
        if self.backing_off(now) {
            self.backoff_until->0 - now
        } else if self.turn_at(now) {
            0
        } else {
            self.next_request_at->0 - now
        }
    }

    /// The state after asking for a turn at `now`.
    pub open spec fn asked(self, now: u64) -> GitHubTraffic {
        if self.backing_off(now) {
            self
        } else {
            GitHubTraffic {
                backoff_until: None,
                next_request_at: if self.turn_at(now) {
                    Some((now + self.interval) as u128)
                } else {
                    self.next_request_at
                },
                ..self
            }
        }
    }

    /// The state after GitHub asked at `now` to back off for some seconds. A back-off
    /// never ends sooner because of a later, shorter one.
    pub open spec fn told(self, now: u64, seconds: u128) -> GitHubTraffic {
        let until = now + seconds * NANOS_PER_SECOND;
        if self.backoff_until is Some && self.backoff_until->0 >= until {
            self
        } else {
            GitHubTraffic { backoff_until: Some(until as u128), ..self }
        }
    }

    pub fn new(rate: GitHubApiRequestRate) -> (r: GitHubTraffic)
        ensures
            r.interval == interval_of(rate.rate() as nat),
            r.next_request_at is None,
            r.backoff_until is None,
    {
        GitHubTraffic { interval: rate.interval(), next_request_at: None, backoff_until: None }
    }

    fn backoff_delay(&mut self, now: u64) -> (r: u128)
        ensures
            r == (if old(self).backing_off(now) {
                old(self).backoff_until->0 - now
            } else {
                0
            }),
            *final(self) == (if old(self).backing_off(now) {
                *old(self)
            } else {
                GitHubTraffic { backoff_until: None, ..*old(self) }
            }),
    {
        match self.backoff_until {
            None => 0,
            Some(until) => {
                if until <= now as u128 {
                    self.backoff_until = None;
                    0
                } else {
                    until - now as u128
                }
            },
        }
    }

    fn request_slot_delay(&mut self, now: u64) -> (r: u128)
        ensures
            match old(self).next_request_at {
                Some(next) if next > now => r == next - now && *final(self) == *old(self),
                _ => r == 0 && *final(self) == (GitHubTraffic {
                    next_request_at: Some((now + old(self).interval) as u128),
                    ..*old(self)
                }),
            },
    {
        match self.next_request_at {
            Some(next) if next > now as u128 => next - now as u128,
            _ => {
                self.next_request_at = Some(now as u128 + self.interval as u128);
                0
            },
        }
    }

    /// Asks for a turn at `now`: the time to wait before asking again, or zero for
    /// a turn.
    pub fn wait_for_turn(&mut self, now: u64) -> (r: u128)
        ensures
            r == old(self).wait_at(now),
            (r == 0) == old(self).turn_at(now),
            *final(self) == old(self).asked(now),
    {
        let wait: u128 = self.backoff_delay(now);
        if wait != 0 {
            return wait;
        }
        self.request_slot_delay(now)
    }

    /// Takes note at `now` that GitHub asked to back off for some seconds.
    pub fn back_off(&mut self, now: u64, seconds: u128)
        requires
            seconds <= 0x1_0000_0000_0000_0000,
        ensures
            *final(self) == old(self).told(now, seconds),
    {
        let until: u128 = now as u128 + seconds * NANOS_PER_SECOND;
        let later = match self.backoff_until {
            None => true,
            Some(current) => until > current,
        };
        if later {
            self.backoff_until = Some(until);
        }
    }
}

/// What happens to the pacing: a request asks for a turn, or GitHub asks to back
/// off for some seconds.
pub enum TrafficEvent {
    Ask { now: u64 },
    BackOff { now: u64, seconds: u128 },
}

pub open spec fn traffic_over(start: GitHubTraffic, events: Seq<TrafficEvent>) -> GitHubTraffic
    decreases events.len(),
{
    if events.len() == 0 {
        start
    } else {
        let before = traffic_over(start, events.drop_last());
        match events.last() {
            TrafficEvent::Ask { now } => before.asked(now),
            TrafficEvent::BackOff { now, seconds } => before.told(now, seconds),
        }
    }
}

/// Whether the event at `at` is a request that got its turn, at the instant `now`.
pub open spec fn turn_taken(
    start: GitHubTraffic,
    events: Seq<TrafficEvent>,
    at: int,
    now: u64,
) -> bool {
    &&& 0 <= at < events.len()
    &&& events[at] == (TrafficEvent::Ask { now })
    &&& traffic_over(start, events.take(at)).turn_at(now)
}

proof fn lemma_turn_kept(
    start: GitHubTraffic,
    events: Seq<TrafficEvent>,
    first: int,
    from: u64,
    upto: int,
)
    requires
        turn_taken(start, events, first, from),
        first < upto <= events.len(),
        forall|k: int, t: u64|
            first < k < upto ==> !#[trigger] turn_taken(start, events, k, t),
    ensures
        traffic_over(start, events.take(upto)).next_request_at == Some(
            (from + start.interval) as u128,
        ),
        traffic_over(start, events.take(upto)).interval == start.interval,
    decreases upto,
{
    lemma_interval_kept(start, events.take(first));
    assert(events.take(upto).drop_last() =~= events.take(upto - 1));
    assert(events.take(upto).last() == events[upto - 1]);
    if upto - 1 > first {
        lemma_turn_kept(start, events, first, from, upto - 1);
        match events[upto - 1] {
            TrafficEvent::Ask { now } => {
                assert(!turn_taken(start, events, upto - 1, now));
            },
            TrafficEvent::BackOff { .. } => {},
        }
    }
}

proof fn lemma_interval_kept(start: GitHubTraffic, events: Seq<TrafficEvent>)
    ensures
        traffic_over(start, events).interval == start.interval,
    decreases events.len(),
{
    if events.len() > 0 {
        lemma_interval_kept(start, events.drop_last());
    }
}

/// Whatever happens in between: from one turn to the next there is at least one
/// interval.
pub proof fn law_turns_are_an_interval_apart(
    start: GitHubTraffic,
    events: Seq<TrafficEvent>,
    first: int,
    second: int,
    from: u64,
    then: u64,
)
    requires
        first < second,
        turn_taken(start, events, first, from),
        turn_taken(start, events, second, then),
        forall|k: int, t: u64|
            first < k < second ==> !#[trigger] turn_taken(start, events, k, t),
    ensures
        then >= from + start.interval,
{
    lemma_turn_kept(start, events, first, from, second);
}

/// No turn is given before the time is over for which GitHub asked to back off,
/// and asking for a turn does not shorten it.
pub proof fn law_no_turn_while_backing_off(
    traffic: GitHubTraffic,
    now: u64,
    seconds: u128,
    then: u64,
)
    requires
        seconds <= 0x1_0000_0000_0000_0000,
        then < now + seconds * NANOS_PER_SECOND,
    ensures
        !traffic.told(now, seconds).turn_at(then),
        traffic.told(now, seconds).asked(then) == traffic.told(now, seconds),
{
}

/// When notifications may be asked for again.
#[derive(Debug, Eq, PartialEq)]
pub struct NotificationPolling {
    pub next_allowed_at: Option<u128>,
}

impl NotificationPolling {
    pub fn new() -> (r: NotificationPolling)
        ensures
            r.next_allowed_at is None,
    {
        NotificationPolling { next_allowed_at: None }
    }

    /// The time to wait at `now`; zero where none is needed.
    pub fn wait_until_allowed(&self, now: u64) -> (r: u128)
        ensures
            r == (match self.next_allowed_at {
                Some(next) if next > now => next - now,
                _ => 0,
            }),
    {
        match self.next_allowed_at {
            Some(next) if next > now as u128 => next - now as u128,
            _ => 0,
        }
    }

    /// Takes note of the seconds that GitHub's poll interval header asks for, where
    /// it reads as a number.
    pub fn record_headers(&mut self, now: u64, poll_interval: &Option<String>)
        ensures
            final(self).next_allowed_at == (match header_number(*poll_interval) {
                Some(seconds) => Some((now + seconds * NANOS_PER_SECOND) as u128),
                None => old(self).next_allowed_at,
            }),
    {
        if let Some(seconds) = header_u64(poll_interval) {
            self.next_allowed_at = Some(now as u128 + seconds as u128 * NANOS_PER_SECOND);
        }
    }
}

// ---------------------------------------------------------------------------
// Rate limits
// ---------------------------------------------------------------------------
/// The number in a header, where the header is there and holds one.
pub open spec fn header_number(value: Option<String>) -> Option<u64> {
    match value {
        None => None,
        Some(digits) => match numeral::numeral_value(digits@, u64::MAX as nat) {
            Some(n) => Some(n as u64),
            None => None,
        },
    }
}

pub fn header_u64(value: &Option<String>) -> (r: Option<u64>)
    ensures
        r == header_number(*value),
{
    match value {
        None => None,
        Some(digits) => numeral::parse_u64(digits.as_str()),
    }
}

/// A minute, doubled with every attempt, up to sixteen minutes.
pub open spec fn secondary_seconds(attempt: nat) -> nat
    decreases attempt,
{
    if attempt == 0 {
        60
    } else if attempt > 4 {
        secondary_seconds(4)
    } else {
        2 * secondary_seconds((attempt - 1) as nat)
    }
}

/// The back-off from a secondary rate limit, in seconds.
pub fn secondary_backoff(attempt: usize) -> (r: u64)
    ensures
        r == secondary_seconds(attempt as nat),
{
    proof {
        reveal_with_fuel(secondary_seconds, 6);
    }
    match attempt {
        0 => 60,
        1 => 120,
        2 => 240,
        3 => 480,
        _ => 960,
    }
}

/// The back-off grows with the attempts and stays between one minute and
/// sixteen.
pub proof fn law_secondary_backoff_is_bounded(attempt: nat)
    ensures
        60 <= secondary_seconds(attempt) <= 960,
        secondary_seconds(attempt) <= secondary_seconds(attempt + 1),
{
    reveal_with_fuel(secondary_seconds, 7);
}

/// What of a response tells how to back off: three of its headers, and its body.
#[derive(Debug, Eq, PartialEq)]
pub struct RefusedResponse {
    pub retry_after: Option<String>,
    pub ratelimit_remaining: Option<String>,
    pub ratelimit_reset: Option<String>,
    pub body: String,
}

#[derive(Clone, Copy, Debug, Eq, PartialEq)]
pub enum BackoffReason {
    RetryAfter,
    Primary,
    Secondary,
    RateLimit,
}

impl BackoffReason {
    pub fn label(&self) -> (r: &'static str)
        ensures
            r@ == (match *self {
                BackoffReason::RetryAfter => "retry-after"@,
                BackoffReason::Primary => "primary"@,
                BackoffReason::Secondary => "secondary"@,
                BackoffReason::RateLimit => "rate-limit"@,
            }),
    {
        match self {
            BackoffReason::RetryAfter => "retry-after",
            BackoffReason::Primary => "primary",
            BackoffReason::Secondary => "secondary",
            BackoffReason::RateLimit => "rate-limit",
        }
    }
}

/// How long to back off, in seconds, and why.
#[derive(Clone, Copy, Debug, Eq, PartialEq)]
pub struct RateLimitBackoff {
    pub delay: u128,
    pub reason: BackoffReason,
}

/// The back-off that a refusal calls for. GitHub's own word on when to come back
/// goes first, then an exhausted limit and the time of its reset, then what the
/// body says. Only statuses 403 and 429 tell of rate limits.
pub open spec fn backoff_for(
    status: u16,
    response: RefusedResponse,
    attempt: usize,
    now_epoch: u64,
) -> Option<RateLimitBackoff> {
    let body = text::lowered(response.body@);
    let reset = header_number(response.ratelimit_reset);
    if status != 403 && status != 429 {
        None
    } else if header_number(response.retry_after) is Some {
        Some(
            RateLimitBackoff {
                delay: header_number(response.retry_after)->0 as u128,
                reason: BackoffReason::RetryAfter,
            },
        )
    } else if header_number(response.ratelimit_remaining) == Some(0u64) && reset is Some {
        Some(
            RateLimitBackoff {
                delay: (if reset->0 > now_epoch {
                    reset->0 - now_epoch + 1
                } else {
                    1
                }) as u128,
                reason: BackoffReason::Primary,
            },
        )
    } else if text::has_part(body, "secondary rate limit"@) {
        Some(
            RateLimitBackoff {
                delay: secondary_seconds(attempt as nat) as u128,
                reason: BackoffReason::Secondary,
            },
        )
    } else if text::has_part(body, "rate limit"@) {
        Some(RateLimitBackoff { delay: 60, reason: BackoffReason::RateLimit })
    } else {
        None
    }
}

impl RateLimitBackoff {
    pub fn from_response(
        status: u16,
        response: &RefusedResponse,
        attempt: usize,
        now_epoch: u64,
    ) -> (r: Option<RateLimitBackoff>)
        ensures
            r == backoff_for(status, *response, attempt, now_epoch),
            r is Some ==> r->0.delay <= 0x1_0000_0000_0000_0000,
    {
        if status != 403 && status != 429 {
            return None;
        }
        if let Some(delay) = header_u64(&response.retry_after) {
            return Some(
                RateLimitBackoff { delay: delay as u128, reason: BackoffReason::RetryAfter },
            );
        }
        if let Some(0) = header_u64(&response.ratelimit_remaining) {
            if let Some(reset) = header_u64(&response.ratelimit_reset) {
                let delay: u128 = reset.saturating_sub(now_epoch) as u128 + 1;
                return Some(RateLimitBackoff { delay, reason: BackoffReason::Primary });
            }
        }
        let body = text::to_lower(response.body.as_str());
        if text::contains(body.as_str(), "secondary rate limit") {
            let delay: u128 = secondary_backoff(attempt) as u128;
            return Some(RateLimitBackoff { delay, reason: BackoffReason::Secondary });
        }
        if text::contains(body.as_str(), "rate limit") {
            return Some(RateLimitBackoff { delay: 60, reason: BackoffReason::RateLimit });
        }
        None
    }
}

// ---------------------------------------------------------------------------
// One request
// ---------------------------------------------------------------------------
/// What a request wants done next.
#[derive(Debug, Eq, PartialEq)]
pub enum RequestAction {
    /// There is nothing left to do.
    Nothing,
    /// Wait for a turn and send the request.
    Send,
    /// Read the headers and the body of a refusal.
    ReadRefusal,
    BackOff { backoff: RateLimitBackoff },
}

/// What came of it; `E` says why it failed.
#[derive(Debug, Eq, PartialEq)]
pub enum RequestReply<E> {
    Failed(E),
    /// The response's status: its code, and how it reads.
    Status { code: u16, status: String },
    /// The refusal, and the seconds since the epoch at which it was read.
    Refusal { response: RefusedResponse, now_epoch: u64 },
    BackedOff,
}

/// How a request ended.
#[derive(Debug, Eq, PartialEq)]
pub enum RequestEnd<E> {
    SendFailed(E),
    /// A success without a body.
    Empty,
    /// A success whose body is to be read.
    Body,
    StillRateLimited { body: String },
    Refused { status: String, body: String },
}

#[derive(Debug, Eq, PartialEq)]
pub enum RequestStage<E> {
    Send,
    ReadRefusal { code: u16, status: String },
    BackOff { backoff: RateLimitBackoff },
    Ended(RequestEnd<E>),
}

/// A request, which is sent again after a back-off as long as GitHub says that
/// the rate limit is reached.
#[derive(Debug, Eq, PartialEq)]
pub struct RequestRun<E> {
    pub attempt: usize,
    pub stage: RequestStage<E>,
}

impl<E> RequestRun<E> {
    pub open spec fn pending(self) -> RequestAction {
        match self.stage {
            RequestStage::Send => RequestAction::Send,
            RequestStage::ReadRefusal { .. } => RequestAction::ReadRefusal,
            RequestStage::BackOff { backoff } => RequestAction::BackOff { backoff },
            RequestStage::Ended(_) => RequestAction::Nothing,
        }
    }

    pub open spec fn after(self, reply: RequestReply<E>) -> RequestRun<E> {
        match (self.stage, reply) {
            (RequestStage::Send, RequestReply::Failed(error)) => RequestRun {
                stage: RequestStage::Ended(RequestEnd::SendFailed(error)),
                ..self
            },
            (RequestStage::Send, RequestReply::Status { code, status }) => RequestRun {
                stage: if code == 204 || code == 205 {
                    RequestStage::Ended(RequestEnd::Empty)
                } else if 200 <= code < 300 {
                    RequestStage::Ended(RequestEnd::Body)
                } else {
                    RequestStage::ReadRefusal { code, status }
                },
                ..self
            },
            (
                RequestStage::ReadRefusal { code, status },
                RequestReply::Refusal { response, now_epoch },
            ) => RequestRun {
                stage: match backoff_for(code, response, self.attempt, now_epoch) {
                    None => RequestStage::Ended(
                        RequestEnd::Refused { status, body: response.body },
                    ),
                    Some(backoff) => {
                        if self.attempt >= MAX_RATE_LIMIT_RETRIES {
                            RequestStage::Ended(
                                RequestEnd::StillRateLimited { body: response.body },
                            )
                        } else {
                            RequestStage::BackOff { backoff }
                        }
                    },
                },
                ..self
            },
            (RequestStage::BackOff { .. }, RequestReply::BackedOff) => {
                if self.attempt < MAX_RATE_LIMIT_RETRIES {
                    RequestRun { attempt: (self.attempt + 1) as usize, stage: RequestStage::Send }
                } else {
                    self
                }
            },
            _ => self,
        }
    }

    pub fn new() -> (r: RequestRun<E>)
        ensures
            r == (RequestRun::<E> { attempt: 0, stage: RequestStage::Send }),
    {
        RequestRun { attempt: 0, stage: RequestStage::Send }
    }

    pub fn action(&self) -> (r: RequestAction)
        ensures
            r == self.pending(),
    {
        match &self.stage {
            RequestStage::Send => RequestAction::Send,
            RequestStage::ReadRefusal { .. } => RequestAction::ReadRefusal,
            RequestStage::BackOff { backoff } => RequestAction::BackOff { backoff: *backoff },
            RequestStage::Ended(_) => RequestAction::Nothing,
        }
    }

    pub fn on_reply(self, reply: RequestReply<E>) -> (r: RequestRun<E>)
        ensures
            r == self.after(reply),
    {
        let attempt: usize = self.attempt;
        match (self.stage, reply) {
            (RequestStage::Send, RequestReply::Failed(error)) => {
                RequestRun { attempt, stage: RequestStage::Ended(RequestEnd::SendFailed(error)) }
            },
            (RequestStage::Send, RequestReply::Status { code, status }) => {
                let stage = if code == 204 || code == 205 {
                    RequestStage::Ended(RequestEnd::Empty)
                } else if 200 <= code && code < 300 {
                    RequestStage::Ended(RequestEnd::Body)
                } else {
                    RequestStage::ReadRefusal { code, status }
                };
                RequestRun { attempt, stage }
            },
            (
                RequestStage::ReadRefusal { code, status },
                RequestReply::Refusal { response, now_epoch },
            ) => {
                let stage = match RateLimitBackoff::from_response(
                    code,
                    &response,
                    attempt,
                    now_epoch,
                ) {
                    None => RequestStage::Ended(
                        RequestEnd::Refused { status, body: response.body },
                    ),
                    Some(backoff) => {
                        if attempt >= MAX_RATE_LIMIT_RETRIES {
                            RequestStage::Ended(
                                RequestEnd::StillRateLimited { body: response.body },
                            )
                        } else {
                            RequestStage::BackOff { backoff }
                        }
                    },
                };
                RequestRun { attempt, stage }
            },
            (RequestStage::BackOff { backoff }, RequestReply::BackedOff) => {
                if attempt < MAX_RATE_LIMIT_RETRIES {
                    RequestRun { attempt: attempt + 1, stage: RequestStage::Send }
                } else {
                    RequestRun { attempt, stage: RequestStage::BackOff { backoff } }
                }
            },
            (stage, _) => RequestRun { attempt, stage },
        }
    }
}

/// A request that has come through `replies`.
pub open spec fn request_over<E>(replies: Seq<RequestReply<E>>) -> RequestRun<E>
    decreases replies.len(),
{
    if replies.len() == 0 {
        RequestRun { attempt: 0, stage: RequestStage::Send }
    } else {
        request_over(replies.drop_last()).after(replies.last())
    }
}

/// How often a request was sent on the way through `replies`.
pub open spec fn sends_over<E>(replies: Seq<RequestReply<E>>) -> nat
    decreases replies.len(),
{
    if replies.len() == 0 {
        0
    } else {
        let earlier = replies.drop_last();
        let answered = request_over(earlier).stage is Send && (replies.last() is Failed
            || replies.last() is Status);
        sends_over(earlier) + (if answered {
            1nat
        } else {
            0
        })
    }
}

/// Whatever the replies: a request is sent once, and once more for each of at
/// most five back-offs.
pub proof fn law_requests_are_sent_at_most_six_times<E>(replies: Seq<RequestReply<E>>)
    ensures
        request_over(replies).attempt <= MAX_RATE_LIMIT_RETRIES,
        sends_over(replies) == request_over(replies).attempt + (if request_over(
            replies,
        ).stage is Send {
            0nat
        } else {
            1
        }),
        sends_over(replies) <= MAX_RATE_LIMIT_RETRIES + 1,
        request_over(replies).stage is BackOff ==> request_over(replies).attempt
            < MAX_RATE_LIMIT_RETRIES,
    decreases replies.len(),
{
    if replies.len() > 0 {
        law_requests_are_sent_at_most_six_times(replies.drop_last());
    }
}

impl<E> RequestEnd<E> {
    /// Why a request to `url` did not succeed, in words.
    pub open spec fn failure_text(self, method: Seq<char>, url: Seq<char>) -> Option<Seq<char>> {
        let request = method + " "@ + url;
        match self {
            RequestEnd::SendFailed(_) => Some(request + " failed"@),
            RequestEnd::Empty => None,
            RequestEnd::Body => None,
            RequestEnd::StillRateLimited { body } => Some(
                request + " still rate limited after 5 retries: "@ + body@,
            ),
            RequestEnd::Refused { status, body } => Some(
                request + " returned "@ + status@ + ": "@ + body@,
            ),
        }
    }

    pub fn failure(&self, method: &str, url: &str) -> (r: Option<String>)
        ensures
            text::opt_view(r) == self.failure_text(method@, url@),
    {
        let request = text::cat3(method, " ", url);
        match self {
            RequestEnd::SendFailed(_) => Some(text::cat2(request.as_str(), " failed")),
            RequestEnd::Empty => None,
            RequestEnd::Body => None,
            RequestEnd::StillRateLimited { body } => Some(
                text::cat3(
                    request.as_str(),
                    " still rate limited after 5 retries: ",
                    body.as_str(),
                ),
            ),
            RequestEnd::Refused { status, body } => Some(
                text::cat5(
                    request.as_str(),
                    " returned ",
                    status.as_str(),
                    ": ",
                    body.as_str(),
                ),
            ),
        }
    }
}

// ---------------------------------------------------------------------------
// What the limits come to
// ---------------------------------------------------------------------------
proof fn lemma_nearest(a: nat, b: nat)
    requires
        b > 0,
    ensures
        -(b as int) <= 2 * (nearest_even(a, b) * b - a) <= b,
{
    let q = a / b;
    let r = a % b;
    vstd::arithmetic::div_mod::lemma_fundamental_div_mod(a as int, b as int);
    assert(a == b * q + r && r < b);
    assert(q * b == b * q) by (nonlinear_arith);
    assert((q + 1) * b == b * q + b) by (nonlinear_arith);
}

proof fn lemma_scaled(num: nat, den: nat, rate: nat)
    requires
        num == 3600 * den,
        num > 0,
        rate > 0,
    ensures
        ({
            let (n, d) = scaled(num, den, rate);
            n == 3600 * d && n >= 0x10000000000000 * rate
        }),
    decreases 0x20000000000000 * rate - num,
{
    if num < 0x10000000000000 * rate {
        lemma_scaled(2 * num, 2 * den, rate);
    }
}

/// As many intervals as there are requests an hour make an hour, to within a
/// nanosecond for each.
pub proof fn law_intervals_make_an_hour(rate: nat)
    requires
        0 < rate,
    ensures
        -(rate as int) <= interval_of(rate) * rate - 3600 * 1000000000 <= rate,
{
    lemma_scaled(3600, 1, rate);
    let (num, den) = scaled(3600, 1, rate);
    let q = nearest_even(num, rate) as int;
    let billion: int = 1000000000;
    let i = interval_of(rate) as int;
    let r = rate as int;
    let d = den as int;
    assert(d >= billion);
    lemma_nearest(num, rate);
    lemma_nearest((q * billion) as nat, den);
    let x = i * d - q * billion;
    let y = q * r - num;
    assert(-r <= 2 * y <= r);
    assert(-d <= 2 * x <= d);
    let off = i * r - 3600 * billion;
    assert(r * x == r * (i * d) - r * (q * billion)) by (nonlinear_arith)
        requires
            x == i * d - q * billion,
    ;
    assert(off * d == (i * r) * d - (3600 * billion) * d) by (nonlinear_arith)
        requires
            off == i * r - 3600 * billion,
    ;
    assert((i * r) * d == r * (i * d)) by (nonlinear_arith);
    assert(r * (q * billion) == billion * (q * r)) by (nonlinear_arith);
    assert((3600 * billion) * d == billion * num);
    assert(off * d == r * x + billion * y);
    assert(-(r * d) <= 2 * (r * x) <= r * d) by (nonlinear_arith)
        requires
            -d <= 2 * x <= d,
            r > 0,
    ;
    assert(billion * r <= r * d) by (nonlinear_arith)
        requires
            billion <= d,
            r > 0,
    ;
    assert(-(r * d) <= off * d <= r * d);
    assert(-r <= off <= r) by (nonlinear_arith)
        requires
            -(r * d) <= off * d <= r * d,
            d > 0,
    ;
}

/// A request has its turn as soon as nothing stands against it: no back-off that is
/// still on, and no request less than an interval ago. Otherwise it waits for
/// exactly as long as that lasts.
pub proof fn law_turns_are_given_when_due(traffic: GitHubTraffic, now: u64, later: u64)
    ensures
        traffic.turn_at(now) <==> (traffic.backoff_until is None || traffic.backoff_until->0
            <= now) && (traffic.next_request_at is None || traffic.next_request_at->0 <= now),
        traffic.turn_at(now) <==> traffic.wait_at(now) == 0,
        traffic.wait_at(now) >= 0,
        traffic.backing_off(now) && later == now + traffic.wait_at(now) ==> !traffic.backing_off(
            later,
        ),
        traffic.backing_off(now) && now <= later < now + traffic.wait_at(now)
            ==> traffic.backing_off(later),
        !traffic.backing_off(now) && later == now + traffic.wait_at(now) ==> traffic.turn_at(
            later,
        ),
        !traffic.backing_off(now) && now <= later < now + traffic.wait_at(now)
            ==> !traffic.turn_at(later),
{
}

/// A request that has its turn puts the next one off by one interval; one that has
/// to wait changes nothing about when it is due. A back-off ends as late as the
/// latest that GitHub asked for.
pub proof fn law_what_turns_and_backoffs_change(traffic: GitHubTraffic, now: u64, seconds: u128)
    requires
        seconds <= 0x1_0000_0000_0000_0000,
    ensures
        traffic.turn_at(now) ==> traffic.asked(now).next_request_at == Some(
            (now + traffic.interval) as u128,
        ) && traffic.asked(now).backoff_until is None,
        !traffic.turn_at(now) ==> traffic.asked(now).next_request_at == traffic.next_request_at
            && traffic.asked(now).wait_at(now) == traffic.wait_at(now),
        traffic.asked(now).interval == traffic.interval,
        ({
            let told = traffic.told(now, seconds);
            let until = now + seconds * 1000000000;
            &&& told.interval == traffic.interval
            &&& told.next_request_at == traffic.next_request_at
            &&& told.backoff_until is Some
            &&& told.backoff_until->0 >= until
            &&& traffic.backoff_until is Some ==> told.backoff_until->0
                >= traffic.backoff_until->0
            &&& told.backoff_until->0 == until || told.backoff_until == traffic.backoff_until
        }),
{
    assert(now + seconds * 1000000000 <= u128::MAX) by (nonlinear_arith)
        requires
            now <= u64::MAX,
            seconds <= 0x1_0000_0000_0000_0000,
    ;
}

/// A header counts where it holds a number, and only then.
pub proof fn law_headers_hold_numbers(digits: String)
    ensures
        header_number(None) is None,
        header_number(Some(digits)) is Some <==> numeral::numeral_value(
            digits@,
            u64::MAX as nat,
        ) is Some,
        header_number(Some(digits)) matches Some(n) ==> numeral::numeral_value(
            digits@,
            u64::MAX as nat,
        ) == Some(n as nat),
{
}

/// The back-off from a secondary limit is a minute at first, and doubles with each
/// of the next four attempts.
pub proof fn law_secondary_backoff_doubles(attempt: nat)
    ensures
        secondary_seconds(0) == 60,
        attempt < 4 ==> secondary_seconds(attempt + 1) == 2 * secondary_seconds(attempt),
        attempt >= 4 ==> secondary_seconds(attempt) == 16 * 60,
{
    reveal_with_fuel(secondary_seconds, 6);
}

/// What a refusal calls for. No other status than 403 and 429 tells of a limit. Where
/// GitHub says when to come back, that is when; where the limit is used up, a second
/// after it is reset; where the text speaks of a secondary limit, after a growing
/// time; where it speaks of a limit at all, after a minute.
pub proof fn law_what_a_refusal_calls_for(
    status: u16,
    response: RefusedResponse,
    attempt: usize,
    now: u64,
)
    ensures
        ({
            let backoff = backoff_for(status, response, attempt, now);
            let after = header_number(response.retry_after);
            let spent = header_number(response.ratelimit_remaining) == Some(0u64);
            let reset = header_number(response.ratelimit_reset);
            let body = text::lowered(response.body@);
            let limited = status == 403 || status == 429;
            let told = after is Some || (spent && reset is Some);
            &&& !limited ==> backoff is None
            &&& limited && after is Some ==> backoff == Some(
                RateLimitBackoff { delay: after->0 as u128, reason: BackoffReason::RetryAfter },
            )
            &&& limited && after is None && spent && reset is Some ==> {
                &&& backoff is Some && (backoff->0).reason == BackoffReason::Primary
                &&& reset->0 > now ==> (backoff->0).delay == reset->0 - now + 1
                &&& reset->0 <= now ==> (backoff->0).delay == 1
            }
            &&& limited && !told && text::has_part(body, "secondary rate limit"@) ==> backoff
                == Some(
                RateLimitBackoff {
                    delay: secondary_seconds(attempt as nat) as u128,
                    reason: BackoffReason::Secondary,
                },
            )
            &&& limited && !told && !text::has_part(body, "secondary rate limit"@)
                && text::has_part(body, "rate limit"@) ==> backoff == Some(
                RateLimitBackoff { delay: 60, reason: BackoffReason::RateLimit },
            )
            &&& limited && !told && !text::has_part(body, "secondary rate limit"@)
                && !text::has_part(body, "rate limit"@) ==> backoff is None
        }),
{
}

/// A request that succeeds has its body read, unless its status says that there is
/// none. One that is refused without a limit ends with the refusal. One that is
/// limited is sent again after the back-off, up to five times.
pub proof fn law_course_of_a_request<E>(
    run: RequestRun<E>,
    code: u16,
    status: String,
    response: RefusedResponse,
    now_epoch: u64,
    error: E,
)
    ensures
        run.stage is Send ==> {
            let answered = run.after(RequestReply::Status { code, status });
            let refused = answered.after(RequestReply::Refusal { response, now_epoch });
            let backoff = backoff_for(code, response, run.attempt, now_epoch);
            &&& run.pending() == RequestAction::Send
            &&& run.after(RequestReply::Failed(error)).stage == RequestStage::<E>::Ended(
                RequestEnd::SendFailed(error),
            )
            &&& code == 204 || code == 205 ==> answered.stage == RequestStage::<E>::Ended(
                RequestEnd::Empty,
            )
            &&& 200 <= code <= 299 && code != 204 && code != 205 ==> answered.stage
                == RequestStage::<E>::Ended(RequestEnd::Body)
            &&& code < 200 || code > 299 ==> {
                &&& answered.pending() == RequestAction::ReadRefusal
                &&& backoff is None ==> refused.stage == RequestStage::<E>::Ended(
                    RequestEnd::Refused { status, body: response.body },
                )
                &&& backoff is Some && run.attempt < 5 ==> {
                    &&& refused.pending() == (RequestAction::BackOff { backoff: backoff->0 })
                    &&& refused.after(RequestReply::BackedOff) == (RequestRun::<E> {
                        attempt: (run.attempt + 1) as usize,
                        stage: RequestStage::Send,
                    })
                }
                &&& backoff is Some && run.attempt >= 5 ==> refused.stage
                    == RequestStage::<E>::Ended(
                    RequestEnd::StillRateLimited { body: response.body },
                )
            }
        },
{
}

/// A failure names the request, and says what came of it.
pub proof fn law_failures_name_the_request<E>(
    end: RequestEnd<E>,
    method: Seq<char>,
    url: Seq<char>,
)
    ensures
        end is Empty || end is Body <==> end.failure_text(method, url) is None,
        end.failure_text(method, url) matches Some(said) ==> text::has_prefix(
            said,
            method + seq![' '] + url,
        ),
        end matches RequestEnd::Refused { status, body } ==> end.failure_text(method, url) == Some(
            method + " "@ + url + " returned "@ + status@ + ": "@ + body@,
        ),
{
    reveal_strlit(" ");
    assert(" "@ =~= seq![' ']);
    let request = method + seq![' '] + url;
    if let Some(said) = end.failure_text(method, url) {
        assert(said.take(request.len() as int) =~= request);
    }
}

/// A request goes on only with a reply to what it asked for, and once it has ended
/// nothing changes it.
pub proof fn law_requests_go_on_with_answers_only<E>(run: RequestRun<E>, reply: RequestReply<E>)
    ensures
        run.stage is Ended ==> run.after(reply) == run && run.pending() is Nothing,
        run.stage is Send && !(reply is Failed || reply is Status) ==> run.after(reply) == run,
        run.stage is ReadRefusal && reply !is Refusal ==> run.after(reply) == run,
        run.stage is BackOff && reply !is BackedOff ==> run.after(reply) == run,
{
}

/// A quotient is rounded to the nearest whole number, and a tie to the even one.
pub proof fn law_quotients_are_rounded_to_even(a: nat, b: nat)
    requires
        b > 0,
    ensures
        ({
            let off = 2 * (nearest_even(a, b) * b - a);
            &&& -(b as int) <= off <= b
            &&& off == b || off == -(b as int) ==> nearest_even(a, b) % 2 == 0
        }),
{
    let q = (a / b) as int;
    let rest = (a % b) as int;
    assert(a == b * q + rest) by {
        vstd::arithmetic::div_mod::lemma_fundamental_div_mod(a as int, b as int);
    }
    assert(q * b == b * q) by (nonlinear_arith);
    assert((q + 1) * b == b * q + b) by (nonlinear_arith);
}

/// A fraction is scaled by a power of two, which leaves it what it is, until its
/// quotient by the rate has fifty-three binary places.
pub proof fn law_fractions_are_scaled_up(num: nat, den: nat, rate: nat)
    requires
        0 < num < 0x20000000000000 * rate,
    ensures
        ({
            let (n, d) = scaled(num, den, rate);
            &&& n * den == d * num
            &&& 0x10000000000000 * rate <= n < 0x20000000000000 * rate
        }),
    decreases 0x20000000000000 * rate - num,
{
    if num < 0x10000000000000 * rate {
        law_fractions_are_scaled_up(2 * num, 2 * den, rate);
        let (n, d) = scaled(num, den, rate);
        assert(n * den == d * num) by (nonlinear_arith)
            requires
                n * (2 * den) == d * (2 * num),
        ;
    } else {
        assert(num * den == den * num) by (nonlinear_arith);
    }
}

/// A request is sent once and, as long as it is refused for its rate alone, five
/// times more; it then ends. Unless something else is configured, there are 1200
/// requests an hour, and notifications of the last four days count.
pub proof fn law_requests_are_repeated_five_times<E>(
    replies: Seq<RequestReply<E>>,
    run: RequestRun<E>,
    response: RefusedResponse,
    now_epoch: u64,
)
    requires
        run.stage matches RequestStage::ReadRefusal { code, .. } && backoff_for(
            code,
            response,
            run.attempt,
            now_epoch,
        ) is Some,
    ensures
        sends_over(replies) <= 6,
        run.attempt < 5 ==> run.after(RequestReply::Refusal { response, now_epoch }).pending()
            is BackOff,
        run.attempt >= 5 ==> run.after(RequestReply::Refusal { response, now_epoch }).stage == (
        RequestStage::<E>::Ended(RequestEnd::StillRateLimited { body: response.body })),
        DEFAULT_GITHUB_API_REQUESTS_PER_HOUR == 1200,
        DEFAULT_GITHUB_NOTIFICATION_WINDOW_HOURS == 4 * 24,
{
    law_requests_are_sent_at_most_six_times(replies);
}

/// Notifications may be asked for once their time has come, and until then one waits
/// for as long as that takes.
pub proof fn law_when_notifications_may_be_asked_for(
    polling: &NotificationPolling,
    now: u64,
    r: u128,
)
    requires
        call_ensures(NotificationPolling::wait_until_allowed, (polling, now), r),
    ensures
        polling.next_allowed_at is None ==> r == 0,
        polling.next_allowed_at matches Some(next) ==> (next <= now ==> r == 0) && (next > now
            ==> now + r == next),
{
}

/// Each reason to back off has its own name.
pub proof fn law_reasons_have_names(reason: &BackoffReason, r: &'static str)
    requires
        call_ensures(BackoffReason::label, (reason,), r),
    ensures
        *reason is RetryAfter ==> r@ == "retry-after"@,
        *reason is Primary ==> r@ == "primary"@,
        *reason is Secondary ==> r@ == "secondary"@,
        *reason is RateLimit ==> r@ == "rate-limit"@,
{
}

/// Traffic begins with nothing to wait for, at the interval of its rate.
pub proof fn law_how_traffic_begins(rate: GitHubApiRequestRate, r: GitHubTraffic, now: u64)
    requires
        call_ensures(GitHubTraffic::new, (rate,), r),
    ensures
        r.turn_at(now),
        r.wait_at(now) == 0,
        r.interval == interval_of(rate.rate() as nat),
{
}

/// Any rate but zero is a rate, and any window but none is a window.
pub proof fn law_which_rates_and_windows_there_are(
    n: u32,
    rate: Result<GitHubApiRequestRate, GitHubError>,
    window: Result<GitHubNotificationWindow, GitHubError>,
)
    requires
        call_ensures(GitHubApiRequestRate::per_hour, (n,), rate),
        call_ensures(GitHubNotificationWindow::hours, (n,), window),
    ensures
        rate is Ok <==> n > 0,
        window is Ok <==> n > 0,
        rate matches Ok(given) ==> given.rate() == n,
        window matches Ok(given) ==> given.length() == n,
        n == 0 ==> rate == Err::<GitHubApiRequestRate, GitHubError>(GitHubError::ZeroRequestRate),
        n == 0 ==> window == Err::<GitHubNotificationWindow, GitHubError>(
            GitHubError::ZeroNotificationWindow,
        ),
{
}

/// GitHub says how many seconds to leave between two looks at the notifications; where
/// it does not say, what it said before still counts.
pub proof fn law_how_often_notifications_are_asked_for(now: u64, header: &Option<String>)
    ensures
        forall|polling: &mut NotificationPolling| #[trigger]
            call_ensures(NotificationPolling::record_headers, (polling, now, header), ()) ==> {
                &&& header_number(*header) is None ==> (*final(polling)).next_allowed_at
                    == (*polling).next_allowed_at
                &&& header_number(*header) matches Some(seconds) ==> (*final(polling)).next_allowed_at == Some((now + seconds * 1000000000) as u128)
            },
{
}

/// A request that has to wait is told for how long, and leaves the traffic open for
/// the next one; one that has its turn pushes the next turn back by an interval.
pub proof fn law_what_asking_for_a_turn_does(now: u64, seconds: u128)
    ensures
        forall|traffic: &mut GitHubTraffic, r: u128| #[trigger]
            call_ensures(GitHubTraffic::wait_for_turn, (traffic, now), r) ==> {
                &&& r == 0 <==> (*traffic).turn_at(now)
                &&& r == (*traffic).wait_at(now)
                &&& *final(traffic) == (*traffic).asked(now)
            },
        forall|traffic: &mut GitHubTraffic| #[trigger]
            call_ensures(GitHubTraffic::back_off, (traffic, now, seconds), ()) ==> *final(traffic)
                == (*traffic).told(now, seconds),
{
}

} // verus!
