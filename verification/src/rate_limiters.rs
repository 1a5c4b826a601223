//! Rate limiters for request and token throughput within one-minute
//! windows.
//!
//! Whether a request is admitted is decided by [`admit_request`] and
//! [`admit_tokens`] from the count seen before it; the window clock and the
//! shared counters are read through the trusted wrappers below. The
//! asynchronous limiter interface lives with the application.

use crate::errors::ChainError;
use crate::json_splitters::{decimal, decimal_chars};
use crate::text::string_from_chars;
use vstd::prelude::*;

verus! {

#[verifier::external_type_specification]
#[verifier::external_body]
pub struct ExInstant(std::time::Instant);

#[verifier::external_type_specification]
#[verifier::external_body]
#[verifier::reject_recursive_types(T)]
pub struct ExRwLock<T: ?Sized>(std::sync::RwLock<T>);

/// A window start stamped now (`std::time::Instant::now` behind a lock).
///
/// Claimed of std: nothing; the instant depends on the clock.
#[verifier::external_body]
fn window_starting_now() -> std::sync::Arc<std::sync::RwLock<std::time::Instant>> {
    std::sync::Arc::new(std::sync::RwLock::new(std::time::Instant::now()))
}

/// The whole seconds passed since the window start (`Instant::elapsed`
/// read under the lock, then `Duration::as_secs`; a poisoned lock panics,
/// as it does in the unwrapping reader).
///
/// Claimed of std: nothing; the answer depends on the clock.
#[verifier::external_body]
fn window_elapsed_secs(start: &std::sync::RwLock<std::time::Instant>) -> u64 {
    start.read().unwrap().elapsed().as_secs()
}

/// The length of a window, in seconds.
pub const WINDOW_SECONDS: u64 = 60;

/// Whether a window that has run `elapsed_secs` whole seconds is over: it
/// lasts one minute.
pub fn window_over(elapsed_secs: u64) -> (b: bool)
    ensures
        b == (elapsed_secs >= WINDOW_SECONDS),
{
    elapsed_secs >= WINDOW_SECONDS
}

/// Restarts the window at the current instant.
///
/// Claimed of std: nothing; the instant depends on the clock.
#[verifier::external_body]
fn restart_window(start: &std::sync::RwLock<std::time::Instant>) {
    *start.write().unwrap() = std::time::Instant::now();
}

/// The message of a refused request: `Exceeded <limit> <unit> per minute`.
pub open spec fn exceeded_message(limit: nat, unit: Seq<char>) -> Seq<char> {
    "Exceeded "@ + decimal(limit) + " "@ + unit + " per minute"@
}

/// The refusal message for a limit held as a machine integer.
pub open spec fn refusal_message(limit: usize, unit: Seq<char>) -> Seq<char> {
    exceeded_message(limit as nat, unit)
}

/// Builds the refusal message for `limit` and `unit`.
fn exceeded(limit: usize, unit: &str) -> (res: String)
    ensures
        res@ == exceeded_message(limit as nat, unit@),
{
    let mut s = String::from_str("Exceeded ");
    let d = decimal_chars(limit);
    let ds = string_from_chars(d.as_slice());
    s.append(ds.as_str());
    s.append(" ");
    s.append(unit);
    s.append(" per minute");
    s
}

/// Whether a request is admitted after `seen` earlier requests in the
/// window: admitted while `seen` is below `limit`, otherwise refused with a
/// rate-limit error.
pub fn admit_request(seen: usize, limit: usize) -> (res: Result<(), ChainError>)
    ensures
        seen < limit <==> res is Ok,
        seen >= limit ==> (res matches Err(ChainError::RateLimitError(m)) && m@ == exceeded_message(limit as nat, "requests"@)),
{
    if seen >= limit {
        Err(ChainError::RateLimitError(exceeded(limit, "requests")))
    } else {
        Ok(())
    }
}

/// Whether `count` tokens are admitted after `seen` earlier tokens in the
/// window: admitted while the total stays within `limit`, otherwise
/// refused with a rate-limit error.
pub fn admit_tokens(seen: usize, count: usize, limit: usize) -> (res: Result<(), ChainError>)
    ensures
        seen + count <= limit <==> res is Ok,
        seen + count > limit ==> (res matches Err(ChainError::RateLimitError(m)) && m@ == exceeded_message(limit as nat, "tokens"@)),
{
    if seen > limit || count > limit - seen {
        Err(ChainError::RateLimitError(exceeded(limit, "tokens")))
    } else {
        Ok(())
    }
}

/// Limits requests to a number per one-minute window.
#[derive(Debug)]
pub struct InMemoryRateLimiter {
    /// Requests admitted per minute.
    pub requests_per_minute: usize,
    current_count: std::sync::Arc<std::sync::atomic::AtomicUsize>,
    window_start: std::sync::Arc<std::sync::RwLock<std::time::Instant>>,
}

impl InMemoryRateLimiter {
    /// The requests admitted per minute.
    pub closed spec fn limit(&self) -> usize {
        self.requests_per_minute
    }

    /// Creates a limiter admitting `requests_per_minute` requests per
    /// window, with the window starting now.
    pub fn new(requests_per_minute: usize) -> (res: Self)
        ensures
            res.limit() == requests_per_minute,
    {
        InMemoryRateLimiter {
            requests_per_minute,
            current_count: std::sync::Arc::new(std::sync::atomic::AtomicUsize::new(0)),
            window_start: window_starting_now(),
        }
    }

    /// Counts a request: when the window has run a minute it restarts with
    /// a zero count; the request is then admitted if fewer than the limit
    /// were counted before it in the window (see [`admit_request`]).
    /// Which count a call sees depends on the clock and on concurrent
    /// calls, so only the shape of the answer is promised here.
    pub fn try_acquire(&self) -> (res: Result<(), ChainError>)
        ensures
            res matches Err(e) ==> (e matches ChainError::RateLimitError(m)
                && m@ == refusal_message(self.limit(), "requests"@)),
            self.limit() == 0 ==> res is Err,
    {
        if window_over(window_elapsed_secs(&self.window_start)) {
            restart_window(&self.window_start);
            self.current_count.store(0, std::sync::atomic::Ordering::SeqCst);
        }
        let seen = self.current_count.fetch_add(1, std::sync::atomic::Ordering::SeqCst);
        admit_request(seen, self.requests_per_minute)
    }

    /// Clears the count and restarts the window.
    pub fn reset_now(&self) {
        self.current_count.store(0, std::sync::atomic::Ordering::SeqCst);
        restart_window(&self.window_start);
    }
}

/// Limits tokens to a number per one-minute window.
#[derive(Debug)]
pub struct TokenRateLimiter {
    /// Tokens admitted per minute.
    pub tokens_per_minute: usize,
    current_tokens: std::sync::Arc<std::sync::atomic::AtomicUsize>,
    window_start: std::sync::Arc<std::sync::RwLock<std::time::Instant>>,
}

impl TokenRateLimiter {
    /// The tokens admitted per minute.
    pub closed spec fn limit(&self) -> usize {
        self.tokens_per_minute
    }

    /// Creates a limiter admitting `tokens_per_minute` tokens per window,
    /// with the window starting now.
    pub fn new(tokens_per_minute: usize) -> (res: Self)
        ensures
            res.limit() == tokens_per_minute,
    {
        TokenRateLimiter {
            tokens_per_minute,
            current_tokens: std::sync::Arc::new(std::sync::atomic::AtomicUsize::new(0)),
            window_start: window_starting_now(),
        }
    }

    /// Counts `count` tokens: when the window has run a minute it restarts
    /// with a zero count; the tokens are then admitted if the window's
    /// total including them stays within the limit (see [`admit_tokens`]).
    /// Which total a call sees depends on the clock and on concurrent
    /// calls, so only the shape of the answer is promised here.
    pub fn add_tokens(&self, count: usize) -> (res: Result<(), ChainError>)
        ensures
            res matches Err(e) ==> (e matches ChainError::RateLimitError(m)
                && m@ == refusal_message(self.limit(), "tokens"@)),
            count > self.limit() ==> res is Err,
    {
        if window_over(window_elapsed_secs(&self.window_start)) {
            restart_window(&self.window_start);
            self.current_tokens.store(0, std::sync::atomic::Ordering::SeqCst);
        }
        let seen = self.current_tokens.fetch_add(count, std::sync::atomic::Ordering::SeqCst);
        admit_tokens(seen, count, self.tokens_per_minute)
    }

    /// Clears the count and restarts the window.
    pub fn reset_now(&self) {
        self.current_tokens.store(0, std::sync::atomic::Ordering::SeqCst);
        restart_window(&self.window_start);
    }
}

} // verus!
