//! Retrying with exponential backoff: how long to wait after each failed
//! attempt.
//!
//! The runnable being retried is asynchronous and the waiting is a sleep;
//! both live with the application, which asks here after each failure
//! whether to try again and how long to wait first.

use vstd::prelude::*;

verus! {

/// Two to the power `e`.
pub open spec fn two_pow(e: nat) -> nat
    decreases e,
{
    if e == 0 {
        1
    } else {
        2 * two_pow((e - 1) as nat)
    }
}

/// A uniformly random number below `bound`, from `rand::thread_rng` and
/// `rand::Rng::gen_range`.
///
/// Claimed of the crate: the number is below `bound` (the range is not
/// empty, so `gen_range` does not panic). Which number comes is left
/// unstated: it is random.
#[verifier::external_body]
fn random_below(bound: u64) -> (r: u64)
    requires
        bound > 0,
    ensures
        r < bound,
{
    rand::Rng::gen_range(&mut rand::thread_rng(), 0..bound)
}

/// The retry settings of a runnable: how many times a failure is retried
/// and the base of the exponential backoff, in milliseconds.
#[derive(Debug, Clone, Copy)]
pub struct RunnableRetry {
    /// How many retries follow the first attempt.
    pub max_retries: usize,
    /// The delay before the first retry, before jitter, in milliseconds.
    pub base_delay_ms: u64,
}

/// The jitter bound: the base delay, at least one millisecond.
pub open spec fn jitter_bound(base_delay_ms: u64) -> nat {
    if base_delay_ms == 0 {
        1
    } else {
        base_delay_ms as nat
    }
}

impl RunnableRetry {
    /// Retry settings.
    pub fn new(max_retries: usize, base_delay_ms: u64) -> (res: Self)
        ensures
            res.max_retries == max_retries,
            res.base_delay_ms == base_delay_ms,
    {
        RunnableRetry { max_retries, base_delay_ms }
    }

    /// After failed attempt `attempt` (counting from zero), the delay before
    /// the next attempt with the given jitter: the base delay doubled once
    /// per earlier attempt, plus the jitter; `None` when no retry is left.
    pub fn backoff_delay(&self, attempt: usize, jitter: u64) -> (res: Option<u64>)
        requires
            attempt < self.max_retries ==> self.base_delay_ms * two_pow(attempt as nat) + jitter <= u64::MAX,
        ensures
            attempt >= self.max_retries ==> res is None,
            attempt < self.max_retries ==> res == Some((self.base_delay_ms * two_pow(attempt as nat) + jitter) as u64),
    {
        if attempt >= self.max_retries {
            return None;
        }
        let mut d: u64 = self.base_delay_ms;
        let mut i: usize = 0;
        proof {
            lemma_two_pow_grows(self.base_delay_ms as nat, 0, attempt as nat);
            assert(two_pow(0) == 1);
            assert(self.base_delay_ms * two_pow(0) == self.base_delay_ms);
        }
        while i < attempt
            invariant
                i <= attempt,
                d == self.base_delay_ms * two_pow(i as nat),
                self.base_delay_ms * two_pow(attempt as nat) + jitter <= u64::MAX,
            decreases attempt - i,
        {
            proof {
                lemma_two_pow_grows(self.base_delay_ms as nat, (i + 1) as nat, attempt as nat);
                assert(self.base_delay_ms * two_pow((i + 1) as nat) == 2 * (self.base_delay_ms * two_pow(i as nat))) by (nonlinear_arith)
                    requires two_pow((i + 1) as nat) == 2 * two_pow(i as nat);
            }
            d = d * 2;
            i += 1;
        }
        Some(d + jitter)
    }

    /// After failed attempt `attempt`, the delay before the next attempt
    /// with a random jitter below `bound`; `None` when no retry is left.
    pub fn next_delay_below(&self, attempt: usize, bound: u64) -> (res: Option<u64>)
        requires
            bound > 0,
            attempt < self.max_retries ==> self.base_delay_ms * two_pow(attempt as nat) + bound <= u64::MAX,
        ensures
            attempt >= self.max_retries ==> res is None,
            attempt < self.max_retries ==> (res matches Some(d) && self.base_delay_ms * two_pow(attempt as nat) <= d
                < self.base_delay_ms * two_pow(attempt as nat) + bound),
    {
        if attempt >= self.max_retries {
            return None;
        }
        let jitter = random_below(bound);
        self.backoff_delay(attempt, jitter)
    }

    /// After failed attempt `attempt`, the delay before the next attempt
    /// with a random jitter below the base delay (at least one
    /// millisecond); `None` when no retry is left.
    pub fn next_delay(&self, attempt: usize) -> (res: Option<u64>)
        requires
            attempt < self.max_retries ==> self.base_delay_ms * two_pow(attempt as nat) + jitter_bound(self.base_delay_ms) <= u64::MAX,
        ensures
            attempt >= self.max_retries ==> res is None,
            attempt < self.max_retries ==> (res matches Some(d) && self.base_delay_ms * two_pow(attempt as nat) <= d
                < self.base_delay_ms * two_pow(attempt as nat) + jitter_bound(self.base_delay_ms)),
    {
        let bound = if self.base_delay_ms == 0 {
            1
        } else {
            self.base_delay_ms
        };
        self.next_delay_below(attempt, bound)
    }
}

/// Doubling is monotone: a smaller exponent gives no more.
proof fn lemma_two_pow_grows(b: nat, i: nat, j: nat)
    requires
        i <= j,
    ensures
        b * two_pow(i) <= b * two_pow(j),
        two_pow(i) >= 1,
    decreases j - i,
{
    if i < j {
        lemma_two_pow_grows(b, (i + 1) as nat, j);
        assert(b * two_pow((i + 1) as nat) == 2 * (b * two_pow(i))) by (nonlinear_arith)
            requires two_pow((i + 1) as nat) == 2 * two_pow(i);
        assert(b * two_pow(i) <= b * two_pow((i + 1) as nat)) by (nonlinear_arith)
            requires b * two_pow((i + 1) as nat) == 2 * (b * two_pow(i));
    } else {
        lemma_two_pow_positive(i);
    }
}

/// Powers of two are positive.
proof fn lemma_two_pow_positive(e: nat)
    ensures
        two_pow(e) >= 1,
    decreases e,
{
    if e > 0 {
        lemma_two_pow_positive((e - 1) as nat);
    }
}

/// Each retry waits at least twice as long as the one before, jitter
/// aside: the backoff grows exponentially.
pub proof fn law_backoff_doubles(base_delay_ms: u64, attempt: nat)
    ensures
        base_delay_ms * two_pow(attempt + 1) == 2 * (base_delay_ms * two_pow(attempt)),
{
    assert(two_pow(attempt + 1) == 2 * two_pow(attempt));
    assert(base_delay_ms * two_pow(attempt + 1) == 2 * (base_delay_ms * two_pow(attempt))) by (nonlinear_arith)
        requires two_pow(attempt + 1) == 2 * two_pow(attempt);
}

} // verus!
