//! Retries while the tray host is not up yet, with exponential backoff.

use vstd::prelude::*;

verus! {

/// Maximum number of attempts to connect to the tray host.
pub const TRAY_MAX_RETRIES: u32 = 10;

/// Initial retry delay in seconds; it doubles with each attempt.
pub const TRAY_INITIAL_DELAY_SECS: u64 = 1;

/// Longest retry delay, in seconds.
pub const TRAY_MAX_DELAY_SECS: u64 = 10;

/// What to do after a failed attempt.
#[derive(Debug, Clone, Copy, PartialEq, Eq, Structural)]
pub enum RetryStep {
    /// Wait this many seconds, then try again.
    Wait(u64),
    /// Continue without a tray.
    GiveUp,
}

/// The delay after the `attempt`-th attempt, counted from one.
pub open spec fn backoff(attempt: nat) -> nat
    decreases attempt,
{
    if attempt <= 1 {
        TRAY_INITIAL_DELAY_SECS as nat
    } else if 2 * backoff((attempt - 1) as nat) <= TRAY_MAX_DELAY_SECS {
        2 * backoff((attempt - 1) as nat)
    } else {
        TRAY_MAX_DELAY_SECS as nat
    }
}

/// Delays start at the initial delay, never shrink, and never exceed the longest
/// delay; each is twice the one before, or the longest delay.
pub proof fn law_backoff(attempt: nat)
    requires
        attempt >= 1,
    ensures
        backoff(1) == TRAY_INITIAL_DELAY_SECS,
        TRAY_INITIAL_DELAY_SECS <= backoff(attempt) <= backoff(attempt + 1) <= TRAY_MAX_DELAY_SECS,
        backoff(attempt + 1) == 2 * backoff(attempt) || backoff(attempt + 1)
            == TRAY_MAX_DELAY_SECS,
    decreases attempt,
{
    if attempt > 1 {
        law_backoff((attempt - 1) as nat);
    }
}

/// The attempts to start the tray.
#[derive(Debug)]
pub struct TrayRetry {
    attempt: u32,
    delay: u64,
}

impl TrayRetry {
    /// The number of the attempt that is due or under way, counted from one.
    pub closed spec fn number(self) -> nat {
        self.attempt as nat
    }

    /// The attempt is one of those allowed, and the delay is the one that
    /// follows it.
    pub closed spec fn well_formed(self) -> bool {
        &&& 1 <= self.attempt <= TRAY_MAX_RETRIES
        &&& self.delay == backoff(self.attempt as nat)
    }

    /// Before the first attempt.
    pub fn new() -> (retry: Self)
        ensures
            retry.well_formed(),
            retry.number() == 1,
    {
        TrayRetry { attempt: 1, delay: TRAY_INITIAL_DELAY_SECS }
    }

    /// The number of the attempt that is due or under way, counted from one.
    pub fn attempt(&self) -> (attempt: u32)
        requires
            self.well_formed(),
        ensures
            attempt == self.number(),
            1 <= attempt <= TRAY_MAX_RETRIES,
    {
        self.attempt
    }

    /// Take note that the attempt failed, and tell what to do next.
    pub fn failed(&mut self) -> (step: RetryStep)
        requires
            old(self).well_formed(),
        ensures
            final(self).well_formed(),
            step is GiveUp <==> old(self).number() == TRAY_MAX_RETRIES,
            step is GiveUp ==> final(self).number() == old(self).number(),
            step matches RetryStep::Wait(seconds) ==> seconds == backoff(old(self).number())
                && final(self).number() == old(self).number() + 1,
    {
        if self.attempt == TRAY_MAX_RETRIES {
            return RetryStep::GiveUp;
        }
        let seconds: u64 = self.delay;
        proof {
            law_backoff(self.attempt as nat);
        }
        self.attempt = self.attempt + 1;
        self.delay = if seconds * 2 <= TRAY_MAX_DELAY_SECS {
            seconds * 2
        } else {
            TRAY_MAX_DELAY_SECS
        };
        RetryStep::Wait(seconds)
    }
}

/// The first nine failures are followed by waits of 1, 2, 4, 8 and then five times
/// 10 seconds; after the tenth the tray is given up.
pub proof fn law_retries(retry: &mut TrayRetry, step: RetryStep, attempt: u32)
    requires
        call_ensures(TrayRetry::failed, (retry,), step),
        call_ensures(TrayRetry::attempt, (&*old(retry),), attempt),
        old(retry).well_formed(),
    ensures
        call_requires(TrayRetry::failed, (retry,)),
        call_requires(TrayRetry::attempt, (&*old(retry),)),
        attempt == old(retry).number(),
        1 <= attempt <= 10,
        attempt == 1 ==> step == RetryStep::Wait(1),
        attempt == 2 ==> step == RetryStep::Wait(2),
        attempt == 3 ==> step == RetryStep::Wait(4),
        attempt == 4 ==> step == RetryStep::Wait(8),
        5 <= attempt <= 9 ==> step == RetryStep::Wait(10),
        attempt == 10 ==> step == RetryStep::GiveUp,
        attempt < 10 ==> final(retry).well_formed() && final(retry).number() == attempt + 1,
{
    reveal_with_fuel(backoff, 11);
}

/// The attempts are counted from one.
pub proof fn law_first_attempt(retry: TrayRetry)
    requires
        call_ensures(TrayRetry::new, (), retry),
    ensures
        call_requires(TrayRetry::new, ()),
        retry.well_formed(),
        retry.number() == 1,
{
}

} // verus!
