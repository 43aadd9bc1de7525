//! The retry policy for flaky filesystem operations: a fixed backoff
//! schedule absorbs transient failures (files briefly held open by other
//! processes) before a failure is promoted to fatal. The caller performs
//! the operation and the sleeping; this module decides the delays and
//! words the final error.

use vstd::prelude::*;

use crate::chars::{append_chars, chars_to_string, dec_rep, str_to_chars, u64_to_dec_chars};

verus! {

/// How many times a flaky operation is retried before giving up.
pub const RETRY_ATTEMPTS: u64 = 14;

/// The backoff schedule: how long to wait, in milliseconds, after failed
/// try number `tries` (counted from zero), or nothing once the schedule is
/// exhausted and the failure is final.
pub open spec fn spec_retry_delay(tries: int) -> Option<int> {
    if tries == 0 {
        Some(0)
    } else if tries == 1 {
        Some(1)
    } else if tries == 2 {
        Some(10)
    } else if tries == 3 {
        Some(100)
    } else if 4 <= tries < RETRY_ATTEMPTS as int {
        Some(1000)
    } else {
        None
    }
}

/// The delay before the next retry, or `None` when the schedule is spent
/// and the operation's error is final.
pub fn retry_delay(tries: u64) -> (r: Option<u64>)
    ensures
        match r {
            Some(ms) => spec_retry_delay(tries as int) == Some(ms as int),
            None => spec_retry_delay(tries as int) is None,
        },
{
    if tries == 0 {
        Some(0)
    } else if tries == 1 {
        Some(1)
    } else if tries == 2 {
        Some(10)
    } else if tries == 3 {
        Some(100)
    } else if tries < RETRY_ATTEMPTS {
        Some(1000)
    } else {
        None
    }
}

/// The message a retried operation fails with once the schedule is spent.
pub fn retry_exhausted_message(tries: u64, cause: &str) -> (r: String)
    ensures
        r@ == "failed after "@ + dec_rep(tries as nat) + " tries: "@ + cause@,
{
    let mut out: Vec<char> = Vec::new();
    let a = str_to_chars("failed after ");
    append_chars(&mut out, &a);
    let n = u64_to_dec_chars(tries);
    append_chars(&mut out, &n);
    let b = str_to_chars(" tries: ");
    append_chars(&mut out, &b);
    let c = str_to_chars(cause);
    append_chars(&mut out, &c);
    chars_to_string(&out)
}

/// Re-runs a fallible operation against the backoff schedule: each failure
/// waits out the schedule's next delay (performed by `on_wait`), and once
/// the schedule is spent the last error is surfaced with the number of
/// tries made.
pub fn retry<T, E, F: Fn() -> Result<T, E>, S: Fn(u64)>(func: F, on_wait: S) -> (r: Result<
    T,
    (u64, E),
>)
    requires
        call_requires(func, ()),
        forall|ms: u64| call_requires(on_wait, (ms,)),
    ensures
        match r {
            Ok(v) => call_ensures(func, (), Ok(v)),
            Err((tries, e)) => tries == RETRY_ATTEMPTS && call_ensures(func, (), Err(e)),
        },
{
    let mut tries: u64 = 0;
    loop
        invariant
            call_requires(func, ()),
            forall|ms: u64| call_requires(on_wait, (ms,)),
            0 <= tries <= RETRY_ATTEMPTS,
        decreases RETRY_ATTEMPTS - tries,
    {
        match func() {
            Ok(value) => {
                return Ok(value);
            },
            Err(err) => {
                match retry_delay(tries) {
                    Some(ms) => {
                        on_wait(ms);
                    },
                    None => {
                        return Err((tries, err));
                    },
                }
            },
        }
        proof {
            assert(tries < RETRY_ATTEMPTS);
        }
        tries += 1;
    }
}

} // verus!
