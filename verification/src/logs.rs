//! How long error logs are kept, and which rotated error logs are due
//! for removal.
//!
//! Installing the log subscriber, listing the log directory and removing
//! files are the caller's part.
use vstd::prelude::*;
use crate::text::{chars_of, has_prefix, parse_unsigned, parse_unsigned_vec, str_starts_with, trim, trim_vec};

verus! {

/// Days error logs are kept when `CRATEBAY_LOG_RETENTION_DAYS` is unset or
/// unreadable.
pub const DEFAULT_RETENTION_DAYS: u64 = 7;

/// The retention in days from `CRATEBAY_LOG_RETENTION_DAYS`: its trimmed
/// value read as a `u64` and clamped to 1..=365, else the default.
pub open spec fn retention_days_spec(env_value: Option<Seq<char>>) -> u64 {
    match env_value {
        Some(v) => match parse_unsigned(trim(v), u64::MAX as nat) {
            Some(n) => if n < 1 {
                1
            } else if n > 365 {
                365
            } else {
                n as u64
            },
            None => DEFAULT_RETENTION_DAYS,
        },
        None => DEFAULT_RETENTION_DAYS,
    }
}

pub open spec fn opt_view(o: Option<&str>) -> Option<Seq<char>> {
    match o {
        Some(s) => Some(s@),
        None => None,
    }
}

pub fn log_retention_days(env_value: Option<&str>) -> (d: u64)
    ensures
        d == retention_days_spec(opt_view(env_value)),
        1 <= d <= 365,
{
    match env_value {
        None => DEFAULT_RETENTION_DAYS,
        Some(v) => match parse_unsigned_vec(&trim_vec(&chars_of(v)), u64::MAX) {
            None => DEFAULT_RETENTION_DAYS,
            Some(n) => {
                if n < 1 {
                    1
                } else if n > 365 {
                    365
                } else {
                    n
                }
            },
        },
    }
}

/// The retention in seconds: `retention_days` days, saturating at
/// `u64::MAX`.
pub open spec fn retention_secs(retention_days: u64) -> nat {
    if retention_days * 86_400 <= u64::MAX {
        (retention_days * 86_400) as nat
    } else {
        u64::MAX as nat
    }
}

/// The moment, in nanoseconds since the epoch, before which a log counts
/// as old: the retention before `now`, or the epoch itself when that lies
/// before it.
pub open spec fn cutoff_spec(now_nanos: u128, retention_days: u64) -> u128 {
    let window = retention_secs(retention_days) * 1_000_000_000;
    if window <= now_nanos {
        (now_nanos - window) as u128
    } else {
        0
    }
}

/// Whether a directory entry is a rotated error log (`cratebay-error.log.`
/// followed by its date) that was last modified before the cutoff. Entries
/// that are not files, and those whose modification time is unknown, are
/// kept.
pub open spec fn expired_spec(
    name: Seq<char>,
    is_file: bool,
    modified_nanos: Option<u128>,
    now_nanos: u128,
    retention_days: u64,
) -> bool {
    &&& is_file
    &&& has_prefix(name, "cratebay-error.log."@)
    &&& modified_nanos matches Some(m) && m < cutoff_spec(now_nanos, retention_days)
}

pub fn is_expired_error_log(
    name: &str,
    is_file: bool,
    modified_nanos: Option<u128>,
    now_nanos: u128,
    retention_days: u64,
) -> (b: bool)
    ensures
        b == expired_spec(name@, is_file, modified_nanos, now_nanos, retention_days),
{
    if !is_file || !str_starts_with(name, "cratebay-error.log.") {
        return false;
    }
    let secs: u64 = match retention_days.checked_mul(86_400) {
        Some(s) => s,
        None => u64::MAX,
    };
    proof {
        assert((secs as u128) * 1_000_000_000 <= u128::MAX) by (nonlinear_arith)
            requires
                secs <= u64::MAX,
        ;
    }
    let window: u128 = (secs as u128) * 1_000_000_000;
    let cutoff: u128 = if window <= now_nanos {
        now_nanos - window
    } else {
        0
    };
    match modified_nanos {
        Some(m) => m < cutoff,
        None => false,
    }
}

} // verus!
