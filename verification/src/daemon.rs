//! The daemon's decision pieces: interval parsing and the status
//! snapshot.  Running in the background — the timer loop, the PID
//! file, the signals — is the embedding application's side.

use vstd::prelude::*;

use crate::strutil::{
    all_digits, parse_u64, spec_digits_val, spec_lower_seq, spec_trim, to_lower, trim,
};

verus! {

/// The number of seconds a duration keyword denotes: a count of
/// seconds, minutes, hours or days (`Ns`, `Nm`, `Nh`, `Nd`), or bare
/// seconds; case and surrounding whitespace are ignored.  Nothing is
/// denoted when the digits are missing, malformed, or the total
/// leaves the type's range.
pub open spec fn spec_daemon_duration(s: Seq<char>) -> Option<nat> {
    let t = spec_lower_seq(spec_trim(s));
    let digits = if t.len() > 0 && (t.last() == 's' || t.last() == 'm' || t.last() == 'h'
        || t.last() == 'd') {
        t.drop_last()
    } else {
        t
    };
    let mult: nat = if t.len() > 0 && t.last() == 's' {
        1
    } else if t.len() > 0 && t.last() == 'm' {
        60
    } else if t.len() > 0 && t.last() == 'h' {
        3600
    } else if t.len() > 0 && t.last() == 'd' {
        86400
    } else {
        1
    };
    if digits.len() > 0 && all_digits(digits) && spec_digits_val(digits) * mult <= u64::MAX {
        Some(spec_digits_val(digits) * mult)
    } else {
        None
    }
}

/// Parses a daemon interval such as "30m", "1h" or "300".
pub fn parse_daemon_duration(duration_str: &str) -> (r: Result<u64, String>)
    ensures
        match r {
            Ok(v) => spec_daemon_duration(duration_str@) == Some(v as nat),
            Err(_) => spec_daemon_duration(duration_str@) is None,
        },
{
    let t = to_lower(trim(duration_str));
    let tl = t.as_str().unicode_len();
    let (digits, mult): (&str, u64) = if tl > 0 {
        let last = t.as_str().get_char(tl - 1);
        if last == 's' {
            (t.as_str().substring_char(0, tl - 1), 1)
        } else if last == 'm' {
            (t.as_str().substring_char(0, tl - 1), 60)
        } else if last == 'h' {
            (t.as_str().substring_char(0, tl - 1), 3600)
        } else if last == 'd' {
            (t.as_str().substring_char(0, tl - 1), 86400)
        } else {
            (t.as_str(), 1)
        }
    } else {
        (t.as_str(), 1)
    };
    proof {
        if t@.len() > 0 {
            assert(t@.subrange(0, t@.len() - 1) =~= t@.drop_last());
        }
    }
    match parse_u64(digits) {
        Some(v) => {
            if v <= u64::MAX / mult {
                proof {
                    assert(v * mult <= u64::MAX) by (nonlinear_arith)
                        requires
                            v <= u64::MAX / mult,
                            mult == 1 || mult == 60 || mult == 3600 || mult == 86400,
                    ;
                }
                Ok(v * mult)
            } else {
                proof {
                    assert(v * mult > u64::MAX) by (nonlinear_arith)
                        requires
                            v > u64::MAX / mult,
                            mult == 1 || mult == 60 || mult == 3600 || mult == 86400,
                    ;
                }
                Err(
                    String::from_str(
                        "Invalid duration format. Use format like '30m', '1h', '2d'",
                    ),
                )
            }
        },
        None => Err(
            String::from_str("Invalid duration format. Use format like '30m', '1h', '2d'"),
        ),
    }
}

/// Daemon statistics and status.
#[derive(Debug, Clone)]
pub struct DaemonStatus {
    pub is_running: bool,
    /// Seconds since the daemon started.
    pub uptime: u64,
    /// Unix time of the last completed sync, when one has run.
    pub last_sync: Option<u64>,
    pub total_syncs: u64,
    pub successful_syncs: u64,
    pub failed_syncs: u64,
    /// Seconds until the next scheduled sync, while running.
    pub next_sync_in: Option<u64>,
}

impl DaemonStatus {
    /// The status snapshot for a daemon that tracks no per-sync
    /// statistics yet: while it runs, the next sync is one configured
    /// interval away, with a half-hour fallback for an unparsable
    /// interval.
    pub fn compute(is_running: bool, uptime: u64, interval: &str) -> (r: Self)
        ensures
            r.is_running == is_running,
            r.uptime == uptime,
            r.last_sync is None,
            r.total_syncs == 0,
            r.successful_syncs == 0,
            r.failed_syncs == 0,
            match r.next_sync_in {
                Some(v) => is_running && (match spec_daemon_duration(interval@) {
                    Some(d) => v as nat == d,
                    None => v == 1800,
                }),
                None => !is_running,
            },
    {
        let next_sync_in: Option<u64> = if is_running {
            match parse_daemon_duration(interval) {
                Ok(v) => Some(v),
                Err(_) => Some(1800),
            }
        } else {
            None
        };
        Self {
            is_running,
            uptime,
            last_sync: None,
            total_syncs: 0,
            successful_syncs: 0,
            failed_syncs: 0,
            next_sync_in,
        }
    }
}

} // verus!
