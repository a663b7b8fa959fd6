//! Argument parsers: target user references and compact durations.

use vstd::prelude::*;

use crate::numeral::{is_digit, spec_parse_u64};
use crate::strutil::{trim, trim_exec};

verus! {

/// The user id named by a raw argument: `<@id>`, `<@!id>`, or a bare id,
/// with surrounding whitespace ignored.
pub open spec fn spec_parse_target_user(s: Seq<char>) -> Option<u64> {
    let t = trim(s);
    let wrapped = t.len() >= 3 && t.take(2) == "<@"@ && t.last() == '>';
    let numeric = if wrapped {
        let inner = t.subrange(2, t.len() - 1);
        if inner.len() > 0 && inner[0] == '!' {
            inner.skip(1)
        } else {
            inner
        }
    } else {
        t
    };
    spec_parse_u64(numeric)
}

/// Parse a target user from a raw argument (`<@id>`, `<@!id>`, or raw ID).
pub fn parse_target_user_id(raw: &str) -> (r: Option<u64>)
    ensures
        r == spec_parse_target_user(raw@),
{
    let trimmed_owned = trim_exec(raw);
    let trimmed = trimmed_owned.as_str();
    let n = trimmed.unicode_len();
    let wrapped = n >= 3 && {
        let head = trimmed.substring_char(0, 2);
        proof {
            reveal_strlit("<@");
            assert(trimmed@.subrange(0, 2) =~= trimmed@.take(2));
        }
        crate::strutil::str_eq(head, "<@") && trimmed.get_char(n - 1) == '>'
    };
    let numeric: String = if wrapped {
        let inner = trimmed.substring_char(2, n - 1);
        proof {
            assert(inner@ == trimmed@.subrange(2, trimmed@.len() - 1));
        }
        let ni = inner.unicode_len();
        if ni > 0 && inner.get_char(0) == '!' {
            let stripped = inner.substring_char(1, ni);
            proof {
                assert(stripped@ =~= inner@.skip(1));
            }
            String::from_str(stripped)
        } else {
            String::from_str(inner)
        }
    } else {
        String::from_str(trimmed)
    };
    crate::numeral::parse_u64(numeric.as_str())
}

/// The seconds named by a compact duration token like `30s`, `10m`, `2h`,
/// `1d`, or plain seconds; zero and overflowing values are rejected.
pub open spec fn spec_parse_duration(s: Seq<char>) -> Option<u64> {
    let v = trim(s);
    if v.len() == 0 {
        None
    } else {
        let unit = v.last();
        let known_unit = unit == 's' || unit == 'S' || unit == 'm' || unit == 'M' || unit == 'h'
            || unit == 'H' || unit == 'd' || unit == 'D';
        let body = if known_unit {
            v.drop_last()
        } else {
            v
        };
        let multiplier: nat = if unit == 's' || unit == 'S' {
            1
        } else if unit == 'm' || unit == 'M' {
            60
        } else if unit == 'h' || unit == 'H' {
            60 * 60
        } else if unit == 'd' || unit == 'D' {
            60 * 60 * 24
        } else {
            1
        };
        if !known_unit && !is_digit(unit) {
            None
        } else {
            match spec_parse_u64(body) {
                Some(number) => if number >= 1 && number * multiplier <= u64::MAX {
                    Some((number * multiplier) as u64)
                } else {
                    None
                },
                None => None,
            }
        }
    }
}

/// Parse a compact duration token like `30s`, `10m`, `2h`, `1d`, or
/// plain seconds.
pub fn parse_duration_seconds(raw: &str) -> (r: Option<u64>)
    ensures
        r == spec_parse_duration(raw@),
{
    let value_owned = trim_exec(raw);
    let value = value_owned.as_str();
    let n = value.unicode_len();
    if n == 0 {
        return None;
    }
    let unit = value.get_char(n - 1);
    let known_unit = unit == 's' || unit == 'S' || unit == 'm' || unit == 'M' || unit == 'h'
        || unit == 'H' || unit == 'd' || unit == 'D';
    if !known_unit && !(unit >= '0' && unit <= '9') {
        return None;
    }
    let multiplier: u64 = if unit == 's' || unit == 'S' {
        1
    } else if unit == 'm' || unit == 'M' {
        60
    } else if unit == 'h' || unit == 'H' {
        60 * 60
    } else if unit == 'd' || unit == 'D' {
        60 * 60 * 24
    } else {
        1
    };
    let body: &str = if known_unit {
        let b = value.substring_char(0, n - 1);
        proof {
            assert(b@ =~= value@.drop_last());
        }
        b
    } else {
        value
    };
    let number = match crate::numeral::parse_u64(body) {
        Some(number) => number,
        None => {
            return None;
        },
    };
    if number == 0 {
        return None;
    }
    if number > u64::MAX / multiplier {
        proof {
            assert(number * multiplier > u64::MAX) by (nonlinear_arith)
                requires
                    multiplier >= 1,
                    number as int > u64::MAX as int / (multiplier as int),
            ;
        }
        return None;
    }
    proof {
        assert(number * multiplier <= u64::MAX) by (nonlinear_arith)
            requires
                multiplier >= 1,
                number as int <= u64::MAX as int / (multiplier as int),
        ;
    }
    Some(number * multiplier)
}

/// Seconds of the default communication timeout.
pub const DEFAULT_TIMEOUT_DURATION_SECS: u64 = 10 * 60;

/// The parsed arguments of a timeout request: how long, the label echoed
/// back, and the reason.
pub struct TimeoutArgs {
    pub duration_secs: u64,
    pub duration_label: String,
    pub reason: Option<String>,
}

/// Parse a timeout request's argument tail: a leading duration token
/// sets the length and the rest is the reason; without one, the default
/// ten minutes apply and the whole tail is the reason.
pub fn parse_timeout_args(arg_tail: Option<&str>) -> (r: TimeoutArgs)
    ensures
        ({
            match arg_tail {
                None => {
                    &&& r.duration_secs == DEFAULT_TIMEOUT_DURATION_SECS
                    &&& r.duration_label@ == "10m"@
                    &&& r.reason is None
                },
                Some(tail) => {
                    let head = crate::strutil::split_first(tail@).0;
                    let rest = crate::strutil::split_first(tail@).1;
                    match spec_parse_duration(head) {
                        Some(d) => {
                            &&& r.duration_secs == d
                            &&& r.duration_label@ == head
                            &&& (match r.reason {
                                Some(reason) => crate::strutil::trim(rest).len() > 0 && reason@
                                    == crate::strutil::trim(rest),
                                None => crate::strutil::trim(rest).len() == 0,
                            })
                        },
                        None => {
                            &&& r.duration_secs == DEFAULT_TIMEOUT_DURATION_SECS
                            &&& r.duration_label@ == "10m"@
                            &&& (r.reason matches Some(reason) && reason@ == tail@)
                        },
                    }
                },
            }
        }),
{
    let tail = match arg_tail {
        Some(tail) => tail,
        None => {
            return TimeoutArgs {
                duration_secs: DEFAULT_TIMEOUT_DURATION_SECS,
                duration_label: String::from_str("10m"),
                reason: None,
            };
        },
    };
    let split = crate::strutil::split_first_exec(tail);
    let head = split.0;
    let rest = split.1;
    match parse_duration_seconds(head.as_str()) {
        Some(duration_secs) => {
            let trimmed = crate::strutil::trim_exec(rest.as_str());
            let reason: Option<String> = if trimmed.as_str().unicode_len() > 0 {
                Some(trimmed)
            } else {
                None
            };
            TimeoutArgs { duration_secs, duration_label: head, reason }
        },
        None => TimeoutArgs {
            duration_secs: DEFAULT_TIMEOUT_DURATION_SECS,
            duration_label: String::from_str("10m"),
            reason: Some(String::from_str(tail)),
        },
    }
}

} // verus!
