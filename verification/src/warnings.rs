//! Warning history: entry records, the query window, and the overview
//! text shown for a user's warnings.

use vstd::prelude::*;

use crate::messages::{sanitize_reason, spec_sanitized};
use crate::numeral::{dec_rep, u64_to_string, usize_to_string};
use crate::strutil::{chars_eq_nocase, first_word, first_word_exec};

verus! {

/// One stored warning.
#[derive(Clone, Debug)]
pub struct WarningEntry {
    pub warned_at: u64,
    pub moderator_id: u64,
    pub reason: String,
}

/// Mathematical image of a warning entry.
pub struct WarningEntryV {
    pub warned_at: u64,
    pub moderator_id: u64,
    pub reason: Seq<char>,
}

impl View for WarningEntry {
    type V = WarningEntryV;

    open spec fn view(&self) -> WarningEntryV {
        WarningEntryV {
            warned_at: self.warned_at,
            moderator_id: self.moderator_id,
            reason: self.reason@,
        }
    }
}

/// The outcome of recording a warning: the target's new warning count.
#[derive(Clone, Copy, Debug)]
pub struct WarningRecord {
    pub warn_number: usize,
}

/// The time window a warnings query covers.
#[derive(Clone, Copy, Debug, PartialEq, Eq, Structural)]
pub enum WarningWindow {
    Days(u64),
    All,
}

/// Days covered when the caller names no window.
pub const DEFAULT_WARNING_WINDOW_DAYS: u64 = 30;

/// The window named by the argument tail: its first word, either `all`
/// (in any case) or a positive day count; anything else falls back to
/// the default window.
pub open spec fn spec_parse_window(arg_tail: Option<Seq<char>>) -> WarningWindow {
    match arg_tail {
        None => WarningWindow::Days(DEFAULT_WARNING_WINDOW_DAYS),
        Some(s) => match first_word(s) {
            None => WarningWindow::Days(DEFAULT_WARNING_WINDOW_DAYS),
            Some(w) => if w.len() == "all"@.len() && (forall|k: int|
                0 <= k < w.len() ==> chars_eq_nocase(w[k], #[trigger] "all"@[k])) {
                WarningWindow::All
            } else {
                match crate::numeral::spec_parse_u64(w) {
                    Some(d) => if d > 0 {
                        WarningWindow::Days(d)
                    } else {
                        WarningWindow::Days(DEFAULT_WARNING_WINDOW_DAYS)
                    },
                    None => WarningWindow::Days(DEFAULT_WARNING_WINDOW_DAYS),
                }
            },
        },
    }
}

/// Pick the warnings window from the command's argument tail.
pub fn parse_window(arg_tail: Option<&str>) -> (r: WarningWindow)
    ensures
        r == spec_parse_window(
            match arg_tail {
                Some(s) => Some(s@),
                None => None,
            },
        ),
{
    let tail = match arg_tail {
        Some(tail) => tail,
        None => {
            return WarningWindow::Days(DEFAULT_WARNING_WINDOW_DAYS);
        },
    };
    let word = match first_word_exec(tail) {
        Some(word) => word,
        None => {
            return WarningWindow::Days(DEFAULT_WARNING_WINDOW_DAYS);
        },
    };
    if crate::strutil::eq_ignore_ascii_case_exec(word.as_str(), "all") {
        return WarningWindow::All;
    }
    match crate::numeral::parse_u64(word.as_str()) {
        Some(days) => {
            if days > 0 {
                WarningWindow::Days(days)
            } else {
                WarningWindow::Days(DEFAULT_WARNING_WINDOW_DAYS)
            }
        },
        None => WarningWindow::Days(DEFAULT_WARNING_WINDOW_DAYS),
    }
}

/// The query's lower time bound for a window ending at `now_secs`:
/// `days` back for a day window, the epoch for an all-time window.
pub fn window_since(window: WarningWindow, now_secs: u64) -> (r: u64)
    ensures
        r == (match window {
            WarningWindow::Days(days) => if days * 86400 <= u64::MAX {
                if now_secs >= days * 86400 {
                    (now_secs - days * 86400) as u64
                } else {
                    0u64
                }
            } else {
                0u64
            },
            WarningWindow::All => 0u64,
        }),
{
    match window {
        WarningWindow::Days(days) => {
            let span = if days > u64::MAX / 86400 {
                proof {
                    assert(days * 86400 > u64::MAX) by (nonlinear_arith)
                        requires
                            days as int > u64::MAX as int / 86400,
                    ;
                }
                u64::MAX
            } else {
                proof {
                    assert(days * 86400 <= u64::MAX) by (nonlinear_arith)
                        requires
                            days as int <= u64::MAX as int / 86400,
                    ;
                }
                days * 86400
            };
            if now_secs >= span {
                now_secs - span
            } else {
                0
            }
        },
        WarningWindow::All => 0,
    }
}

/// The views of a vector of warning entries.
pub open spec fn warning_views(entries: Seq<WarningEntry>) -> Seq<WarningEntryV> {
    entries.map_values(|e: WarningEntry| e@)
}

/// One line of the overview, numbered from one.
pub open spec fn spec_warning_line(e: WarningEntryV, number: nat) -> Seq<char> {
    "#"@ + dec_rep(number) + " \u{2022} <t:"@ + dec_rep(e.warned_at as nat) + ":F> \u{2022} by <@"@
        + dec_rep(e.moderator_id as nat) + ">\nReason: "@ + spec_sanitized(e.reason) + "\n\n"@
}

/// The overview lines from index `from` to the end.
pub open spec fn spec_warning_lines(entries: Seq<WarningEntryV>, from: int) -> Seq<char>
    decreases entries.len() - from,
{
    if from < 0 || from >= entries.len() {
        Seq::empty()
    } else {
        spec_warning_line(entries[from], (from + 1) as nat) + spec_warning_lines(entries, from + 1)
    }
}

/// The whole overview description: the count for the window, then the
/// last five entries, or a placeholder when there are none.
pub open spec fn spec_warnings_overview(entries: Seq<WarningEntryV>, window_label: Seq<char>) -> Seq<
    char,
> {
    let head = "Total warnings in "@ + window_label + ": **"@ + dec_rep(entries.len()) + "**\n\n"@;
    if entries.len() == 0 {
        head + "No warnings in this period."@
    } else {
        let start = if entries.len() >= 5 {
            entries.len() - 5
        } else {
            0int
        };
        head + spec_warning_lines(entries, start)
    }
}

/// One rendered overview line.
fn warning_line_exec(entry: &WarningEntry, number: usize) -> (r: String)
    ensures
        r@ == spec_warning_line(entry@, number as nat),
{
    let mut out = String::from_str("#");
    out.append(usize_to_string(number).as_str());
    out.append(" \u{2022} <t:");
    out.append(u64_to_string(entry.warned_at).as_str());
    out.append(":F> \u{2022} by <@");
    out.append(u64_to_string(entry.moderator_id).as_str());
    out.append(">\nReason: ");
    let sanitized = sanitize_reason(entry.reason.as_str());
    out.append(sanitized.as_str());
    out.append("\n\n");
    proof {
        assert(out@ =~= spec_warning_line(entry@, number as nat));
    }
    out
}

/// Build the overview description for a user's warnings in a window.
pub fn warnings_overview_description(window_label: &str, entries: &Vec<WarningEntry>) -> (r: String)
    ensures
        r@ == spec_warnings_overview(warning_views(entries@), window_label@),
{
    let ghost vs = warning_views(entries@);
    let count = entries.len();
    let mut out = String::from_str("Total warnings in ");
    out.append(window_label);
    out.append(": **");
    out.append(usize_to_string(count).as_str());
    out.append("**\n\n");
    if count == 0 {
        out.append("No warnings in this period.");
        return out;
    }
    let start: usize = if count >= 5 {
        count - 5
    } else {
        0
    };
    let mut i: usize = start;
    while i < count
        invariant
            start <= i <= count,
            count == entries@.len(),
            vs == warning_views(entries@),
            spec_warnings_overview(vs, window_label@) =~= out@ + spec_warning_lines(vs, i as int),
        decreases count - i,
    {
        let line = warning_line_exec(&entries[i], i + 1);
        proof {
            assert(vs[i as int] == entries@[i as int]@);
            assert(spec_warning_lines(vs, i as int) == spec_warning_line(
                vs[i as int],
                (i + 1) as nat,
            ) + spec_warning_lines(vs, i as int + 1));
        }
        out.append(line.as_str());
        i += 1;
    }
    out
}

} // verus!
