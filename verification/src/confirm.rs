//! Two-step confirmation tokens for destructive actions, and the decision
//! rules of the termination flow built on them.
//!
//! A confirmation custom ID is `<prefix><confirm|decline>:<requester>:`
//! `<target>:<context-or-zero>`; zero encodes an absent context value.

use vstd::prelude::*;

use crate::numeral::{dec_rep, parse_u64, spec_parse_u64};
use crate::strutil::{split_colon, split_colon_exec, str_eq, strip_prefix_exec};

verus! {

/// Which button of a confirmation pair was pressed.
#[derive(Clone, Copy, Debug, Eq, PartialEq, Structural)]
pub enum ConfirmationAction {
    Confirm,
    Decline,
}

/// A decoded confirmation custom ID.
#[derive(Clone, Copy, Debug, Eq, PartialEq)]
pub struct ParsedConfirmationAction {
    pub action: ConfirmationAction,
    pub requester_id: u64,
    pub target_id: u64,
    /// An optional context payload, such as a purge cutoff; absent when the
    /// wire carried zero.
    pub context_value: Option<u64>,
}

/// The word a confirmation action is carried as.
pub open spec fn action_word(action: ConfirmationAction) -> Seq<char> {
    match action {
        ConfirmationAction::Confirm => "confirm"@,
        ConfirmationAction::Decline => "decline"@,
    }
}

/// The wire form of a confirmation control identifier.
pub open spec fn spec_encode_confirmation(
    prefix: Seq<char>,
    action: ConfirmationAction,
    requester_id: nat,
    target_id: nat,
    context_raw: nat,
) -> Seq<char> {
    prefix + action_word(action) + seq![':'] + dec_rep(requester_id) + seq![':'] + dec_rep(
        target_id,
    ) + seq![':'] + dec_rep(context_raw)
}

/// The exact parse of a confirmation custom ID for a given prefix.
pub open spec fn spec_parse_confirmation(s: Seq<char>, prefix: Seq<char>) -> Option<
    ParsedConfirmationAction,
> {
    if !(prefix.len() <= s.len() && s.take(prefix.len() as int) == prefix) {
        None
    } else {
        let parts = split_colon(s.skip(prefix.len() as int));
        if parts.len() != 4 {
            None
        } else {
            let action = if parts[0] == "confirm"@ {
                Some(ConfirmationAction::Confirm)
            } else if parts[0] == "decline"@ {
                Some(ConfirmationAction::Decline)
            } else {
                None
            };
            match (action, spec_parse_u64(parts[1]), spec_parse_u64(parts[2]), spec_parse_u64(
                parts[3],
            )) {
                (Some(a), Some(requester_id), Some(target_id), Some(context_raw)) => Some(
                    ParsedConfirmationAction {
                        action: a,
                        requester_id,
                        target_id,
                        context_value: if context_raw != 0 {
                            Some(context_raw)
                        } else {
                            None
                        },
                    },
                ),
                _ => None,
            }
        }
    }
}

/// Build one confirmation control identifier.
pub fn build_confirmation_custom_id(
    prefix: &str,
    action: ConfirmationAction,
    requester_id: u64,
    target_id: u64,
    context_value: Option<u64>,
) -> (r: String)
    ensures
        r@ == spec_encode_confirmation(
            prefix@,
            action,
            requester_id as nat,
            target_id as nat,
            (match context_value {
                Some(v) => v,
                None => 0,
            }) as nat,
        ),
{
    let action_segment: &str = match action {
        ConfirmationAction::Confirm => "confirm",
        ConfirmationAction::Decline => "decline",
    };
    let context_raw: u64 = match context_value {
        Some(v) => v,
        None => 0,
    };
    let mut out = String::from_str(prefix);
    out.append(action_segment);
    out.append(":");
    out.append(crate::numeral::u64_to_string(requester_id).as_str());
    out.append(":");
    out.append(crate::numeral::u64_to_string(target_id).as_str());
    out.append(":");
    out.append(crate::numeral::u64_to_string(context_raw).as_str());
    proof {
        reveal_strlit(":");
        assert(":"@ =~= seq![':']);
        assert(out@ =~= spec_encode_confirmation(
            prefix@,
            action,
            requester_id as nat,
            target_id as nat,
            context_raw as nat,
        ));
    }
    out
}

/// Build the confirm/decline identifier pair for one pending action.
pub fn build_confirmation_custom_ids(
    prefix: &str,
    requester_id: u64,
    target_id: u64,
    context_value: Option<u64>,
) -> (r: (String, String))
    ensures
        r.0@ == spec_encode_confirmation(
            prefix@,
            ConfirmationAction::Confirm,
            requester_id as nat,
            target_id as nat,
            (match context_value {
                Some(v) => v,
                None => 0,
            }) as nat,
        ),
        r.1@ == spec_encode_confirmation(
            prefix@,
            ConfirmationAction::Decline,
            requester_id as nat,
            target_id as nat,
            (match context_value {
                Some(v) => v,
                None => 0,
            }) as nat,
        ),
{
    (
        build_confirmation_custom_id(
            prefix,
            ConfirmationAction::Confirm,
            requester_id,
            target_id,
            context_value,
        ),
        build_confirmation_custom_id(
            prefix,
            ConfirmationAction::Decline,
            requester_id,
            target_id,
            context_value,
        ),
    )
}

/// Parse a confirmation custom ID; total, and exactly the parsing spec.
pub fn parse_confirmation_custom_id(custom_id: &str, prefix: &str) -> (r: Option<
    ParsedConfirmationAction,
>)
    ensures
        r == spec_parse_confirmation(custom_id@, prefix@),
{
    let raw = match strip_prefix_exec(custom_id, prefix) {
        Some(raw) => raw,
        None => {
            return None;
        },
    };
    let parts = split_colon_exec(raw.as_str());
    if parts.len() != 4 {
        return None;
    }
    let action = if str_eq(parts[0].as_str(), "confirm") {
        ConfirmationAction::Confirm
    } else if str_eq(parts[0].as_str(), "decline") {
        ConfirmationAction::Decline
    } else {
        return None;
    };
    let requester_id = match parse_u64(parts[1].as_str()) {
        Some(v) => v,
        None => {
            return None;
        },
    };
    let target_id = match parse_u64(parts[2].as_str()) {
        Some(v) => v,
        None => {
            return None;
        },
    };
    let context_raw = match parse_u64(parts[3].as_str()) {
        Some(v) => v,
        None => {
            return None;
        },
    };
    let context_value: Option<u64> = if context_raw != 0 {
        Some(context_raw)
    } else {
        None
    };
    Some(ParsedConfirmationAction { action, requester_id, target_id, context_value })
}

/// Round trip: parsing the encoding of a confirmation action under the
/// same prefix gives back exactly the encoded fields, for any prefix.
/// A context value of zero is indistinguishable from an absent one by
/// design, so only nonzero contexts are covered.
pub proof fn lemma_confirmation_round_trip(
    prefix: Seq<char>,
    action: ConfirmationAction,
    requester_id: u64,
    target_id: u64,
    context_value: Option<u64>,
)
    requires
        context_value matches Some(v) ==> v != 0,
    ensures
        spec_parse_confirmation(
            spec_encode_confirmation(
                prefix,
                action,
                requester_id as nat,
                target_id as nat,
                (match context_value {
                    Some(v) => v,
                    None => 0,
                }) as nat,
            ),
            prefix,
        ) == Some(
            ParsedConfirmationAction { action, requester_id, target_id, context_value },
        ),
{
    reveal_strlit("confirm");
    reveal_strlit("decline");
    let context_raw = (match context_value {
        Some(v) => v,
        None => 0,
    }) as nat;
    let s = spec_encode_confirmation(
        prefix,
        action,
        requester_id as nat,
        target_id as nat,
        context_raw,
    );
    crate::token::lemma_numeral_no_colon(requester_id as nat);
    crate::token::lemma_numeral_no_colon(target_id as nat);
    crate::token::lemma_numeral_no_colon(context_raw);
    assert(s.take(prefix.len() as int) =~= prefix);
    let rest = s.skip(prefix.len() as int);
    let r2 = dec_rep(context_raw);
    let r1 = dec_rep(target_id as nat) + seq![':'] + r2;
    let r0 = dec_rep(requester_id as nat) + seq![':'] + r1;
    assert(crate::strutil::no_colon(action_word(action)));
    assert(rest =~= action_word(action) + seq![':'] + r0);
    crate::strutil::lemma_split_colon_concat(action_word(action), r0);
    crate::strutil::lemma_split_colon_concat(dec_rep(requester_id as nat), r1);
    crate::strutil::lemma_split_colon_concat(dec_rep(target_id as nat), r2);
    crate::strutil::lemma_split_colon_whole(r2);
    assert(split_colon(rest) =~~= seq![
        action_word(action),
        dec_rep(requester_id as nat),
        dec_rep(target_id as nat),
        dec_rep(context_raw),
    ]);
    assert(action_word(ConfirmationAction::Confirm) != action_word(ConfirmationAction::Decline));
}

/// How a confirmation button press on the termination flow is resolved,
/// before any remote action is taken.
#[derive(Clone, Copy, Debug, Eq, PartialEq, Structural)]
pub enum TerminateDecision {
    /// Someone other than the requester pressed the button.
    NotRequester,
    /// The press arrived outside a guild context.
    GuildOnly,
    /// The presser no longer holds the required permissions.
    MissingPermissions,
    /// The requester declined; the target is left unchanged.
    Declined,
    /// The requester confirmed; ban then purge may proceed.
    Proceed,
}

/// The decision rule for a termination confirmation press, checked in
/// this order: requester identity, guild context, live permissions, and
/// only then the chosen action.
pub open spec fn spec_terminate_decision(
    parsed: ParsedConfirmationAction,
    actor_id: nat,
    in_guild: bool,
    has_required_permissions: bool,
) -> TerminateDecision {
    if actor_id != parsed.requester_id {
        TerminateDecision::NotRequester
    } else if !in_guild {
        TerminateDecision::GuildOnly
    } else if !has_required_permissions {
        TerminateDecision::MissingPermissions
    } else if parsed.action is Decline {
        TerminateDecision::Declined
    } else {
        TerminateDecision::Proceed
    }
}

/// Resolve a termination confirmation press into the single action the
/// caller must take; only the requester can drive the flow forward.
pub fn terminate_confirmation_decision(
    parsed: &ParsedConfirmationAction,
    actor_id: u64,
    in_guild: bool,
    has_required_permissions: bool,
) -> (r: TerminateDecision)
    ensures
        r == spec_terminate_decision(*parsed, actor_id as nat, in_guild, has_required_permissions),
{
    if actor_id != parsed.requester_id {
        TerminateDecision::NotRequester
    } else if !in_guild {
        TerminateDecision::GuildOnly
    } else if !has_required_permissions {
        TerminateDecision::MissingPermissions
    } else {
        match parsed.action {
            ConfirmationAction::Decline => TerminateDecision::Declined,
            ConfirmationAction::Confirm => TerminateDecision::Proceed,
        }
    }
}

/// The parsed arguments of a termination request: an optional purge
/// cutoff, the window text echoed to the moderator, and the reason.
pub struct TerminateArgs {
    pub cutoff_secs: Option<u64>,
    pub window_display: String,
    pub reason: Option<String>,
}

/// What parsing a termination request's argument tail returns at one
/// specific clock reading: a leading duration token sets the cutoff that
/// far back from now, and the rest is the reason; without one, the whole
/// tail is the reason and the purge covers all time.
pub open spec fn terminate_args_outcome_at(
    arg_tail: Option<Seq<char>>,
    now_secs: u64,
    r: TerminateArgs,
) -> bool {
    match arg_tail {
        None => {
            &&& r.cutoff_secs is None
            &&& r.window_display@ == "all-time"@
            &&& r.reason is None
        },
        Some(tail) => {
            let head = crate::strutil::split_first(tail).0;
            let rest = crate::strutil::split_first(tail).1;
            match crate::parse::spec_parse_duration(head) {
                Some(d) => {
                    &&& r.cutoff_secs == Some(
                        if now_secs >= d {
                            (now_secs - d) as u64
                        } else {
                            0u64
                        },
                    )
                    &&& r.window_display@ == head
                    &&& (match r.reason {
                        Some(reason) => crate::strutil::trim(rest).len() > 0 && reason@
                            == crate::strutil::trim(rest),
                        None => crate::strutil::trim(rest).len() == 0,
                    })
                },
                None => {
                    &&& r.cutoff_secs is None
                    &&& r.window_display@ == "all-time"@
                    &&& (r.reason matches Some(reason) && reason@ == tail)
                },
            }
        },
    }
}

/// The view of an optional argument tail.
pub open spec fn arg_tail_view(arg_tail: Option<&str>) -> Option<Seq<char>> {
    match arg_tail {
        Some(tail) => Some(tail@),
        None => None,
    }
}

/// Parse a termination request's argument tail at a given clock reading.
pub fn parse_terminate_args_at(arg_tail: Option<&str>, now_secs: u64) -> (r: TerminateArgs)
    ensures
        terminate_args_outcome_at(arg_tail_view(arg_tail), now_secs, r),
{
    let tail = match arg_tail {
        Some(tail) => tail,
        None => {
            return TerminateArgs {
                cutoff_secs: None,
                window_display: String::from_str("all-time"),
                reason: None,
            };
        },
    };
    let split = crate::strutil::split_first_exec(tail);
    let head = split.0;
    let rest = split.1;
    match crate::parse::parse_duration_seconds(head.as_str()) {
        Some(duration_secs) => {
            let cutoff = if now_secs >= duration_secs {
                now_secs - duration_secs
            } else {
                0
            };
            let trimmed = crate::strutil::trim_exec(rest.as_str());
            let reason: Option<String> = if trimmed.as_str().unicode_len() > 0 {
                Some(trimmed)
            } else {
                None
            };
            TerminateArgs { cutoff_secs: Some(cutoff), window_display: head, reason }
        },
        None => TerminateArgs {
            cutoff_secs: None,
            window_display: String::from_str("all-time"),
            reason: Some(String::from_str(tail)),
        },
    }
}

/// Parse a termination request's argument tail at the current clock
/// reading; the cutoff arithmetic itself is `parse_terminate_args_at`,
/// and everything but the cutoff value is independent of the reading.
pub fn parse_terminate_args(arg_tail: Option<&str>) -> (r: TerminateArgs)
    ensures
        exists|now_secs: u64|
            #[trigger] terminate_args_outcome_at(arg_tail_view(arg_tail), now_secs, r),
        ({
            match arg_tail {
                None => r.cutoff_secs is None && r.reason is None && r.window_display@
                    == "all-time"@,
                Some(tail) => {
                    let head = crate::strutil::split_first(tail@).0;
                    let rest = crate::strutil::split_first(tail@).1;
                    match crate::parse::spec_parse_duration(head) {
                        Some(_) => r.cutoff_secs is Some && r.window_display@ == head && (
                        match r.reason {
                            Some(reason) => crate::strutil::trim(rest).len() > 0 && reason@
                                == crate::strutil::trim(rest),
                            None => crate::strutil::trim(rest).len() == 0,
                        }),
                        None => r.cutoff_secs is None && r.window_display@ == "all-time"@ && (
                        r.reason matches Some(reason) && reason@ == tail@),
                    }
                },
            }
        }),
{
    let now = crate::clock::now_unix_secs();
    let r = parse_terminate_args_at(arg_tail, now);
    proof {
        assert(terminate_args_outcome_at(arg_tail_view(arg_tail), now, r));
    }
    r
}

} // verus!
