//! User-facing message text: usage hints, refusals, and the profile and
//! description fields of moderation embeds.

use vstd::prelude::*;

use crate::numeral::{dec_rep, u64_to_string, usize_to_string};

verus! {

/// Shown when a pagination interaction belongs to another user.
pub const PAGINATION_WRONG_USER_MESSAGE: &'static str = "This pagination session belongs to another user.";

/// Shown when a pagination interaction has expired.
pub const PAGINATION_EXPIRED_MESSAGE: &'static str =
    "This pagination session expired. Run the command again.";

/// Shown when a pagination interaction payload is invalid.
pub const PAGINATION_INVALID_MESSAGE: &'static str = "Invalid pagination interaction.";

/// A moderation target's display data.
#[derive(Clone, Debug)]
pub struct TargetProfile {
    pub display_name: String,
    pub avatar_url: Option<String>,
}

/// `reason` with every `@` followed by a zero-width space, so the text
/// cannot ping anyone when echoed back.
pub open spec fn spec_sanitized(s: Seq<char>) -> Seq<char>
    decreases s.len(),
{
    if s.len() == 0 {
        Seq::empty()
    } else if s[0] == '@' {
        seq!['@', '\u{200b}'] + spec_sanitized(s.skip(1))
    } else {
        seq![s[0]] + spec_sanitized(s.skip(1))
    }
}

/// Text without `@` is left untouched.
pub proof fn lemma_sanitized_plain(s: Seq<char>)
    requires
        forall|i: int| 0 <= i < s.len() ==> #[trigger] s[i] != '@',
    ensures
        spec_sanitized(s) =~= s,
    decreases s.len(),
{
    if s.len() > 0 {
        lemma_sanitized_plain(s.skip(1));
        assert(seq![s[0]] + s.skip(1) =~= s);
    }
}

/// Sanitizing steps over an `@` after a clean run.
proof fn lemma_sanitized_concat(a: Seq<char>, b: Seq<char>)
    requires
        forall|i: int| 0 <= i < a.len() ==> #[trigger] a[i] != '@',
    ensures
        spec_sanitized(a + seq!['@'] + b) =~= a + seq!['@', '\u{200b}'] + spec_sanitized(b),
    decreases a.len(),
{
    let s = a + seq!['@'] + b;
    if a.len() == 0 {
        assert(s[0] == '@');
        assert(s.skip(1) =~= b);
    } else {
        assert(s[0] == a[0]);
        assert(s.skip(1) =~= a.skip(1) + seq!['@'] + b);
        lemma_sanitized_concat(a.skip(1), b);
        assert(seq![s[0]] + (a.skip(1) + seq!['@', '\u{200b}'] + spec_sanitized(b)) =~= a + seq![
            '@',
            '\u{200b}',
        ] + spec_sanitized(b));
    }
}

/// Escape `@` in free-text content so it cannot ping.
pub fn sanitize_reason(reason: &str) -> (r: String)
    ensures
        r@ == spec_sanitized(reason@),
{
    let n = reason.unicode_len();
    let mut out = String::new();
    let mut start: usize = 0;
    let mut i: usize = 0;
    proof {
        assert(reason@.skip(0) =~= reason@);
    }
    while i < n
        invariant
            0 <= start <= i <= n,
            n == reason@.len(),
            forall|j: int| start <= j < i ==> #[trigger] reason@[j] != '@',
            spec_sanitized(reason@) =~= out@ + spec_sanitized(reason@.skip(start as int)),
        decreases n - i,
    {
        let c = reason.get_char(i);
        if c == '@' {
            let run = reason.substring_char(start, i);
            proof {
                let a = reason@.subrange(start as int, i as int);
                assert(reason@.skip(start as int) =~= a + seq!['@'] + reason@.skip(i as int + 1));
                lemma_sanitized_concat(a, reason@.skip(i as int + 1));
            }
            out.append(run);
            out.append("@\u{200b}");
            proof {
                reveal_strlit("@\u{200b}");
                assert("@\u{200b}"@ =~= seq!['@', '\u{200b}']);
            }
            start = i + 1;
        }
        i += 1;
    }
    let tail = reason.substring_char(start, n);
    proof {
        assert(reason@.subrange(start as int, n as int) =~= reason@.skip(start as int));
        lemma_sanitized_plain(reason@.skip(start as int));
    }
    out.append(tail);
    out
}

/// `Usage: ` followed by the command's syntax in backticks.
pub fn usage_message(usage: &str) -> (r: String)
    ensures
        r@ == "Usage: `"@ + usage@ + "`"@,
{
    let mut out = String::from_str("Usage: `");
    out.append(usage);
    out.append("`");
    out
}

/// Refusal for commands that only work inside a guild.
pub fn guild_only_message() -> (r: &'static str)
    ensures
        r@ == "This command only works in servers."@,
{
    "This command only works in servers."
}

/// Refusal for a caller without the required permission.
pub fn permission_denied_message() -> (r: &'static str)
    ensures
        r@ == "You are not permitted to use this command."@,
{
    "You are not permitted to use this command."
}

/// Refusal naming the permission combination a command demands.
pub fn moderation_permission_combo_denied_message(required: &str) -> (r: String)
    ensures
        r@ == "You need "@ + required@ + " permissions to use this command."@,
{
    let mut out = String::from_str("You need ");
    out.append(required);
    out.append(" permissions to use this command.");
    out
}

/// Refusal for a moderation action aimed at its own caller.
pub fn moderation_self_action_message(action: &str) -> (r: String)
    ensures
        r@ == "You can't "@ + action@ + " yourself."@,
{
    let mut out = String::from_str("You can't ");
    out.append(action);
    out.append(" yourself.");
    out
}

/// Shown when a moderation component interaction cannot be decoded.
pub fn moderation_invalid_interaction_message(action: &str) -> (r: String)
    ensures
        r@ == "Invalid "@ + action@ + " interaction."@,
{
    let mut out = String::from_str("Invalid ");
    out.append(action);
    out.append(" interaction.");
    out
}

/// The label of a warnings window measured in days.
pub fn warnings_window_label_days(days: u64) -> (r: String)
    ensures
        r@ == "last "@ + dec_rep(days as nat) + " day(s)"@,
{
    let mut out = String::from_str("last ");
    out.append(u64_to_string(days).as_str());
    out.append(" day(s)");
    out
}

/// Reply for a page request beyond the last page.
pub fn page_out_of_range_message(requested_page: usize, total_pages: usize) -> (r: String)
    ensures
        r@ == "Page "@ + dec_rep(requested_page as nat)
            + " does not exist. Available pages: 1-"@ + dec_rep(total_pages as nat) + "."@,
{
    let mut out = String::from_str("Page ");
    out.append(usize_to_string(requested_page).as_str());
    out.append(" does not exist. Available pages: 1-");
    out.append(usize_to_string(total_pages).as_str());
    out.append(".");
    out
}

/// The title of the page-jump modal.
pub fn jump_modal_title() -> (r: &'static str)
    ensures
        r@ == "Jump to Page"@,
{
    "Jump to Page"
}

/// The placeholder of the page-jump text input, naming the valid range.
pub fn jump_modal_placeholder(total_pages: usize) -> (r: String)
    ensures
        r@ == "Enter a page from 1 to "@ + dec_rep(total_pages as nat),
{
    let mut out = String::from_str("Enter a page from 1 to ");
    out.append(usize_to_string(total_pages).as_str());
    out
}

/// The profile shown when the target user cannot be fetched.
pub fn fallback_target_profile(user_id: u64) -> (r: TargetProfile)
    ensures
        r.display_name@ == "User "@ + dec_rep(user_id as nat),
        r.avatar_url is None,
{
    let mut name = String::from_str("User ");
    name.append(u64_to_string(user_id).as_str());
    TargetProfile { display_name: name, avatar_url: None }
}

/// The avatar image URL for a user with an avatar hash.
pub fn avatar_url(user_id: u64, avatar_hash: &str) -> (r: String)
    ensures
        r@ == "https://cdn.discordapp.com/avatars/"@ + dec_rep(user_id as nat) + "/"@
            + avatar_hash@ + ".png?size=128"@,
{
    let mut out = String::from_str("https://cdn.discordapp.com/avatars/");
    out.append(u64_to_string(user_id).as_str());
    out.append("/");
    out.append(avatar_hash);
    out.append(".png?size=128");
    out
}

/// The default avatar image URL, chosen by the user id.
pub fn default_avatar_url(user_id: u64) -> (r: String)
    ensures
        r@ == "https://cdn.discordapp.com/embed/avatars/"@ + dec_rep(
            ((user_id >> 22) % 6) as nat,
        ) + ".png"@,
{
    let index: u64 = (user_id >> 22) % 6;
    let mut out = String::from_str("https://cdn.discordapp.com/embed/avatars/");
    out.append(u64_to_string(index).as_str());
    out.append(".png");
    out
}

/// Compose a target's display profile from fetched user fields: the
/// global name wins over the account name, and a user without an avatar
/// hash gets the default avatar.
pub fn target_profile_from_user(
    user_id: u64,
    global_name: Option<String>,
    name: String,
    avatar_hash: Option<&str>,
) -> (r: TargetProfile)
    ensures
        r.display_name@ == (match global_name {
            Some(g) => g@,
            None => name@,
        }),
        match r.avatar_url {
            Some(url) => match avatar_hash {
                Some(h) => url@ == "https://cdn.discordapp.com/avatars/"@ + dec_rep(
                    user_id as nat,
                ) + "/"@ + h@ + ".png?size=128"@,
                None => url@ == "https://cdn.discordapp.com/embed/avatars/"@ + dec_rep(
                    ((user_id >> 22) % 6) as nat,
                ) + ".png"@,
            },
            None => false,
        },
{
    let display_name = match global_name {
        Some(g) => g,
        None => name,
    };
    let url = match avatar_hash {
        Some(h) => avatar_url(user_id, h),
        None => default_avatar_url(user_id),
    };
    TargetProfile { display_name, avatar_url: Some(url) }
}

/// The description block of a moderation action embed: the target
/// mention, the sanitized reason, and the duration when one applies.
pub fn moderation_action_description(
    target_user_id: u64,
    reason: Option<&str>,
    duration: Option<&str>,
) -> (r: String)
    ensures
        r@ == "Target: <@"@ + dec_rep(target_user_id as nat) + ">\nReason: "@ + spec_sanitized(
            match reason {
                Some(t) => t@,
                None => "No reason provided"@,
            },
        ) + (match duration {
            Some(d) => "\nDuration: "@ + d@,
            None => Seq::<char>::empty(),
        }),
{
    let reason_text: &str = match reason {
        Some(t) => t,
        None => "No reason provided",
    };
    let sanitized = sanitize_reason(reason_text);
    let mut out = String::from_str("Target: <@");
    out.append(u64_to_string(target_user_id).as_str());
    out.append(">\nReason: ");
    out.append(sanitized.as_str());
    match duration {
        Some(d) => {
            out.append("\nDuration: ");
            out.append(d);
        },
        None => {},
    }
    out
}

/// The headline of a moderation action embed.
pub fn moderation_action_headline(display_name: &str, action_past_tense: &str) -> (r: String)
    ensures
        r@ == display_name@ + " has been "@ + action_past_tense@,
{
    let mut out = String::from_str(display_name);
    out.append(" has been ");
    out.append(action_past_tense);
    out
}

} // verus!
