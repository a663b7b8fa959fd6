//! Stateless pagination tokens: encoding, parsing, and validation.
//!
//! A token carries one pagination session's whole state inside a component
//! identifier: `pg:<command>:<action>:<page>:<total_pages>:<owner>:<expiry>`.
//! Jump-modal tokens use the distinct tag `pgm` and carry no action or page.
//! Parsing is total: malformed input yields `None`, never a panic.

use vstd::prelude::*;

use crate::clock::now_unix_secs;
use crate::numeral::{
    dec_rep, is_digit, lemma_dec_rep_digits, lemma_dec_val_of_rep, parse_u64, parse_usize,
    spec_parse_u64, spec_parse_usize, u64_to_string, usize_to_string,
};
use crate::strutil::{
    lemma_split_colon_concat, lemma_split_colon_whole, no_colon, split_colon, split_colon_exec,
    str_eq,
};

verus! {

/// Parsed pagination token data from a button custom ID.
#[derive(Debug, Clone)]
pub struct PaginationToken {
    /// Logical command key, possibly with a `|`-delimited family suffix.
    pub command: String,
    /// Button action (`prev`, `next`, or `jump`).
    pub action: String,
    /// Target page number, 1-based.
    pub page: usize,
    /// Total page count.
    pub total_pages: usize,
    /// User that owns this pagination session.
    pub user_id: u64,
    /// Expiry timestamp (unix seconds).
    pub expires_at: u64,
}

/// Mathematical image of a pagination token.
pub struct PaginationTokenV {
    pub command: Seq<char>,
    pub action: Seq<char>,
    pub page: nat,
    pub total_pages: nat,
    pub user_id: nat,
    pub expires_at: nat,
}

impl View for PaginationToken {
    type V = PaginationTokenV;

    open spec fn view(&self) -> PaginationTokenV {
        PaginationTokenV {
            command: self.command@,
            action: self.action@,
            page: self.page as nat,
            total_pages: self.total_pages as nat,
            user_id: self.user_id as nat,
            expires_at: self.expires_at as nat,
        }
    }
}

/// Parsed pagination jump-modal token data from a modal custom ID.
#[derive(Debug, Clone)]
pub struct PaginationModalToken {
    /// Logical command key, possibly with a `|`-delimited family suffix.
    pub command: String,
    /// Total page count at modal-open time; a hint, reconciled later.
    pub total_pages: usize,
    /// User that owns this pagination session.
    pub user_id: u64,
    /// Expiry timestamp (unix seconds).
    pub expires_at: u64,
}

/// Mathematical image of a jump-modal token.
pub struct PaginationModalTokenV {
    pub command: Seq<char>,
    pub total_pages: nat,
    pub user_id: nat,
    pub expires_at: nat,
}

impl View for PaginationModalToken {
    type V = PaginationModalTokenV;

    open spec fn view(&self) -> PaginationModalTokenV {
        PaginationModalTokenV {
            command: self.command@,
            total_pages: self.total_pages as nat,
            user_id: self.user_id as nat,
            expires_at: self.expires_at as nat,
        }
    }
}

/// Validation outcome for pagination button presses.
#[derive(Debug, Clone, Copy, PartialEq, Eq, Structural)]
pub enum PaginationValidationError {
    Invalid,
    WrongCommand,
    WrongUser,
    Expired,
    OutOfRange,
}

/// A token's fields can be carried on the wire unambiguously: the free-text
/// fields are delimiter-free and the numbers fit their machine types.
pub open spec fn encodable_pagination(t: PaginationTokenV) -> bool {
    &&& no_colon(t.command)
    &&& no_colon(t.action)
    &&& t.page <= usize::MAX
    &&& t.total_pages <= usize::MAX
    &&& t.user_id <= u64::MAX
    &&& t.expires_at <= u64::MAX
}

/// The wire form of a pagination token.
pub open spec fn spec_encode_pagination(t: PaginationTokenV) -> Seq<char> {
    "pg"@ + seq![':'] + t.command + seq![':'] + t.action + seq![':'] + dec_rep(t.page) + seq![':']
        + dec_rep(t.total_pages) + seq![':'] + dec_rep(t.user_id) + seq![':'] + dec_rep(
        t.expires_at,
    )
}

/// The exact parse of a pagination custom ID: split on the delimiter,
/// require exactly seven fields, the `pg` tag, and numeric fields.
pub open spec fn spec_parse_pagination(s: Seq<char>) -> Option<PaginationTokenV> {
    let parts = split_colon(s);
    if parts.len() != 7 {
        None
    } else if parts[0] != "pg"@ {
        None
    } else {
        match (spec_parse_usize(parts[3]), spec_parse_usize(parts[4]), spec_parse_u64(parts[5]),
        spec_parse_u64(parts[6])) {
            (Some(page), Some(total_pages), Some(user_id), Some(expires_at)) => Some(
                PaginationTokenV {
                    command: parts[1],
                    action: parts[2],
                    page: page as nat,
                    total_pages: total_pages as nat,
                    user_id: user_id as nat,
                    expires_at: expires_at as nat,
                },
            ),
            _ => None,
        }
    }
}

/// The wire form of a jump-modal token.
pub open spec fn spec_encode_modal(t: PaginationModalTokenV) -> Seq<char> {
    "pgm"@ + seq![':'] + t.command + seq![':'] + dec_rep(t.total_pages) + seq![':'] + dec_rep(
        t.user_id,
    ) + seq![':'] + dec_rep(t.expires_at)
}

/// The exact parse of a jump-modal custom ID.
pub open spec fn spec_parse_modal(s: Seq<char>) -> Option<PaginationModalTokenV> {
    let parts = split_colon(s);
    if parts.len() != 5 {
        None
    } else if parts[0] != "pgm"@ {
        None
    } else {
        match (spec_parse_usize(parts[2]), spec_parse_u64(parts[3]), spec_parse_u64(parts[4])) {
            (Some(total_pages), Some(user_id), Some(expires_at)) => Some(
                PaginationModalTokenV {
                    command: parts[1],
                    total_pages: total_pages as nat,
                    user_id: user_id as nat,
                    expires_at: expires_at as nat,
                },
            ),
            _ => None,
        }
    }
}

/// Build a compact custom ID carrying stateless pagination state.
pub fn build_custom_id(
    command: &str,
    action: &str,
    target_page: usize,
    total_pages: usize,
    user_id: u64,
    expires_at: u64,
) -> (r: String)
    ensures
        r@ == spec_encode_pagination(
            PaginationTokenV {
                command: command@,
                action: action@,
                page: target_page as nat,
                total_pages: total_pages as nat,
                user_id: user_id as nat,
                expires_at: expires_at as nat,
            },
        ),
{
    let mut out = String::from_str("pg");
    out.append(":");
    out.append(command);
    out.append(":");
    out.append(action);
    out.append(":");
    out.append(usize_to_string(target_page).as_str());
    out.append(":");
    out.append(usize_to_string(total_pages).as_str());
    out.append(":");
    out.append(u64_to_string(user_id).as_str());
    out.append(":");
    out.append(u64_to_string(expires_at).as_str());
    proof {
        reveal_strlit(":");
        assert(":"@ =~= seq![':']);
        assert(out@ =~= spec_encode_pagination(
            PaginationTokenV {
                command: command@,
                action: action@,
                page: target_page as nat,
                total_pages: total_pages as nat,
                user_id: user_id as nat,
                expires_at: expires_at as nat,
            },
        ));
    }
    out
}

/// Build a modal custom ID carrying pagination session state.
pub fn build_modal_custom_id(command: &str, total_pages: usize, user_id: u64, expires_at: u64) -> (r:
    String)
    ensures
        r@ == spec_encode_modal(
            PaginationModalTokenV {
                command: command@,
                total_pages: total_pages as nat,
                user_id: user_id as nat,
                expires_at: expires_at as nat,
            },
        ),
{
    let mut out = String::from_str("pgm");
    out.append(":");
    out.append(command);
    out.append(":");
    out.append(usize_to_string(total_pages).as_str());
    out.append(":");
    out.append(u64_to_string(user_id).as_str());
    out.append(":");
    out.append(u64_to_string(expires_at).as_str());
    proof {
        reveal_strlit(":");
        assert(":"@ =~= seq![':']);
        assert(out@ =~= spec_encode_modal(
            PaginationModalTokenV {
                command: command@,
                total_pages: total_pages as nat,
                user_id: user_id as nat,
                expires_at: expires_at as nat,
            },
        ));
    }
    out
}

/// Parse a pagination custom ID; total, and exactly the parsing spec.
pub fn parse_custom_id(custom_id: &str) -> (r: Option<PaginationToken>)
    ensures
        match r {
            Some(t) => spec_parse_pagination(custom_id@) == Some(t@),
            None => spec_parse_pagination(custom_id@) is None,
        },
{
    let parts = split_colon_exec(custom_id);
    if parts.len() != 7 {
        return None;
    }
    if !str_eq(parts[0].as_str(), "pg") {
        return None;
    }
    let page = match parse_usize(parts[3].as_str()) {
        Some(v) => v,
        None => {
            return None;
        },
    };
    let total_pages = match parse_usize(parts[4].as_str()) {
        Some(v) => v,
        None => {
            return None;
        },
    };
    let user_id = match parse_u64(parts[5].as_str()) {
        Some(v) => v,
        None => {
            return None;
        },
    };
    let expires_at = match parse_u64(parts[6].as_str()) {
        Some(v) => v,
        None => {
            return None;
        },
    };
    let token = PaginationToken {
        command: parts[1].clone(),
        action: parts[2].clone(),
        page,
        total_pages,
        user_id,
        expires_at,
    };
    Some(token)
}

/// Parse a pagination modal custom ID; total, and exactly the parsing spec.
pub fn parse_modal_custom_id(custom_id: &str) -> (r: Option<PaginationModalToken>)
    ensures
        match r {
            Some(t) => spec_parse_modal(custom_id@) == Some(t@),
            None => spec_parse_modal(custom_id@) is None,
        },
{
    let parts = split_colon_exec(custom_id);
    if parts.len() != 5 {
        return None;
    }
    if !str_eq(parts[0].as_str(), "pgm") {
        return None;
    }
    let total_pages = match parse_usize(parts[2].as_str()) {
        Some(v) => v,
        None => {
            return None;
        },
    };
    let user_id = match parse_u64(parts[3].as_str()) {
        Some(v) => v,
        None => {
            return None;
        },
    };
    let expires_at = match parse_u64(parts[4].as_str()) {
        Some(v) => v,
        None => {
            return None;
        },
    };
    let token = PaginationModalToken {
        command: parts[1].clone(),
        total_pages,
        user_id,
        expires_at,
    };
    Some(token)
}

/// A digit string has no delimiter in it, and parses back to its value.
pub proof fn lemma_numeral_no_colon(n: nat)
    ensures
        no_colon(dec_rep(n)),
        dec_rep(n).len() >= 1,
        spec_parse_u64(dec_rep(n)) == if n <= u64::MAX {
            Some(n as u64)
        } else {
            None::<u64>
        },
        spec_parse_usize(dec_rep(n)) == if n <= usize::MAX {
            Some(n as usize)
        } else {
            None::<usize>
        },
{
    lemma_dec_rep_digits(n);
    lemma_dec_val_of_rep(n);
    assert forall|i: int| 0 <= i < dec_rep(n).len() implies #[trigger] dec_rep(n)[i] != ':' by {
        assert(is_digit(dec_rep(n)[i]));
    }
    assert(dec_rep(n)[0] != '+') by {
        assert(is_digit(dec_rep(n)[0]));
    }
}

/// Round trip: decoding the wire form of any encodable pagination token
/// gives back exactly that token.
pub proof fn lemma_pagination_round_trip(t: PaginationTokenV)
    requires
        encodable_pagination(t),
    ensures
        spec_parse_pagination(spec_encode_pagination(t)) == Some(t),
{
    reveal_strlit("pg");
    let s = spec_encode_pagination(t);
    lemma_numeral_no_colon(t.page);
    lemma_numeral_no_colon(t.total_pages);
    lemma_numeral_no_colon(t.user_id);
    lemma_numeral_no_colon(t.expires_at);
    let r5 = dec_rep(t.expires_at);
    let r4 = dec_rep(t.user_id) + seq![':'] + r5;
    let r3 = dec_rep(t.total_pages) + seq![':'] + r4;
    let r2 = dec_rep(t.page) + seq![':'] + r3;
    let r1 = t.action + seq![':'] + r2;
    let r0 = t.command + seq![':'] + r1;
    assert(no_colon("pg"@));
    assert(s =~= "pg"@ + seq![':'] + r0);
    lemma_split_colon_concat("pg"@, r0);
    lemma_split_colon_concat(t.command, r1);
    lemma_split_colon_concat(t.action, r2);
    lemma_split_colon_concat(dec_rep(t.page), r3);
    lemma_split_colon_concat(dec_rep(t.total_pages), r4);
    lemma_split_colon_concat(dec_rep(t.user_id), r5);
    lemma_split_colon_whole(r5);
    assert(split_colon(s) =~~= seq![
        "pg"@,
        t.command,
        t.action,
        dec_rep(t.page),
        dec_rep(t.total_pages),
        dec_rep(t.user_id),
        dec_rep(t.expires_at),
    ]);
}

/// Round trip for jump-modal tokens.
pub proof fn lemma_modal_round_trip(t: PaginationModalTokenV)
    requires
        no_colon(t.command),
        t.total_pages <= usize::MAX,
        t.user_id <= u64::MAX,
        t.expires_at <= u64::MAX,
    ensures
        spec_parse_modal(spec_encode_modal(t)) == Some(t),
{
    reveal_strlit("pgm");
    let s = spec_encode_modal(t);
    lemma_numeral_no_colon(t.total_pages);
    lemma_numeral_no_colon(t.user_id);
    lemma_numeral_no_colon(t.expires_at);
    let r3 = dec_rep(t.expires_at);
    let r2 = dec_rep(t.user_id) + seq![':'] + r3;
    let r1 = dec_rep(t.total_pages) + seq![':'] + r2;
    let r0 = t.command + seq![':'] + r1;
    assert(no_colon("pgm"@));
    assert(s =~= "pgm"@ + seq![':'] + r0);
    lemma_split_colon_concat("pgm"@, r0);
    lemma_split_colon_concat(t.command, r1);
    lemma_split_colon_concat(dec_rep(t.total_pages), r2);
    lemma_split_colon_concat(dec_rep(t.user_id), r3);
    lemma_split_colon_whole(r3);
    assert(split_colon(s) =~~= seq![
        "pgm"@,
        t.command,
        dec_rep(t.total_pages),
        dec_rep(t.user_id),
        dec_rep(t.expires_at),
    ]);
}

/// The reason a decoded token is rejected, checked in this order; `None`
/// means the token is accepted.
pub open spec fn spec_validate_token(
    t: PaginationTokenV,
    expected_command: Seq<char>,
    actor_user_id: nat,
    now_secs: nat,
) -> Option<PaginationValidationError> {
    if t.command != expected_command {
        Some(PaginationValidationError::WrongCommand)
    } else if t.user_id != actor_user_id {
        Some(PaginationValidationError::WrongUser)
    } else if t.action != "prev"@ && t.action != "next"@ && t.action != "jump"@ {
        Some(PaginationValidationError::Invalid)
    } else if now_secs > t.expires_at {
        Some(PaginationValidationError::Expired)
    } else if t.page == 0 || t.page > t.total_pages {
        Some(PaginationValidationError::OutOfRange)
    } else {
        None
    }
}

/// An expired token is never accepted, whatever its other fields hold.
pub proof fn lemma_expired_token_rejected(
    t: PaginationTokenV,
    expected_command: Seq<char>,
    actor_user_id: nat,
    now_secs: nat,
)
    requires
        t.expires_at < now_secs,
    ensures
        spec_validate_token(t, expected_command, actor_user_id, now_secs) is Some,
{
}

/// Validate a pagination token against a command, an actor, and a given
/// current time, exactly as the validation spec orders its checks.
pub fn validate_custom_id_at(
    custom_id: &str,
    expected_command: &str,
    actor_user_id: u64,
    now_secs: u64,
) -> (r: Result<PaginationToken, PaginationValidationError>)
    ensures
        match spec_parse_pagination(custom_id@) {
            None => r == Err::<PaginationToken, _>(PaginationValidationError::Invalid),
            Some(t) => match spec_validate_token(
                t,
                expected_command@,
                actor_user_id as nat,
                now_secs as nat,
            ) {
                Some(e) => r == Err::<PaginationToken, _>(e),
                None => r matches Ok(token) && token@ == t,
            },
        },
{
    let token = match parse_custom_id(custom_id) {
        Some(token) => token,
        None => {
            return Err(PaginationValidationError::Invalid);
        },
    };
    if !str_eq(token.command.as_str(), expected_command) {
        return Err(PaginationValidationError::WrongCommand);
    }
    if token.user_id != actor_user_id {
        return Err(PaginationValidationError::WrongUser);
    }
    if !str_eq(token.action.as_str(), "prev") && !str_eq(token.action.as_str(), "next") && !str_eq(
        token.action.as_str(),
        "jump",
    ) {
        return Err(PaginationValidationError::Invalid);
    }
    if now_secs > token.expires_at {
        return Err(PaginationValidationError::Expired);
    }
    if token.page == 0 || token.page > token.total_pages {
        return Err(PaginationValidationError::OutOfRange);
    }
    Ok(token)
}

/// Validate a pagination token for command/user/expiry/page bounds at the
/// current clock reading.
pub fn validate_custom_id(custom_id: &str, expected_command: &str, actor_user_id: u64) -> (r:
    Result<PaginationToken, PaginationValidationError>)
    ensures
        exists|now_secs: nat|
            #[trigger] validate_outcome_at(
                custom_id@,
                expected_command@,
                actor_user_id as nat,
                now_secs,
                r,
            ),
{
    let now = now_unix_secs();
    let r = validate_custom_id_at(custom_id, expected_command, actor_user_id, now);
    proof {
        assert(validate_outcome_at(
            custom_id@,
            expected_command@,
            actor_user_id as nat,
            now as nat,
            r,
        ));
    }
    r
}

/// What validation at one specific clock reading returns.
pub open spec fn validate_outcome_at(
    custom_id: Seq<char>,
    expected_command: Seq<char>,
    actor_user_id: nat,
    now_secs: nat,
    r: Result<PaginationToken, PaginationValidationError>,
) -> bool {
    match spec_parse_pagination(custom_id) {
        None => r == Err::<PaginationToken, _>(PaginationValidationError::Invalid),
        Some(t) => match spec_validate_token(t, expected_command, actor_user_id, now_secs) {
            Some(e) => r == Err::<PaginationToken, _>(e),
            None => r matches Ok(token) && token@ == t,
        },
    }
}

/// Whether a deadline has passed at a given clock reading.
pub fn is_expired_at(expires_at: u64, now_secs: u64) -> (r: bool)
    ensures
        r == (now_secs > expires_at),
{
    now_secs > expires_at
}

/// Whether the provided unix timestamp is already expired at the current
/// clock reading; the comparison itself is `is_expired_at`.
pub fn is_expired(expires_at: u64) -> bool {
    let now = now_unix_secs();
    is_expired_at(expires_at, now)
}

} // verus!
