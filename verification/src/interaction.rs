//! Validation of inbound component and modal interactions for pagination
//! sessions: the pure decision of how each press is answered.
//!
//! The caller extracts the custom ID, the pressing user, and any modal
//! text input, and performs the response these dispositions call for.

use vstd::prelude::*;

use crate::clock::now_unix_secs;
use crate::numeral::spec_parse_usize;
use crate::strutil::{str_eq, str_starts_with, trim, trim_exec};
use crate::token::{
    parse_custom_id, parse_modal_custom_id, spec_parse_modal, spec_parse_pagination,
    spec_validate_token, validate_custom_id_at, PaginationToken, PaginationValidationError,
};

verus! {

/// Outcome when validating whether an interaction belongs to a pagination
/// command, after any refusal has been answered.
#[derive(Debug, Clone)]
pub enum PaginationInteractionValidation {
    /// Interaction does not target the given command's pagination buttons.
    NotForCommand,
    /// Interaction was invalid and already acknowledged with a response.
    HandledInvalid,
    /// Interaction is valid and carries parsed pagination data.
    Valid { actor_user_id: u64, token: PaginationToken },
}

/// Outcome when validating a pagination jump-modal submit interaction.
#[derive(Debug, Clone)]
pub enum PaginationModalSubmitValidation {
    /// Interaction does not target the given command's pagination modal.
    NotForCommand,
    /// Interaction was invalid and already acknowledged with a response.
    HandledInvalid,
    /// Interaction is valid and carries the actor and requested page.
    Valid { actor_user_id: u64, command: String, requested_page: usize, total_pages_hint: usize },
}

/// What a pagination component press calls for, before any response is
/// sent.
#[derive(Debug, Clone)]
pub enum ComponentDisposition {
    /// Not this command's button; ignore it.
    NotForCommand,
    /// The pressing user cannot be determined; refuse.
    RespondMissingUser,
    /// The session belongs to another user; refuse.
    RespondWrongUser,
    /// The session has expired; refuse.
    RespondExpired,
    /// The token is malformed or out of range; refuse.
    RespondInvalid,
    /// A valid press by the session owner.
    Valid { actor_user_id: u64, token: PaginationToken },
}

/// Whether `s` begins with `prefix`.
pub open spec fn spec_starts_with(s: Seq<char>, prefix: Seq<char>) -> bool {
    prefix.len() <= s.len() && s.take(prefix.len() as int) == prefix
}

/// The refusal a component press for one exact command meets at one
/// clock reading; `None` means the press is valid.
pub open spec fn spec_component_refusal(
    custom_id: Seq<char>,
    command: Seq<char>,
    actor: Option<u64>,
    now_secs: nat,
) -> Option<ComponentDisposition> {
    if !spec_starts_with(custom_id, "pg:"@ + command + ":"@) {
        Some(ComponentDisposition::NotForCommand)
    } else {
        match actor {
            None => Some(ComponentDisposition::RespondMissingUser),
            Some(actor_user_id) => match spec_parse_pagination(custom_id) {
                None => Some(ComponentDisposition::RespondInvalid),
                Some(t) => match spec_validate_token(t, command, actor_user_id as nat, now_secs) {
                    Some(PaginationValidationError::WrongUser) => Some(
                        ComponentDisposition::RespondWrongUser,
                    ),
                    Some(PaginationValidationError::Expired) => Some(
                        ComponentDisposition::RespondExpired,
                    ),
                    Some(_) => Some(ComponentDisposition::RespondInvalid),
                    None => None,
                },
            },
        }
    }
}

/// What validating a component press against one exact command returns
/// at one specific clock reading.
pub open spec fn component_outcome_at(
    custom_id: Seq<char>,
    command: Seq<char>,
    actor: Option<u64>,
    now_secs: nat,
    r: ComponentDisposition,
) -> bool {
    match r {
        ComponentDisposition::Valid { actor_user_id, token } => {
            &&& spec_component_refusal(custom_id, command, actor, now_secs) is None
            &&& actor == Some(actor_user_id)
            &&& spec_parse_pagination(custom_id) == Some(token@)
            &&& spec_validate_token(token@, command, actor_user_id as nat, now_secs) is None
        },
        _ => spec_component_refusal(custom_id, command, actor, now_secs) == Some(r),
    }
}

/// Validate a component press against one exact command, at a given
/// clock reading.
pub fn validate_component_for_command_at(
    custom_id: &str,
    command: &str,
    actor: Option<u64>,
    now_secs: u64,
) -> (r: ComponentDisposition)
    ensures
        component_outcome_at(custom_id@, command@, actor, now_secs as nat, r),
{
    let mut prefix = String::from_str("pg:");
    prefix.append(command);
    prefix.append(":");
    proof {
        assert(prefix@ =~= "pg:"@ + command@ + ":"@);
    }
    if !str_starts_with(custom_id, prefix.as_str()) {
        return ComponentDisposition::NotForCommand;
    }
    let actor_user_id = match actor {
        Some(a) => a,
        None => {
            return ComponentDisposition::RespondMissingUser;
        },
    };
    match validate_custom_id_at(custom_id, command, actor_user_id, now_secs) {
        Ok(token) => ComponentDisposition::Valid { actor_user_id, token },
        Err(PaginationValidationError::WrongUser) => ComponentDisposition::RespondWrongUser,
        Err(PaginationValidationError::Expired) => ComponentDisposition::RespondExpired,
        Err(_) => ComponentDisposition::RespondInvalid,
    }
}

/// Validate a component press against one exact command at the current
/// clock reading; the decision itself is
/// `validate_component_for_command_at`, which holds for every clock value.
pub fn validate_component_for_command(custom_id: &str, command: &str, actor: Option<u64>) -> (r:
    ComponentDisposition)
    ensures
        exists|now_secs: nat|
            #[trigger] component_outcome_at(custom_id@, command@, actor, now_secs, r),
        r matches ComponentDisposition::Valid { actor_user_id, token } ==> actor == Some(
            actor_user_id,
        ) && spec_parse_pagination(custom_id@) == Some(token@),
{
    let now = now_unix_secs();
    let r = validate_component_for_command_at(custom_id, command, actor, now);
    proof {
        assert(component_outcome_at(custom_id@, command@, actor, now as nat, r));
    }
    r
}

/// Whether a token's command key belongs to a command family: the key is
/// the family name itself or extends it with a `|` suffix.
pub open spec fn spec_belongs_to_family(command: Seq<char>, family: Seq<char>) -> bool {
    command == family || spec_starts_with(command, family + "|"@)
}

/// Decide family membership of a command key.
pub fn belongs_to_family(command: &str, family: &str) -> (r: bool)
    ensures
        r == spec_belongs_to_family(command@, family@),
{
    if str_eq(command, family) {
        proof {
            assert(command@ == family@);
        }
        return true;
    }
    let mut prefixed = String::from_str(family);
    prefixed.append("|");
    proof {
        assert(prefixed@ =~= family@ + "|"@);
    }
    str_starts_with(command, prefixed.as_str())
}

/// The refusal a component press for a command family meets at one clock
/// reading: the token is parsed first, and its own command key is then
/// the expected command; `None` means the press is valid.
pub open spec fn spec_component_family_refusal(
    custom_id: Seq<char>,
    family: Seq<char>,
    actor: Option<u64>,
    now_secs: nat,
) -> Option<ComponentDisposition> {
    match spec_parse_pagination(custom_id) {
        None => Some(ComponentDisposition::NotForCommand),
        Some(t) => if !spec_belongs_to_family(t.command, family) {
            Some(ComponentDisposition::NotForCommand)
        } else {
            match actor {
                None => Some(ComponentDisposition::RespondMissingUser),
                Some(actor_user_id) => match spec_validate_token(
                    t,
                    t.command,
                    actor_user_id as nat,
                    now_secs,
                ) {
                    Some(PaginationValidationError::WrongUser) => Some(
                        ComponentDisposition::RespondWrongUser,
                    ),
                    Some(PaginationValidationError::Expired) => Some(
                        ComponentDisposition::RespondExpired,
                    ),
                    Some(_) => Some(ComponentDisposition::RespondInvalid),
                    None => None,
                },
            }
        },
    }
}

/// What validating a component press against a command family returns
/// at one specific clock reading.
pub open spec fn component_family_outcome_at(
    custom_id: Seq<char>,
    command_prefix: Seq<char>,
    actor: Option<u64>,
    now_secs: nat,
    r: ComponentDisposition,
) -> bool {
    match r {
        ComponentDisposition::Valid { actor_user_id, token } => {
            &&& spec_component_family_refusal(custom_id, command_prefix, actor, now_secs) is None
            &&& actor == Some(actor_user_id)
            &&& spec_parse_pagination(custom_id) == Some(token@)
            &&& spec_belongs_to_family(token@.command, command_prefix)
            &&& spec_validate_token(token@, token@.command, actor_user_id as nat, now_secs) is None
        },
        _ => spec_component_family_refusal(custom_id, command_prefix, actor, now_secs) == Some(r),
    }
}

/// Validate a component press against a command family, at a given clock
/// reading.
pub fn validate_component_for_command_prefix_at(
    custom_id: &str,
    command_prefix: &str,
    actor: Option<u64>,
    now_secs: u64,
) -> (r: ComponentDisposition)
    ensures
        component_family_outcome_at(custom_id@, command_prefix@, actor, now_secs as nat, r),
{
    let preview = match parse_custom_id(custom_id) {
        Some(preview) => preview,
        None => {
            return ComponentDisposition::NotForCommand;
        },
    };
    if !belongs_to_family(preview.command.as_str(), command_prefix) {
        return ComponentDisposition::NotForCommand;
    }
    let actor_user_id = match actor {
        Some(a) => a,
        None => {
            return ComponentDisposition::RespondMissingUser;
        },
    };
    match validate_custom_id_at(custom_id, preview.command.as_str(), actor_user_id, now_secs) {
        Ok(token) => ComponentDisposition::Valid { actor_user_id, token },
        Err(PaginationValidationError::WrongUser) => ComponentDisposition::RespondWrongUser,
        Err(PaginationValidationError::Expired) => ComponentDisposition::RespondExpired,
        Err(_) => ComponentDisposition::RespondInvalid,
    }
}

/// Validate a component press against a command family at the current
/// clock reading.
pub fn validate_component_for_command_prefix(
    custom_id: &str,
    command_prefix: &str,
    actor: Option<u64>,
) -> (r: ComponentDisposition)
    ensures
        exists|now_secs: nat|
            #[trigger] component_family_outcome_at(
                custom_id@,
                command_prefix@,
                actor,
                now_secs,
                r,
            ),
        r matches ComponentDisposition::Valid { actor_user_id, token } ==> actor == Some(
            actor_user_id,
        ) && spec_parse_pagination(custom_id@) == Some(token@) && spec_belongs_to_family(
            token@.command,
            command_prefix@,
        ),
{
    let now = now_unix_secs();
    let r = validate_component_for_command_prefix_at(custom_id, command_prefix, actor, now);
    proof {
        assert(component_family_outcome_at(custom_id@, command_prefix@, actor, now as nat, r));
    }
    r
}

/// The page named by a jump-modal text input: trimmed, numeric, and at
/// least one.
pub open spec fn spec_jump_modal_page(raw: Seq<char>) -> Option<usize> {
    match spec_parse_usize(trim(raw)) {
        Some(p) => if p >= 1 {
            Some(p)
        } else {
            None
        },
        None => None,
    }
}

/// Parse the page entered into a jump modal's text input.
pub fn parse_jump_modal_page(raw: &str) -> (r: Option<usize>)
    ensures
        r == spec_jump_modal_page(raw@),
{
    let trimmed = trim_exec(raw);
    match crate::numeral::parse_usize(trimmed.as_str()) {
        Some(page) => {
            if page >= 1 {
                Some(page)
            } else {
                None
            }
        },
        None => None,
    }
}

/// What a jump-modal submit calls for, before any response is sent.
#[derive(Debug, Clone)]
pub enum ModalDisposition {
    /// Not this command's modal; ignore it.
    NotForCommand,
    /// The submitting user cannot be determined; refuse.
    RespondMissingUser,
    /// The session belongs to another user; refuse.
    RespondWrongUser,
    /// The session has expired; refuse.
    RespondExpired,
    /// The page input is missing or not a valid page number; refuse.
    RespondInvalidPage,
    /// A valid submit by the session owner.
    Valid { actor_user_id: u64, command: String, requested_page: usize, total_pages_hint: usize },
}

/// What validating a jump-modal submit returns at one specific clock
/// reading: the modal token must belong to the command family (or match
/// it exactly), be owned by the actor, be unexpired, and carry a valid
/// page input.
pub open spec fn modal_outcome_at(
    modal_custom_id: Seq<char>,
    page_input: Option<Seq<char>>,
    command_prefix: Seq<char>,
    exact: bool,
    actor: Option<u64>,
    now_secs: nat,
    r: ModalDisposition,
) -> bool {
    match spec_parse_modal(modal_custom_id) {
        None => r == ModalDisposition::NotForCommand,
        Some(t) => {
            let matched = if exact {
                t.command == command_prefix
            } else {
                spec_belongs_to_family(t.command, command_prefix)
            };
            if !matched {
                r == ModalDisposition::NotForCommand
            } else {
                match actor {
                    None => r == ModalDisposition::RespondMissingUser,
                    Some(a) => if t.user_id != a as nat {
                        r == ModalDisposition::RespondWrongUser
                    } else if now_secs > t.expires_at {
                        r == ModalDisposition::RespondExpired
                    } else {
                        match page_input {
                            None => r == ModalDisposition::RespondInvalidPage,
                            Some(raw) => match spec_jump_modal_page(raw) {
                                None => r == ModalDisposition::RespondInvalidPage,
                                Some(page) => r matches ModalDisposition::Valid {
                                    actor_user_id,
                                    command,
                                    requested_page,
                                    total_pages_hint,
                                } && actor_user_id == a && command@ == t.command && requested_page
                                    == page && total_pages_hint as nat == t.total_pages,
                            },
                        }
                    },
                }
            }
        },
    }
}

/// The view of an optional page input.
pub open spec fn page_input_view(page_input: Option<&str>) -> Option<Seq<char>> {
    match page_input {
        Some(raw) => Some(raw@),
        None => None,
    }
}

/// Validate a jump-modal submit, at a given clock reading.
pub fn validate_jump_modal_at(
    modal_custom_id: &str,
    page_input: Option<&str>,
    command_prefix: &str,
    exact: bool,
    actor: Option<u64>,
    now_secs: u64,
) -> (r: ModalDisposition)
    ensures
        modal_outcome_at(
            modal_custom_id@,
            page_input_view(page_input),
            command_prefix@,
            exact,
            actor,
            now_secs as nat,
            r,
        ),
{
    let token = match parse_modal_custom_id(modal_custom_id) {
        Some(token) => token,
        None => {
            return ModalDisposition::NotForCommand;
        },
    };
    let matches = if exact {
        str_eq(token.command.as_str(), command_prefix)
    } else {
        belongs_to_family(token.command.as_str(), command_prefix)
    };
    if !matches {
        return ModalDisposition::NotForCommand;
    }
    let actor_user_id = match actor {
        Some(a) => a,
        None => {
            return ModalDisposition::RespondMissingUser;
        },
    };
    if token.user_id != actor_user_id {
        return ModalDisposition::RespondWrongUser;
    }
    if crate::token::is_expired_at(token.expires_at, now_secs) {
        return ModalDisposition::RespondExpired;
    }
    let requested_page = match page_input {
        Some(raw) => match parse_jump_modal_page(raw) {
            Some(page) => page,
            None => {
                return ModalDisposition::RespondInvalidPage;
            },
        },
        None => {
            return ModalDisposition::RespondInvalidPage;
        },
    };
    ModalDisposition::Valid {
        actor_user_id,
        command: token.command,
        requested_page,
        total_pages_hint: token.total_pages,
    }
}

/// Validate a jump-modal submit for an exact command at the current
/// clock reading.
pub fn validate_jump_modal_for_command(
    modal_custom_id: &str,
    page_input: Option<&str>,
    expected_command: &str,
    actor: Option<u64>,
) -> (r: ModalDisposition)
    ensures
        exists|now_secs: nat|
            #[trigger] modal_outcome_at(
                modal_custom_id@,
                page_input_view(page_input),
                expected_command@,
                true,
                actor,
                now_secs,
                r,
            ),
        r matches ModalDisposition::Valid { command, .. } ==> spec_parse_modal(
            modal_custom_id@,
        ) matches Some(t) && command@ == t.command && t.command == expected_command@,
{
    let now = now_unix_secs();
    let r = validate_jump_modal_at(modal_custom_id, page_input, expected_command, true, actor, now);
    proof {
        assert(modal_outcome_at(
            modal_custom_id@,
            page_input_view(page_input),
            expected_command@,
            true,
            actor,
            now as nat,
            r,
        ));
    }
    r
}

/// Validate a jump-modal submit for a command family at the current
/// clock reading.
pub fn validate_jump_modal_for_command_prefix(
    modal_custom_id: &str,
    page_input: Option<&str>,
    command_prefix: &str,
    actor: Option<u64>,
) -> (r: ModalDisposition)
    ensures
        exists|now_secs: nat|
            #[trigger] modal_outcome_at(
                modal_custom_id@,
                page_input_view(page_input),
                command_prefix@,
                false,
                actor,
                now_secs,
                r,
            ),
        r matches ModalDisposition::Valid { command, .. } ==> spec_parse_modal(
            modal_custom_id@,
        ) matches Some(t) && command@ == t.command && spec_belongs_to_family(
            t.command,
            command_prefix@,
        ),
{
    let now = now_unix_secs();
    let r = validate_jump_modal_at(modal_custom_id, page_input, command_prefix, false, actor, now);
    proof {
        assert(modal_outcome_at(
            modal_custom_id@,
            page_input_view(page_input),
            command_prefix@,
            false,
            actor,
            now as nat,
            r,
        ));
    }
    r
}

} // verus!
