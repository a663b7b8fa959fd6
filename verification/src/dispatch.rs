//! Routing of inbound component identifiers to their handlers, and the
//! fixed item list of the pagination test command.

use vstd::prelude::*;

use crate::numeral::dec_rep;
use crate::strutil::str_starts_with;

verus! {

/// Which handler an inbound custom ID belongs to.
#[derive(Clone, Copy, Debug, PartialEq, Eq, Structural)]
pub enum InteractionRoute {
    PermissionsButtons,
    HelpButtons,
    PagetestButtons,
    TerminateButtons,
    PermissionsModal,
    HelpModal,
    PagetestModal,
}

/// Whether `s` begins with `prefix`.
pub open spec fn starts(s: Seq<char>, prefix: Seq<char>) -> bool {
    prefix.len() <= s.len() && s.take(prefix.len() as int) == prefix
}

/// The route of a custom ID: the first matching prefix wins.
pub open spec fn spec_route(s: Seq<char>) -> Option<InteractionRoute> {
    if starts(s, "pg:permissions:"@) {
        Some(InteractionRoute::PermissionsButtons)
    } else if starts(s, "pg:help"@) {
        Some(InteractionRoute::HelpButtons)
    } else if starts(s, "pg:pagetest:"@) {
        Some(InteractionRoute::PagetestButtons)
    } else if starts(s, "terminate:"@) {
        Some(InteractionRoute::TerminateButtons)
    } else if starts(s, "pgm:permissions:"@) {
        Some(InteractionRoute::PermissionsModal)
    } else if starts(s, "pgm:help"@) {
        Some(InteractionRoute::HelpModal)
    } else if starts(s, "pgm:pagetest:"@) {
        Some(InteractionRoute::PagetestModal)
    } else {
        None
    }
}

/// Route an inbound custom ID to the handler its prefix names.
pub fn route_interaction(custom_id: &str) -> (r: Option<InteractionRoute>)
    ensures
        r == spec_route(custom_id@),
{
    if str_starts_with(custom_id, "pg:permissions:") {
        Some(InteractionRoute::PermissionsButtons)
    } else if str_starts_with(custom_id, "pg:help") {
        Some(InteractionRoute::HelpButtons)
    } else if str_starts_with(custom_id, "pg:pagetest:") {
        Some(InteractionRoute::PagetestButtons)
    } else if str_starts_with(custom_id, "terminate:") {
        Some(InteractionRoute::TerminateButtons)
    } else if str_starts_with(custom_id, "pgm:permissions:") {
        Some(InteractionRoute::PermissionsModal)
    } else if str_starts_with(custom_id, "pgm:help") {
        Some(InteractionRoute::HelpModal)
    } else if str_starts_with(custom_id, "pgm:pagetest:") {
        Some(InteractionRoute::PagetestModal)
    } else {
        None
    }
}

/// The sample items the pagination test command renders.
pub fn build_test_items() -> (r: Vec<String>)
    ensures
        r@.len() == 24,
        forall|i: int|
            0 <= i < 24 ==> (#[trigger] r@[i])@ == "Sample pagination item #"@ + dec_rep(
                (i + 1) as nat,
            ),
{
    let mut items: Vec<String> = Vec::new();
    let mut index: usize = 1;
    while index <= 24
        invariant
            1 <= index <= 25,
            items@.len() == index - 1,
            forall|i: int|
                0 <= i < index - 1 ==> (#[trigger] items@[i])@ == "Sample pagination item #"@
                    + dec_rep((i + 1) as nat),
        decreases 25 - index,
    {
        let mut item = String::from_str("Sample pagination item #");
        item.append(crate::numeral::usize_to_string(index).as_str());
        items.push(item);
        index += 1;
    }
    items
}

} // verus!
