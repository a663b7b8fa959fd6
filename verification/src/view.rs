//! Pure view composition: paginated embed payloads, navigation controls,
//! and bullet-list page descriptions.
//!
//! The renderable payload is plain data; turning it into the remote
//! platform's message objects is left to the caller.

use vstd::prelude::*;

use crate::clock::now_unix_secs;
use crate::numeral::dec_rep;
use crate::page::{
    at_least_one, clamp_page, page_window, spec_clamp_page, spec_page_window, spec_total_pages, total_pages,
};
use crate::strutil::views_of;
use crate::token::{build_custom_id, spec_encode_pagination, PaginationTokenV};

verus! {

/// Default embed color used across the bot UI.
pub const DEFAULT_EMBED_COLOR: u32 = 0x905430;

/// A renderable paginated embed: plain fields, ready for a message builder.
pub struct PaginatedEmbed {
    pub title: String,
    pub description: String,
    /// Empty when the embed carries no footer.
    pub footer_text: String,
    pub color: u32,
}

/// One navigation control under a paginated message.
pub struct NavButton {
    /// Token-bearing component identifier.
    pub custom_id: String,
    pub label: String,
    pub disabled: bool,
}

/// Mathematical image of a navigation control.
pub struct NavButtonV {
    pub custom_id: Seq<char>,
    pub label: Seq<char>,
    pub disabled: bool,
}

impl View for NavButton {
    type V = NavButtonV;

    open spec fn view(&self) -> NavButtonV {
        NavButtonV { custom_id: self.custom_id@, label: self.label@, disabled: self.disabled }
    }
}

/// The views of a vector of controls.
pub open spec fn nav_views(buttons: Seq<NavButton>) -> Seq<NavButtonV> {
    buttons.map_values(|b: NavButton| b@)
}

/// The footer line of a paginated embed: a page indicator when there is
/// more than one page, joined with an optional note.
pub open spec fn spec_footer_text(page: nat, total_pages: nat, note: Option<Seq<char>>) -> Seq<
    char,
> {
    let page_part = "Page "@ + dec_rep(page) + "/"@ + dec_rep(total_pages);
    if total_pages > 1 {
        match note {
            Some(n) => if n.len() > 0 {
                page_part + " \u{2022} "@ + n
            } else {
                page_part
            },
            None => page_part,
        }
    } else {
        match note {
            Some(n) => n,
            None => Seq::empty(),
        }
    }
}

/// Build a standard paginated embed with an optional footer suffix.
pub fn build_paginated_embed_with_footer_note(
    title: &str,
    description: String,
    page: usize,
    total_pages: usize,
    footer_note: Option<&str>,
) -> (r: PaginatedEmbed)
    ensures
        r.title@ == title@,
        r.description@ == description@,
        r.color == DEFAULT_EMBED_COLOR,
        r.footer_text@ == spec_footer_text(
            if page >= 1 {
                page as nat
            } else {
                1
            },
            at_least_one(total_pages as nat),
            match footer_note {
                Some(n) => Some(n@),
                None => None,
            },
        ),
{
    let page: usize = if page >= 1 {
        page
    } else {
        1
    };
    let total_pages: usize = if total_pages >= 1 {
        total_pages
    } else {
        1
    };
    let footer_text: String = if total_pages > 1 {
        let mut t = String::from_str("Page ");
        t.append(crate::numeral::usize_to_string(page).as_str());
        t.append("/");
        t.append(crate::numeral::usize_to_string(total_pages).as_str());
        match footer_note {
            Some(note) => {
                if note.unicode_len() > 0 {
                    t.append(" \u{2022} ");
                    t.append(note);
                    t
                } else {
                    t
                }
            },
            None => t,
        }
    } else {
        match footer_note {
            Some(note) => String::from_str(note),
            None => String::new(),
        }
    };
    PaginatedEmbed {
        title: String::from_str(title),
        description,
        footer_text,
        color: DEFAULT_EMBED_COLOR,
    }
}

/// Build a standard paginated embed with consistent styling.
pub fn build_paginated_embed(title: &str, description: String, page: usize, total_pages: usize) -> (
    r: PaginatedEmbed)
    ensures
        r.title@ == title@,
        r.description@ == description@,
        r.color == DEFAULT_EMBED_COLOR,
        r.footer_text@ == spec_footer_text(
            if page >= 1 {
                page as nat
            } else {
                1
            },
            at_least_one(total_pages as nat),
            None,
        ),
{
    build_paginated_embed_with_footer_note(title, description, page, total_pages, None)
}

/// The three navigation controls for a multi-page view at a fixed expiry;
/// no controls at all for a single page.
pub open spec fn spec_nav_components(
    command: Seq<char>,
    current_page: nat,
    total_pages: nat,
    user_id: nat,
    expires_at: nat,
) -> Seq<NavButtonV> {
    if total_pages <= 1 {
        Seq::empty()
    } else {
        let prev_page = if current_page > 1 {
            (current_page - 1) as nat
        } else {
            current_page
        };
        let next_page = if current_page < total_pages {
            current_page + 1
        } else {
            current_page
        };
        seq![
            NavButtonV {
                custom_id: spec_encode_pagination(
                    PaginationTokenV {
                        command,
                        action: "prev"@,
                        page: prev_page,
                        total_pages,
                        user_id,
                        expires_at,
                    },
                ),
                label: "\u{25c0} Prev"@,
                disabled: current_page <= 1,
            },
            NavButtonV {
                custom_id: spec_encode_pagination(
                    PaginationTokenV {
                        command,
                        action: "jump"@,
                        page: current_page,
                        total_pages,
                        user_id,
                        expires_at,
                    },
                ),
                label: "*"@,
                disabled: false,
            },
            NavButtonV {
                custom_id: spec_encode_pagination(
                    PaginationTokenV {
                        command,
                        action: "next"@,
                        page: next_page,
                        total_pages,
                        user_id,
                        expires_at,
                    },
                ),
                label: "Next \u{25b6}"@,
                disabled: current_page >= total_pages,
            },
        ]
    }
}

/// Build previous/jump/next controls for a paginated message, for a given
/// expiry timestamp.  At a boundary the button still exists but targets
/// the current page and is disabled, so no control ever encodes a page
/// outside `[1, total_pages]` when the current page is in that range.
pub fn build_nav_components_at(
    command: &str,
    current_page: usize,
    total_pages: usize,
    user_id: u64,
    expires_at: u64,
) -> (r: Vec<NavButton>)
    ensures
        nav_views(r@) == spec_nav_components(
            command@,
            current_page as nat,
            total_pages as nat,
            user_id as nat,
            expires_at as nat,
        ),
        r@.len() == 0 <==> total_pages <= 1,
{
    if total_pages <= 1 {
        let r: Vec<NavButton> = Vec::new();
        proof {
            assert(nav_views(r@) =~= Seq::<NavButtonV>::empty());
        }
        return r;
    }
    let prev_page: usize = if current_page > 1 {
        current_page - 1
    } else {
        current_page
    };
    let next_page: usize = if current_page < total_pages {
        current_page + 1
    } else {
        current_page
    };
    let prev_button = NavButton {
        custom_id: build_custom_id(command, "prev", prev_page, total_pages, user_id, expires_at),
        label: String::from_str("\u{25c0} Prev"),
        disabled: current_page <= 1,
    };
    let jump_button = NavButton {
        custom_id: build_custom_id(command, "jump", current_page, total_pages, user_id, expires_at),
        label: String::from_str("*"),
        disabled: false,
    };
    let next_button = NavButton {
        custom_id: build_custom_id(command, "next", next_page, total_pages, user_id, expires_at),
        label: String::from_str("Next \u{25b6}"),
        disabled: current_page >= total_pages,
    };
    let mut r: Vec<NavButton> = Vec::new();
    r.push(prev_button);
    r.push(jump_button);
    r.push(next_button);
    proof {
        assert(nav_views(r@) =~= spec_nav_components(
            command@,
            current_page as nat,
            total_pages as nat,
            user_id as nat,
            expires_at as nat,
        ));
    }
    r
}

/// Build previous/jump/next controls with a fresh expiry computed from the
/// current clock reading plus `timeout_secs`; the control layout itself is
/// `build_nav_components_at`, which holds for every clock value.
pub fn build_nav_components(
    command: &str,
    current_page: usize,
    total_pages: usize,
    user_id: u64,
    timeout_secs: u64,
) -> (r: Vec<NavButton>)
    ensures
        r@.len() == 0 <==> total_pages <= 1,
        exists|expires_at: nat|
            nav_views(r@) == #[trigger] spec_nav_components(
                command@,
                current_page as nat,
                total_pages as nat,
                user_id as nat,
                expires_at,
            ),
{
    let now = now_unix_secs();
    let expires_at = if now <= u64::MAX - timeout_secs {
        now + timeout_secs
    } else {
        u64::MAX
    };
    let r = build_nav_components_at(command, current_page, total_pages, user_id, expires_at);
    proof {
        assert(nav_views(r@) == spec_nav_components(
            command@,
            current_page as nat,
            total_pages as nat,
            user_id as nat,
            expires_at as nat,
        ));
    }
    r
}

/// The `- ` bullet lines for a window of items, joined with newlines.
pub open spec fn bulleted_join(items: Seq<Seq<char>>) -> Seq<char>
    decreases items.len(),
{
    if items.len() == 0 {
        Seq::empty()
    } else if items.len() == 1 {
        items[0]
    } else {
        bulleted_join(items.drop_last()) + "\n- "@ + items.last()
    }
}

/// The description shown for one page of a bullet list.
pub open spec fn spec_bulleted_description(items: Seq<Seq<char>>, per_page: nat, page: nat) -> Seq<
    char,
> {
    let total = spec_total_pages(items.len(), per_page);
    let p = spec_clamp_page(page, total);
    let w = spec_page_window(items.len(), per_page, p);
    "- "@ + bulleted_join(items.subrange(w.0 as int, w.1 as int))
}

/// Build a bullet-list description string for a specific page window.
pub fn paginated_bulleted_description(items: &Vec<String>, per_page: usize, page: usize) -> (r:
    String)
    ensures
        r@ == spec_bulleted_description(views_of(items@), per_page as nat, page as nat),
{
    let total = total_pages(items.len(), per_page);
    let p = clamp_page(page, total);
    let window = page_window(items.len(), per_page, p);
    let start = window.0;
    let end = window.1;
    let mut out = String::from_str("- ");
    let ghost vs = views_of(items@);
    let mut i: usize = start;
    proof {
        assert(vs.subrange(start as int, start as int) =~= Seq::<Seq<char>>::empty());
    }
    while i < end
        invariant
            start <= i <= end,
            end <= items@.len(),
            vs == views_of(items@),
            out@ == "- "@ + bulleted_join(vs.subrange(start as int, i as int)),
        decreases end - i,
    {
        if i > start {
            out.append("\n- ");
        }
        out.append(items[i].as_str());
        proof {
            let sub = vs.subrange(start as int, i as int + 1);
            assert(sub.drop_last() =~= vs.subrange(start as int, i as int));
            assert(sub.last() == items@[i as int]@);
            if i == start {
                assert(out@ == "- "@ + bulleted_join(sub));
            } else {
                assert(out@ == "- "@ + bulleted_join(sub));
            }
        }
        i += 1;
    }
    proof {
        assert(vs.subrange(start as int, end as int) == vs.subrange(
            spec_page_window(vs.len(), per_page as nat, p as nat).0 as int,
            spec_page_window(vs.len(), per_page as nat, p as nat).1 as int,
        ));
    }
    out
}

/// Build a paginated embed plus navigation controls with an optional
/// footer note, for a given expiry timestamp.
pub fn build_paginated_view_with_footer_note_at(
    command: &str,
    title: &str,
    description: String,
    page: usize,
    total_pages: usize,
    owner_user_id: u64,
    expires_at: u64,
    footer_note: Option<&str>,
) -> (r: (PaginatedEmbed, Vec<NavButton>))
    ensures
        r.0.title@ == title@,
        r.0.description@ == description@,
        r.0.color == DEFAULT_EMBED_COLOR,
        r.0.footer_text@ == spec_footer_text(
            spec_clamp_page(page as nat, total_pages as nat),
            at_least_one(total_pages as nat),
            match footer_note {
                Some(n) => Some(n@),
                None => None,
            },
        ),
        nav_views(r.1@) == spec_nav_components(
            command@,
            spec_clamp_page(page as nat, total_pages as nat),
            at_least_one(total_pages as nat),
            owner_user_id as nat,
            expires_at as nat,
        ),
        r.1@.len() == 0 <==> total_pages <= 1,
{
    let page = clamp_page(page, total_pages);
    let total_pages: usize = if total_pages >= 1 {
        total_pages
    } else {
        1
    };
    let embed = build_paginated_embed_with_footer_note(
        title,
        description,
        page,
        total_pages,
        footer_note,
    );
    let components = build_nav_components_at(command, page, total_pages, owner_user_id, expires_at);
    (embed, components)
}

/// Build a paginated embed plus navigation controls with an optional
/// footer note and a fresh expiry from the current clock reading.
pub fn build_paginated_view_with_footer_note(
    command: &str,
    title: &str,
    description: String,
    page: usize,
    total_pages: usize,
    owner_user_id: u64,
    timeout_secs: u64,
    footer_note: Option<&str>,
) -> (r: (PaginatedEmbed, Vec<NavButton>))
    ensures
        r.0.title@ == title@,
        r.0.description@ == description@,
        r.0.color == DEFAULT_EMBED_COLOR,
        r.0.footer_text@ == spec_footer_text(
            spec_clamp_page(page as nat, total_pages as nat),
            at_least_one(total_pages as nat),
            match footer_note {
                Some(n) => Some(n@),
                None => None,
            },
        ),
        r.1@.len() == 0 <==> total_pages <= 1,
        exists|expires_at: nat|
            nav_views(r.1@) == #[trigger] spec_nav_components(
                command@,
                spec_clamp_page(page as nat, total_pages as nat),
                at_least_one(total_pages as nat),
                owner_user_id as nat,
                expires_at,
            ),
{
    let now = now_unix_secs();
    let expires_at = if now <= u64::MAX - timeout_secs {
        now + timeout_secs
    } else {
        u64::MAX
    };
    let r = build_paginated_view_with_footer_note_at(
        command,
        title,
        description,
        page,
        total_pages,
        owner_user_id,
        expires_at,
        footer_note,
    );
    proof {
        assert(nav_views(r.1@) == spec_nav_components(
            command@,
            spec_clamp_page(page as nat, total_pages as nat),
            at_least_one(total_pages as nat),
            owner_user_id as nat,
            expires_at as nat,
        ));
    }
    r
}

/// Build a paginated embed plus navigation controls from a pre-rendered
/// description.
pub fn build_paginated_view(
    command: &str,
    title: &str,
    description: String,
    page: usize,
    total_pages: usize,
    owner_user_id: u64,
    timeout_secs: u64,
) -> (r: (PaginatedEmbed, Vec<NavButton>))
    ensures
        r.0.title@ == title@,
        r.0.description@ == description@,
        r.0.color == DEFAULT_EMBED_COLOR,
        r.0.footer_text@ == spec_footer_text(
            spec_clamp_page(page as nat, total_pages as nat),
            at_least_one(total_pages as nat),
            None,
        ),
        r.1@.len() == 0 <==> total_pages <= 1,
        exists|expires_at: nat|
            nav_views(r.1@) == #[trigger] spec_nav_components(
                command@,
                spec_clamp_page(page as nat, total_pages as nat),
                at_least_one(total_pages as nat),
                owner_user_id as nat,
                expires_at,
            ),
{
    build_paginated_view_with_footer_note(
        command,
        title,
        description,
        page,
        total_pages,
        owner_user_id,
        timeout_secs,
        None,
    )
}

/// Build a generic paginated list view at a fixed expiry: one page of
/// the items as a bullet list, plus navigation controls.
pub fn build_paginated_list_view_at(
    command: &str,
    title: &str,
    items: &Vec<String>,
    page: usize,
    per_page: usize,
    owner_user_id: u64,
    expires_at: u64,
) -> (r: (PaginatedEmbed, Vec<NavButton>))
    ensures
        r.0.title@ == title@,
        r.0.description@ == spec_bulleted_description(
            views_of(items@),
            per_page as nat,
            page as nat,
        ),
        r.0.color == DEFAULT_EMBED_COLOR,
        r.1@.len() == 0 <==> spec_total_pages(items@.len(), per_page as nat) <= 1,
{
    let total = total_pages(items.len(), per_page);
    let page = clamp_page(page, total);
    let description = paginated_bulleted_description(items, per_page, page);
    proof {
        crate::page::lemma_clamp_page_law(page as nat, total as nat);
    }
    build_paginated_view_with_footer_note_at(
        command,
        title,
        description,
        page,
        total,
        owner_user_id,
        expires_at,
        None,
    )
}

/// Build a generic paginated list view: one page of the items as a bullet
/// list, plus navigation controls.
pub fn build_paginated_list_view(
    command: &str,
    title: &str,
    items: &Vec<String>,
    page: usize,
    per_page: usize,
    owner_user_id: u64,
    timeout_secs: u64,
) -> (r: (PaginatedEmbed, Vec<NavButton>))
    ensures
        r.0.title@ == title@,
        r.0.description@ == spec_bulleted_description(
            views_of(items@),
            per_page as nat,
            page as nat,
        ),
        r.0.color == DEFAULT_EMBED_COLOR,
        r.1@.len() == 0 <==> spec_total_pages(items@.len(), per_page as nat) <= 1,
{
    let total = total_pages(items.len(), per_page);
    let page = clamp_page(page, total);
    let description = paginated_bulleted_description(items, per_page, page);
    proof {
        crate::page::lemma_clamp_page_law(page as nat, total as nat);
    }
    build_paginated_view(
        command,
        title,
        description,
        page,
        total,
        owner_user_id,
        timeout_secs,
    )
}

} // verus!
