//! Pure pagination arithmetic: page counts, clamping, windowing, and
//! modal-hint reconciliation.

use vstd::prelude::*;

use crate::numeral::spec_parse_usize;

verus! {

/// A count floored at one.
pub open spec fn at_least_one(n: nat) -> nat {
    if n >= 1 {
        n
    } else {
        1
    }
}

/// The effective page size: a page never holds fewer than one item.
pub open spec fn safe_per_page(per_page: nat) -> nat {
    if per_page >= 1 {
        per_page
    } else {
        1
    }
}

/// Number of pages needed for `item_count` items: the ceiling of
/// `item_count / per_page`, with a page size floor of one.
pub open spec fn spec_total_pages(item_count: nat, per_page: nat) -> nat {
    ((item_count + safe_per_page(per_page) - 1) / (safe_per_page(per_page) as int)) as nat
}

/// A requested page clamped into `[1, max(total_pages, 1)]`.
pub open spec fn spec_clamp_page(page: nat, total_pages: nat) -> nat {
    let hi = if total_pages >= 1 {
        total_pages
    } else {
        1
    };
    if page < 1 {
        1
    } else if page > hi {
        hi
    } else {
        page
    }
}

/// The half-open item window `[start, end)` shown on `page`.
pub open spec fn spec_page_window(total_items: nat, per_page: nat, page: nat) -> (nat, nat) {
    let q = safe_per_page(per_page);
    let raw_start = if page >= 1 {
        (page - 1) * q
    } else {
        0
    };
    let start = if raw_start > total_items {
        total_items
    } else {
        raw_start as nat
    };
    let end = if start + q > total_items {
        total_items
    } else {
        start + q
    };
    (start, end)
}

/// Compute the number of pages for a paginated list.
pub fn total_pages(item_count: usize, per_page: usize) -> (r: usize)
    ensures
        r == spec_total_pages(item_count as nat, per_page as nat),
{
    let q: usize = if per_page >= 1 {
        per_page
    } else {
        1
    };
    proof {
        assert(q as nat == safe_per_page(per_page as nat));
    }
    if item_count == 0 {
        proof {
            assert((q as int - 1) / (q as int) == 0) by (nonlinear_arith)
                requires
                    q >= 1,
            ;
        }
        0
    } else {
        let r = (item_count - 1) / q + 1;
        proof {
            assert(r as int == (item_count + q - 1) as int / (q as int)) by (nonlinear_arith)
                requires
                    q >= 1,
                    item_count >= 1,
                    r as int == (item_count - 1) as int / (q as int) + 1,
            ;
        }
        r
    }
}

/// Clamp a requested page into a valid range.
pub fn clamp_page(page: usize, total_pages: usize) -> (r: usize)
    ensures
        r == spec_clamp_page(page as nat, total_pages as nat),
{
    let hi: usize = if total_pages >= 1 {
        total_pages
    } else {
        1
    };
    if page < 1 {
        1
    } else if page > hi {
        hi
    } else {
        page
    }
}

/// Clamping always lands in `[1, max(total, 1)]`, and clamping twice is
/// the same as clamping once, for any page including zero.
pub proof fn lemma_clamp_page_law(page: nat, total_pages: nat)
    ensures
        1 <= spec_clamp_page(page, total_pages),
        spec_clamp_page(page, total_pages) <= if total_pages >= 1 {
            total_pages
        } else {
            1
        },
        spec_clamp_page(spec_clamp_page(page, total_pages), total_pages) == spec_clamp_page(
            page,
            total_pages,
        ),
{
}

/// Resolve a modal-entered page using the modal's total-pages hint.
///
/// The hint can be stale in either direction; the target is bounded by
/// the smaller of the live total and the hinted total, so a stale hint
/// can only restrict the jump, never widen it.
pub fn resolve_modal_target_page(
    entered_page: usize,
    current_total_pages: usize,
    hinted_total_pages: usize,
) -> (r: usize)
    ensures
        r == spec_clamp_page(
            entered_page as nat,
            (if current_total_pages <= (if hinted_total_pages >= 1 {
                hinted_total_pages
            } else {
                1
            }) {
                current_total_pages
            } else {
                if hinted_total_pages >= 1 {
                    hinted_total_pages
                } else {
                    1
                }
            }) as nat,
        ),
{
    let hint_floor: usize = if hinted_total_pages >= 1 {
        hinted_total_pages
    } else {
        1
    };
    let max_allowed_page: usize = if current_total_pages <= hint_floor {
        current_total_pages
    } else {
        hint_floor
    };
    clamp_page(entered_page, max_allowed_page)
}

/// Return start/end indices for a page window.
pub fn page_window(total_items: usize, per_page: usize, page: usize) -> (r: (usize, usize))
    ensures
        (r.0 as nat, r.1 as nat) == spec_page_window(total_items as nat, per_page as nat, page as nat),
        r.0 <= r.1 <= total_items,
{
    let q: usize = if per_page >= 1 {
        per_page
    } else {
        1
    };
    let pm1: usize = if page >= 1 {
        page - 1
    } else {
        0
    };
    let start: usize = if pm1 > total_items / q {
        total_items
    } else {
        proof {
            assert(pm1 * q <= total_items) by (nonlinear_arith)
                requires
                    q >= 1,
                    pm1 as int <= total_items as int / (q as int),
            ;
        }
        let s = pm1 * q;
        if s > total_items {
            total_items
        } else {
            s
        }
    };
    proof {
        assert(pm1 > total_items / q ==> pm1 * q > total_items) by (nonlinear_arith)
            requires
                q >= 1,
        ;
    }
    let end: usize = if q >= total_items - start {
        total_items
    } else {
        start + q
    };
    (start, end)
}

/// Window law: consecutive page windows tile the item range exactly.
/// The first window starts at zero, each window ends where the next
/// begins, and the last window ends at the item count.
pub proof fn lemma_window_partition(total_items: nat, per_page: nat)
    ensures
        spec_total_pages(total_items, per_page) >= 1 ==> spec_page_window(
            total_items,
            per_page,
            1,
        ).0 == 0,
        forall|p: nat|
            1 <= p < spec_total_pages(total_items, per_page) ==> (#[trigger] spec_page_window(
                total_items,
                per_page,
                p,
            )).1 == spec_page_window(total_items, per_page, p + 1).0,
        spec_total_pages(total_items, per_page) >= 1 ==> spec_page_window(
            total_items,
            per_page,
            spec_total_pages(total_items, per_page),
        ).1 == total_items,
{
    let q = safe_per_page(per_page);
    let total = spec_total_pages(total_items, per_page);
    assert(total_items >= 1 ==> (total - 1) * q < total_items) by (nonlinear_arith)
        requires
            q >= 1,
            total == (total_items + q - 1) as int / (q as int),
    ;
    assert(total_items <= total * q) by (nonlinear_arith)
        requires
            q >= 1,
            total == (total_items + q - 1) as int / (q as int),
    ;
    assert(total_items == 0 ==> total == 0) by (nonlinear_arith)
        requires
            q >= 1,
            total == (total_items + q - 1) as int / (q as int),
    ;
    assert forall|p: nat| 1 <= p < total implies (#[trigger] spec_page_window(
        total_items,
        per_page,
        p,
    )).1 == spec_page_window(total_items, per_page, p + 1).0 by {
        assert(total_items >= 1);
        assert(p * q < total_items && (p - 1) * q <= p * q && (p - 1) * q + q == p * q)
            by (nonlinear_arith)
            requires
                q >= 1,
                1 <= p,
                p <= total - 1,
                (total - 1) * q < total_items,
        ;
    }
    if total >= 1 {
        assert(total_items >= 1);
        assert((total - 1) * q + q == total * q) by (nonlinear_arith);
    }
}

/// The first `upto` page windows of `s`, concatenated in page order.
pub open spec fn spec_windows_concat<A>(s: Seq<A>, per_page: nat, upto: nat) -> Seq<A>
    decreases upto,
{
    if upto == 0 {
        Seq::empty()
    } else {
        let w = spec_page_window(s.len(), per_page, upto);
        spec_windows_concat(s, per_page, (upto - 1) as nat) + s.subrange(w.0 as int, w.1 as int)
    }
}

/// Concatenating every page window reconstructs the items exactly: no
/// gaps and no overlaps.
pub proof fn lemma_windows_reconstruct<A>(s: Seq<A>, per_page: nat)
    ensures
        spec_windows_concat(s, per_page, spec_total_pages(s.len(), per_page)) =~= s,
{
    let total = spec_total_pages(s.len(), per_page);
    lemma_window_partition(s.len(), per_page);
    if total == 0 {
        let q = safe_per_page(per_page);
        assert(s.len() == 0) by (nonlinear_arith)
            requires
                q >= 1,
                (s.len() + q - 1) as int / (q as int) == 0,
        ;
        assert(spec_windows_concat(s, per_page, 0) =~= s);
    } else {
        lemma_windows_prefix(s, per_page, total, total);
        assert(spec_page_window(s.len(), per_page, total).1 == s.len());
        assert(s.take(s.len() as int) =~= s);
    }
}

/// The first `p` windows cover exactly the items before page `p`'s end.
proof fn lemma_windows_prefix<A>(s: Seq<A>, per_page: nat, p: nat, total: nat)
    requires
        total == spec_total_pages(s.len(), per_page),
        1 <= p <= total,
    ensures
        spec_windows_concat(s, per_page, p) =~= s.take(
            spec_page_window(s.len(), per_page, p).1 as int,
        ),
    decreases p,
{
    lemma_window_partition(s.len(), per_page);
    let w = spec_page_window(s.len(), per_page, p);
    if p == 1 {
        assert(w.0 == 0);
        assert(spec_windows_concat(s, per_page, 0) =~= Seq::<A>::empty());
        assert(s.subrange(0, w.1 as int) =~= s.take(w.1 as int));
    } else {
        lemma_windows_prefix(s, per_page, (p - 1) as nat, total);
        let prev = spec_page_window(s.len(), per_page, (p - 1) as nat);
        assert(prev.1 == w.0);
        assert(s.take(prev.1 as int) + s.subrange(w.0 as int, w.1 as int) =~= s.take(w.1 as int));
    }
}

/// Parse a one-based page argument.
///
/// A missing argument selects the first page; a present one must be a
/// valid positive number.
pub fn parse_one_based_page(raw: Option<&str>) -> (r: Option<usize>)
    ensures
        match raw {
            None => r == Some(1usize),
            Some(s) => r == (match spec_parse_usize(s@) {
                Some(p) => if p >= 1 {
                    Some(p)
                } else {
                    None
                },
                None => None,
            }),
        },
{
    match raw {
        Some(value) => {
            match crate::numeral::parse_usize(value) {
                Some(page) => {
                    if page >= 1 {
                        Some(page)
                    } else {
                        None
                    }
                },
                None => None,
            }
        },
        None => Some(1),
    }
}

} // verus!
