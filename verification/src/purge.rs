//! Purge-engine planning: which channels participate, which fetched
//! messages are deleted, how deletions are chunked, and when a channel
//! walk must stop.
//!
//! The caller fetches history pages and performs the deletions; each page
//! is handed here as plain message facts and comes back as an explicit
//! plan, so the classification policy is verified apart from the
//! execution and fallback policy.

use vstd::prelude::*;

verus! {

/// Oldest age, in seconds, the remote API accepts for a bulk delete.
pub const BULK_DELETE_MAX_AGE_SECS: u64 = 14 * 24 * 60 * 60;

/// Safety margin kept inside the bulk-age limit.
pub const BULK_DELETE_SAFETY_BUFFER_SECS: u64 = 60 * 60;

/// Pause between history page fetches within one channel.
pub const HISTORY_PAGE_DELAY_MS: u64 = 1100;

/// Most messages one bulk delete call may carry.
pub const BULK_DELETE_CHUNK: usize = 100;

/// Most messages one history page request may return.
pub const HISTORY_PAGE_LIMIT: u16 = 100;

/// The facts the purge engine reads of one fetched message.
#[derive(Clone, Copy, Debug, PartialEq, Eq, Structural)]
pub struct MessageFacts {
    pub id: u64,
    pub author_id: u64,
    /// Unix seconds; the remote model reports it signed.
    pub timestamp_secs: i64,
}

/// The channel kinds a purge walks; every other kind is skipped.
#[derive(Clone, Copy, Debug, PartialEq, Eq, Structural)]
pub enum ChannelKind {
    GuildText,
    GuildAnnouncement,
    PublicThread,
    PrivateThread,
    Other,
}

/// Whether a channel of this kind carries purgeable text history.
pub open spec fn spec_channel_eligible(kind: ChannelKind) -> bool {
    match kind {
        ChannelKind::GuildText => true,
        ChannelKind::GuildAnnouncement => true,
        ChannelKind::PublicThread => true,
        ChannelKind::PrivateThread => true,
        ChannelKind::Other => false,
    }
}

/// Only text-bearing channel kinds participate in a purge.
pub fn channel_eligible(kind: ChannelKind) -> (r: bool)
    ensures
        r == spec_channel_eligible(kind),
{
    match kind {
        ChannelKind::GuildText => true,
        ChannelKind::GuildAnnouncement => true,
        ChannelKind::PublicThread => true,
        ChannelKind::PrivateThread => true,
        ChannelKind::Other => false,
    }
}

/// The oldest timestamp still eligible for bulk deletion at time `now`:
/// the bulk-age limit minus the safety margin, floored at the epoch and
/// capped to the signed range.
pub open spec fn spec_bulk_delete_cutoff(now_secs: nat) -> int {
    let window = BULK_DELETE_MAX_AGE_SECS - BULK_DELETE_SAFETY_BUFFER_SECS;
    let base = if now_secs >= window {
        now_secs - window
    } else {
        0
    };
    if base > i64::MAX {
        i64::MAX as int
    } else {
        base
    }
}

/// Compute the bulk-eligibility cutoff for a purge starting at `now_secs`.
pub fn bulk_delete_cutoff(now_secs: u64) -> (r: i64)
    ensures
        r as int == spec_bulk_delete_cutoff(now_secs as nat),
{
    let window: u64 = BULK_DELETE_MAX_AGE_SECS - BULK_DELETE_SAFETY_BUFFER_SECS;
    let base: u64 = if now_secs >= window {
        now_secs - window
    } else {
        0
    };
    if base > i64::MAX as u64 {
        i64::MAX
    } else {
        base as i64
    }
}

/// Whether a message is deleted by this purge: written by the target
/// author, and not older than the cutoff when one is set.
pub open spec fn spec_eligible(m: MessageFacts, target_author: u64, cutoff_secs: Option<u64>) -> bool {
    &&& m.author_id == target_author
    &&& match cutoff_secs {
        Some(c) => m.timestamp_secs as int >= c as int,
        None => true,
    }
}

/// Whether an eligible message may go through the bulk path.
pub open spec fn spec_bulk_eligible(m: MessageFacts, bulk_cutoff: i64) -> bool {
    m.timestamp_secs >= bulk_cutoff
}

/// The bulk-candidate ids of a page, in fetch order.
pub open spec fn spec_bulk_ids(
    ms: Seq<MessageFacts>,
    target_author: u64,
    cutoff_secs: Option<u64>,
    bulk_cutoff: i64,
) -> Seq<u64>
    decreases ms.len(),
{
    if ms.len() == 0 {
        Seq::empty()
    } else {
        spec_bulk_ids(ms.drop_last(), target_author, cutoff_secs, bulk_cutoff) + (if spec_eligible(
            ms.last(),
            target_author,
            cutoff_secs,
        ) && spec_bulk_eligible(ms.last(), bulk_cutoff) {
            seq![ms.last().id]
        } else {
            Seq::empty()
        })
    }
}

/// The ids of a page that are deleted one by one: eligible but too old
/// for the bulk path.
pub open spec fn spec_single_ids(
    ms: Seq<MessageFacts>,
    target_author: u64,
    cutoff_secs: Option<u64>,
    bulk_cutoff: i64,
) -> Seq<u64>
    decreases ms.len(),
{
    if ms.len() == 0 {
        Seq::empty()
    } else {
        spec_single_ids(ms.drop_last(), target_author, cutoff_secs, bulk_cutoff) + (
        if spec_eligible(ms.last(), target_author, cutoff_secs) && !spec_bulk_eligible(
            ms.last(),
            bulk_cutoff,
        ) {
            seq![ms.last().id]
        } else {
            Seq::empty()
        })
    }
}

/// Exec comparison `m.timestamp_secs < c` without a narrowing cast.
fn timestamp_before(timestamp_secs: i64, c: u64) -> (r: bool)
    ensures
        r == ((timestamp_secs as int) < (c as int)),
{
    if timestamp_secs < 0 {
        true
    } else {
        (timestamp_secs as u64) < c
    }
}

/// Split a page into bulk candidates and single-delete ids.
pub fn classify_messages(
    messages: &Vec<MessageFacts>,
    target_author: u64,
    cutoff_secs: Option<u64>,
    bulk_cutoff: i64,
) -> (r: (Vec<u64>, Vec<u64>))
    ensures
        r.0@ == spec_bulk_ids(messages@, target_author, cutoff_secs, bulk_cutoff),
        r.1@ == spec_single_ids(messages@, target_author, cutoff_secs, bulk_cutoff),
{
    let mut bulk: Vec<u64> = Vec::new();
    let mut single: Vec<u64> = Vec::new();
    let n = messages.len();
    let mut i: usize = 0;
    proof {
        assert(messages@.take(0) =~= Seq::<MessageFacts>::empty());
    }
    while i < n
        invariant
            0 <= i <= n,
            n == messages@.len(),
            bulk@ == spec_bulk_ids(messages@.take(i as int), target_author, cutoff_secs, bulk_cutoff),
            single@ == spec_single_ids(
                messages@.take(i as int),
                target_author,
                cutoff_secs,
                bulk_cutoff,
            ),
        decreases n - i,
    {
        let m = messages[i];
        proof {
            assert(messages@.take(i as int + 1).drop_last() =~= messages@.take(i as int));
            assert(messages@.take(i as int + 1).last() == messages@[i as int]);
        }
        let eligible: bool = m.author_id == target_author && (match cutoff_secs {
            Some(c) => !timestamp_before(m.timestamp_secs, c),
            None => true,
        });
        if eligible {
            if m.timestamp_secs >= bulk_cutoff {
                bulk.push(m.id);
            } else {
                single.push(m.id);
            }
        }
        i += 1;
    }
    proof {
        assert(messages@.take(n as int) =~= messages@);
    }
    (bulk, single)
}

/// Cutoff stop rule: a page whose oldest (last-fetched) message predates
/// the cutoff ends the channel walk after this page.
pub open spec fn spec_stop_for_cutoff(ms: Seq<MessageFacts>, cutoff_secs: Option<u64>) -> bool {
    match cutoff_secs {
        Some(c) => ms.len() > 0 && (ms.last().timestamp_secs as int) < c as int,
        None => false,
    }
}

/// Whether the walk stops after this page because of the cutoff.
pub fn page_stop_for_cutoff(messages: &Vec<MessageFacts>, cutoff_secs: Option<u64>) -> (r: bool)
    ensures
        r == spec_stop_for_cutoff(messages@, cutoff_secs),
{
    match cutoff_secs {
        Some(c) => {
            if messages.len() == 0 {
                false
            } else {
                timestamp_before(messages[messages.len() - 1].timestamp_secs, c)
            }
        },
        None => false,
    }
}

/// The cursor for the next page request: the oldest message id fetched,
/// used as an exclusive upper bound; pages move strictly backward.
pub fn page_next_cursor(messages: &Vec<MessageFacts>) -> (r: Option<u64>)
    ensures
        match r {
            Some(id) => messages@.len() > 0 && id == messages@.last().id,
            None => messages@.len() == 0,
        },
{
    if messages.len() == 0 {
        None
    } else {
        Some(messages[messages.len() - 1].id)
    }
}

/// Chunks of at most one hundred bulk candidates, exactly as the bulk
/// delete path forms them; a trailing chunk of fewer than two falls back
/// to the single-delete list.
pub open spec fn spec_chunk_plan(s: Seq<u64>) -> (Seq<Seq<u64>>, Seq<u64>)
    decreases s.len(),
{
    if s.len() == 0 {
        (Seq::empty(), Seq::empty())
    } else if s.len() == 1 {
        (Seq::empty(), s)
    } else if s.len() <= 100 {
        (seq![s], Seq::empty())
    } else {
        let rest = spec_chunk_plan(s.skip(100));
        (seq![s.take(100)] + rest.0, rest.1)
    }
}

/// Concatenation of a sequence of chunks.
pub open spec fn concat_all(ss: Seq<Seq<u64>>) -> Seq<u64>
    decreases ss.len(),
{
    if ss.len() == 0 {
        Seq::empty()
    } else {
        ss[0] + concat_all(ss.skip(1))
    }
}

/// Chunking law: every planned bulk call carries between two and one
/// hundred ids, and the chunks plus the fallback list carry exactly the
/// candidates, in order.  With no failures the deleted count is
/// therefore the number of eligible messages.
pub proof fn lemma_chunk_plan_complete(s: Seq<u64>)
    ensures
        forall|k: int|
            0 <= k < spec_chunk_plan(s).0.len() ==> 2 <= (#[trigger] spec_chunk_plan(s).0[k]).len()
                <= 100,
        concat_all(spec_chunk_plan(s).0) + spec_chunk_plan(s).1 =~= s,
        spec_chunk_plan(s).1.len() <= 1,
    decreases s.len(),
{
    let plan = spec_chunk_plan(s);
    if s.len() == 0 {
    } else if s.len() == 1 {
    } else if s.len() <= 100 {
        assert(seq![s].skip(1) =~= Seq::<Seq<u64>>::empty());
        assert(concat_all(seq![s]) =~= s + concat_all(Seq::<Seq<u64>>::empty()));
    } else {
        lemma_chunk_plan_complete(s.skip(100));
        let rest = spec_chunk_plan(s.skip(100));
        assert forall|k: int| 0 <= k < plan.0.len() implies 2 <= (#[trigger] plan.0[k]).len()
            <= 100 by {
            if k > 0 {
                assert(plan.0[k] == rest.0[k - 1]);
            }
        }
        assert((seq![s.take(100)] + rest.0).skip(1) =~= rest.0);
        assert(concat_all(plan.0) =~= s.take(100) + concat_all(rest.0));
        assert(concat_all(plan.0) + plan.1 =~= s.take(100) + (concat_all(rest.0) + rest.1));
        assert(s.take(100) + s.skip(100) =~= s);
    }
}

/// Form the bulk chunks for the candidate ids, and the ids that fall
/// back to single deletion for want of a second chunk member.
pub fn plan_bulk_chunks(candidates: &Vec<u64>) -> (r: (Vec<Vec<u64>>, Vec<u64>))
    ensures
        r.0@.map_values(|c: Vec<u64>| c@) == spec_chunk_plan(candidates@).0,
        r.1@ == spec_chunk_plan(candidates@).1,
{
    let mut chunks: Vec<Vec<u64>> = Vec::new();
    let mut leftover: Vec<u64> = Vec::new();
    let n = candidates.len();
    let mut i: usize = 0;
    proof {
        assert(candidates@.skip(0) =~= candidates@);
        assert(chunks@.map_values(|c: Vec<u64>| c@) =~= Seq::<Seq<u64>>::empty());
    }
    while i < n
        invariant
            0 <= i <= n,
            n == candidates@.len(),
            spec_chunk_plan(candidates@).0 =~~= chunks@.map_values(|c: Vec<u64>| c@)
                + spec_chunk_plan(candidates@.skip(i as int)).0,
            spec_chunk_plan(candidates@).1 =~= leftover@ + spec_chunk_plan(
                candidates@.skip(i as int),
            ).1,
        decreases n - i,
    {
        let remaining = n - i;
        if remaining == 1 {
            leftover.push(candidates[i]);
            proof {
                let rem = candidates@.skip(i as int);
                assert(rem.len() == 1);
                assert(rem =~= seq![candidates@[i as int]]);
                assert(candidates@.skip(n as int) =~= Seq::<u64>::empty());
            }
            i = n;
        } else {
            let end = if remaining < BULK_DELETE_CHUNK {
                n
            } else {
                i + BULK_DELETE_CHUNK
            };
            let mut chunk: Vec<u64> = Vec::new();
            let mut j: usize = i;
            while j < end
                invariant
                    i <= j <= end <= n,
                    n == candidates@.len(),
                    chunk@ == candidates@.subrange(i as int, j as int),
                decreases end - j,
            {
                chunk.push(candidates[j]);
                proof {
                    assert(candidates@.subrange(i as int, j as int + 1) =~= candidates@.subrange(
                        i as int,
                        j as int,
                    ) + seq![candidates@[j as int]]);
                }
                j += 1;
            }
            chunks.push(chunk);
            proof {
                let rem = candidates@.skip(i as int);
                let rem2 = candidates@.skip(end as int);
                if rem.len() <= 100 {
                    assert(end == n);
                    assert(rem =~= candidates@.subrange(i as int, end as int));
                    assert(spec_chunk_plan(rem).0 =~= seq![rem]);
                    assert(spec_chunk_plan(rem2).0 =~= Seq::<Seq<u64>>::empty());
                    assert(spec_chunk_plan(rem2).1 =~= Seq::<u64>::empty());
                } else {
                    assert(end == i + 100);
                    assert(rem.take(100) =~= candidates@.subrange(i as int, end as int));
                    assert(rem.skip(100) =~= rem2);
                }
                assert(chunks@.map_values(|c: Vec<u64>| c@) =~= chunks@.drop_last().map_values(
                    |c: Vec<u64>| c@,
                ).push(candidates@.subrange(i as int, end as int)));
            }
            i = end;
        }
    }
    proof {
        assert(candidates@.skip(n as int) =~= Seq::<u64>::empty());
    }
    (chunks, leftover)
}

/// How many recent messages a purge request removes: the requested
/// amount capped at the page limit, and the fetch count one higher (to
/// cover the command message itself), capped the same way.
pub fn purge_request_counts(requested: u16) -> (r: (u16, u16))
    ensures
        r.0 == if requested < 100 {
            requested
        } else {
            100u16
        },
        r.1 == if r.0 < 100 {
            (r.0 + 1) as u16
        } else {
            100u16
        },
{
    let amount = if requested < 100 {
        requested
    } else {
        100
    };
    let delete_count = if amount < 100 {
        amount + 1
    } else {
        100
    };
    (amount, delete_count)
}

/// One fetched page's delete plan.
pub struct PagePlan {
    /// Bulk delete calls to issue, in order, each of two to one hundred ids.
    pub bulk_chunks: Vec<Vec<u64>>,
    /// Ids deleted one at a time: too old for bulk, or a lone candidate.
    pub single_ids: Vec<u64>,
    /// Whether the cutoff ends the walk after this page.
    pub stop_for_cutoff: bool,
    /// The cursor for the next page request, when one may be made.
    pub next_cursor: Option<u64>,
    /// Whether another page is requested after this one.
    pub fetch_next_page: bool,
}

/// Plan one fetched history page: classify by author, cutoff, and bulk
/// age; chunk the bulk path; and decide whether the walk goes on.  An
/// empty page means the channel is exhausted; a page whose oldest
/// message predates the cutoff is processed but ends the walk.
pub fn plan_purge_page(
    messages: &Vec<MessageFacts>,
    target_author: u64,
    cutoff_secs: Option<u64>,
    bulk_cutoff: i64,
) -> (plan: PagePlan)
    ensures
        plan.bulk_chunks@.map_values(|c: Vec<u64>| c@) == spec_chunk_plan(
            spec_bulk_ids(messages@, target_author, cutoff_secs, bulk_cutoff),
        ).0,
        plan.single_ids@ == spec_single_ids(messages@, target_author, cutoff_secs, bulk_cutoff)
            + spec_chunk_plan(spec_bulk_ids(messages@, target_author, cutoff_secs, bulk_cutoff)).1,
        plan.stop_for_cutoff == spec_stop_for_cutoff(messages@, cutoff_secs),
        match plan.next_cursor {
            Some(id) => messages@.len() > 0 && id == messages@.last().id,
            None => messages@.len() == 0,
        },
        plan.fetch_next_page == (messages@.len() > 0 && !spec_stop_for_cutoff(
            messages@,
            cutoff_secs,
        )),
{
    let classified = classify_messages(messages, target_author, cutoff_secs, bulk_cutoff);
    let chunked = plan_bulk_chunks(&classified.0);
    let mut single_ids = classified.1;
    let mut fallback = chunked.1;
    single_ids.append(&mut fallback);
    let stop_for_cutoff = page_stop_for_cutoff(messages, cutoff_secs);
    let next_cursor = page_next_cursor(messages);
    let fetch_next_page = messages.len() > 0 && !stop_for_cutoff;
    PagePlan { bulk_chunks: chunked.0, single_ids, stop_for_cutoff, next_cursor, fetch_next_page }
}

} // verus!
