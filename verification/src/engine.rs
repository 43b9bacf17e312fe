//! The decisions of one poll cycle: assign colors to newly seen folders,
//! order the fan-out results chronologically, and plan the announcements —
//! recordings that pass the optional cutoff and are not yet in the seen-set,
//! each with its folder's color, oldest first.
//!
//! The process around the library fetches the listings, posts each planned
//! announcement in order, and records every successful one in the cache.

use vstd::prelude::*;
use crate::cache::Cache;
use crate::color::random_packed_color;
use crate::recording::{le_start, le_start_exec, passes_cutoff, sorted_by_start, PanoptoSession};

verus! {

broadcast use vstd::seq_lib::group_to_multiset_ensures, vstd::multiset::group_multiset_axioms;

/// One announcement the engine has decided to emit: a recording together
/// with the color of its folder.
#[derive(Debug, Clone)]
pub struct PlannedPost {
    pub session: PanoptoSession,
    pub color: u32,
}

/// Whether a recording is due for announcement against a seen-set: it passes
/// the cutoff and its id has not been announced.
pub open spec fn announceable(
    r: PanoptoSession,
    seen: Set<Seq<char>>,
    filter_since: Option<i64>,
) -> bool {
    passes_cutoff(r, filter_since) && !seen.contains(r.id@)
}

/// The recordings announced by one cycle, in order: walking `recs` from the
/// front, a recording is kept when it is announceable against the seen-set
/// grown by the ids already kept, so one id is never planned twice.
pub open spec fn plan_seq(
    recs: Seq<PanoptoSession>,
    seen: Set<Seq<char>>,
    filter_since: Option<i64>,
) -> Seq<PanoptoSession>
    decreases recs.len(),
{
    if recs.len() == 0 {
        Seq::empty()
    } else {
        let r = recs[0];
        if announceable(r, seen, filter_since) {
            seq![r] + plan_seq(recs.drop_first(), seen.insert(r.id@), filter_since)
        } else {
            plan_seq(recs.drop_first(), seen, filter_since)
        }
    }
}

/// Whether the color map can color a recording: under its folder id, or,
/// failing that, under its `folder` field.
pub open spec fn color_key_known(m: Map<Seq<char>, u32>, r: PanoptoSession) -> bool {
    m.contains_key(r.folder_details.id@) || m.contains_key(r.folder@)
}

/// The color the map gives a recording: the entry for its folder id, falling
/// back to the entry for its `folder` field.
pub open spec fn spec_color_of(m: Map<Seq<char>, u32>, r: PanoptoSession) -> u32 {
    if m.contains_key(r.folder_details.id@) {
        m[r.folder_details.id@]
    } else {
        m[r.folder@]
    }
}

/// Gives every folder that lacks one a freshly drawn color. Existing entries
/// are never touched, so a folder's color is stable across cycles; every
/// listed folder has an entry afterwards, no other key appears, and new
/// entries are 24-bit values. No other cache field changes.
#[verifier::loop_isolation(false)]
pub fn assign_colors(cache: &mut Cache, folders: &Vec<String>)
    requires
        old(cache).wf(),
    ensures
        final(cache).wf(),
        forall|k: Seq<char>|
            old(cache).color_map@.contains_key(k) ==> final(cache).color_map@.contains_key(k)
                && final(cache).color_map@[k] == old(cache).color_map@[k],
        forall|j: int|
            0 <= j < folders@.len() ==> final(cache).color_map@.contains_key(
                (#[trigger] folders@[j])@),
        forall|k: Seq<char>|
            final(cache).color_map@.contains_key(k) ==> old(cache).color_map@.contains_key(k)
                || exists|j: int| 0 <= j < folders@.len() && (#[trigger] folders@[j])@ == k,
        forall|k: Seq<char>|
            final(cache).color_map@.contains_key(k) && !old(cache).color_map@.contains_key(k)
                ==> final(cache).color_map@[k] < 0x1000000,
        final(cache).cached_recordings == old(cache).cached_recordings,
        final(cache).refresh_token == old(cache).refresh_token,
        final(cache).access_token == old(cache).access_token,
        final(cache).access_token_expires == old(cache).access_token_expires,
        final(cache).last_changed_refresh_token == old(cache).last_changed_refresh_token,
        final(cache).last_changed_access_token == old(cache).last_changed_access_token,
{
    let mut j: usize = 0;
    while j < folders.len()
        invariant
            0 <= j <= folders@.len(),
            cache.wf(),
            forall|k: Seq<char>|
                #[trigger] old(cache).color_map@.contains_key(k) ==> cache.color_map@.contains_key(
                    k,
                ) && cache.color_map@[k] == old(cache).color_map@[k],
            forall|p: int|
                0 <= p < j ==> cache.color_map@.contains_key((#[trigger] folders@[p])@),
            forall|k: Seq<char>|
                #[trigger] cache.color_map@.contains_key(k) ==> old(
                    cache,
                ).color_map@.contains_key(k) || exists|p: int|
                    0 <= p < folders@.len() && (#[trigger] folders@[p])@ == k,
            forall|k: Seq<char>|
                #[trigger] cache.color_map@.contains_key(k) && !old(
                    cache,
                ).color_map@.contains_key(k) ==> cache.color_map@[k] < 0x1000000,
            cache.cached_recordings == old(cache).cached_recordings,
            cache.refresh_token == old(cache).refresh_token,
            cache.access_token == old(cache).access_token,
            cache.access_token_expires == old(cache).access_token_expires,
            cache.last_changed_refresh_token == old(cache).last_changed_refresh_token,
            cache.last_changed_access_token == old(cache).last_changed_access_token,
        decreases folders@.len() - j,
    {
        if !cache.color_map.contains_key(&folders[j]) {
            let c = random_packed_color();
            cache.color_map.insert(folders[j].clone(), c);
        }
        j += 1;
    }
}

/// Where a recording is placed when inserted into an already-ordered batch:
/// after every recording that starts no later, so that a newcomer never
/// overtakes an equal or earlier recording.
pub open spec fn insert_pos(s: Seq<PanoptoSession>, x: PanoptoSession) -> int
    decreases s.len(),
{
    if s.len() == 0 {
        0
    } else if le_start(s[0], x) {
        1 + insert_pos(s.drop_first(), x)
    } else {
        0
    }
}

/// The stable ordering of a batch, oldest first: each recording in turn is
/// inserted after all recordings that start no later, so recordings with
/// equal (or missing) start times keep the order the upstream delivered.
pub open spec fn stable_sort(s: Seq<PanoptoSession>) -> Seq<PanoptoSession>
    decreases s.len(),
{
    if s.len() == 0 {
        Seq::empty()
    } else {
        let prev = stable_sort(s.drop_last());
        prev.insert(insert_pos(prev, s.last()), s.last())
    }
}

/// The insert position splits the batch: everything before it starts no
/// later than the newcomer, and the recording at it (if any) starts strictly
/// later.
pub proof fn lemma_insert_pos_props(s: Seq<PanoptoSession>, x: PanoptoSession)
    ensures
        0 <= insert_pos(s, x) <= s.len(),
        forall|j: int| 0 <= j < insert_pos(s, x) ==> le_start(#[trigger] s[j], x),
        insert_pos(s, x) < s.len() ==> !le_start(s[insert_pos(s, x)], x),
    decreases s.len(),
{
    if s.len() > 0 && le_start(s[0], x) {
        lemma_insert_pos_props(s.drop_first(), x);
        assert forall|j: int| 0 <= j < insert_pos(s, x) implies le_start(#[trigger] s[j], x) by {
            if j > 0 {
                assert(le_start(s.drop_first()[j - 1], x));
            }
        }
        if insert_pos(s, x) < s.len() {
            assert(s[insert_pos(s, x)] == s.drop_first()[insert_pos(s.drop_first(), x)]);
        }
    }
}

/// Inserting at the insert position keeps a batch ordered.
proof fn lemma_insert_keeps_sorted(s: Seq<PanoptoSession>, x: PanoptoSession)
    requires
        sorted_by_start(s),
    ensures
        sorted_by_start(s.insert(insert_pos(s, x), x)),
{
    lemma_insert_pos_props(s, x);
    let p = insert_pos(s, x);
    let t = s.insert(p, x);
    assert forall|i: int, j: int| 0 <= i < j < t.len() implies le_start(
        #[trigger] t[i],
        #[trigger] t[j],
    ) by {
        if i < p {
            assert(t[i] == s[i]);
        } else if i > p {
            assert(t[i] == s[i - 1]);
        }
        if j < p {
            assert(t[j] == s[j]);
        } else if j > p {
            assert(t[j] == s[j - 1]);
        }
        if i == p && p < s.len() {
            assert(!le_start(s[p], x));
            assert(le_start(x, s[j - 1]));
        }
    }
}

/// Inserting a recording adds exactly it to the batch's contents.
proof fn lemma_insert_to_multiset(s: Seq<PanoptoSession>, i: int, x: PanoptoSession)
    requires
        0 <= i <= s.len(),
    ensures
        s.insert(i, x).to_multiset() == s.to_multiset().insert(x),
{
    let t = s.insert(i, x);
    assert(t[i] == x);
    assert(t.remove(i) =~= s);
    assert(t.to_multiset().contains(x)) by {
        assert(t.contains(x));
    }
    assert(t.remove(i).to_multiset() =~= t.to_multiset().remove(x));
    assert(t.to_multiset() =~= s.to_multiset().insert(x));
}

/// The stable ordering is ordered and holds exactly the batch's recordings.
pub proof fn lemma_stable_sort_props(s: Seq<PanoptoSession>)
    ensures
        sorted_by_start(stable_sort(s)),
        stable_sort(s).to_multiset() == s.to_multiset(),
    decreases s.len(),
{
    if s.len() > 0 {
        let prev = stable_sort(s.drop_last());
        lemma_stable_sort_props(s.drop_last());
        lemma_insert_pos_props(prev, s.last());
        lemma_insert_keeps_sorted(prev, s.last());
        lemma_insert_to_multiset(prev, insert_pos(prev, s.last()), s.last());
        assert(s.drop_last().push(s.last()) =~= s);
        assert(s.drop_last().push(s.last()).to_multiset() == s.drop_last().to_multiset().insert(
            s.last(),
        ));
    }
}

/// Orders the flattened fan-out results oldest first, recordings lacking a
/// start time before all others, recordings with equal start times in the
/// order the upstream delivered them. The result is exactly the stable
/// ordering of the batch, so it holds exactly the given recordings.
#[verifier::loop_isolation(false)]
pub fn sort_by_start_time(recs: Vec<PanoptoSession>) -> (out: Vec<PanoptoSession>)
    ensures
        out@ == stable_sort(recs@),
        sorted_by_start(out@),
        out@.to_multiset() == recs@.to_multiset(),
{
    let ghost orig = recs@;
    let mut work = recs;
    let mut out: Vec<PanoptoSession> = Vec::new();
    let ghost mut done: int = 0;
    while work.len() > 0
        invariant
            0 <= done <= orig.len(),
            work@ =~= orig.skip(done),
            out@ == stable_sort(orig.take(done)),
            sorted_by_start(out@),
        decreases work@.len(),
    {
        let ghost w0 = work@;
        let x = work.remove(0);
        proof {
            assert(work@ =~= w0.drop_first());
            assert(x == orig[done]);
        }
        let mut p: usize = 0;
        while p < out.len() && le_start_exec(&out[p], &x)
            invariant
                0 <= p <= out@.len(),
                forall|j: int| 0 <= j < p ==> le_start(#[trigger] out@[j], x),
            decreases out@.len() - p,
        {
            p += 1;
        }
        proof {
            lemma_insert_pos_props(out@, x);
            let sp = insert_pos(out@, x);
            if sp < p {
                assert(le_start(out@[sp], x));
                assert(false);
            }
            if p < sp {
                assert(le_start(out@[p as int], x));
                assert(false);
            }
        }
        out.insert(p, x);
        proof {
            let prefix = orig.take(done + 1);
            assert(prefix.drop_last() =~= orig.take(done));
            assert(prefix.last() == x);
            lemma_insert_keeps_sorted(stable_sort(orig.take(done)), x);
            done = done + 1;
        }
    }
    proof {
        assert(orig.take(done) =~= orig);
        lemma_stable_sort_props(orig);
    }
    out
}

/// Whether some entry of `v` views to the same characters as `x`.
fn contains_string(v: &Vec<String>, x: &String) -> (r: bool)
    ensures
        r == exists|j: int| 0 <= j < v@.len() && (#[trigger] v@[j])@ == x@,
{
    let mut i: usize = 0;
    while i < v.len()
        invariant
            0 <= i <= v@.len(),
            forall|j: int| 0 <= j < i ==> (#[trigger] v@[j])@ != x@,
        decreases v@.len() - i,
    {
        if v[i] == *x {
            return true;
        }
        i += 1;
    }
    false
}

/// Plans the announcements of one cycle from the sorted fan-out results: the
/// recordings of `plan_seq` in order, each paired with its folder's color.
/// Recordings already in the cache's seen-set, past duplicates within the
/// batch, and recordings cut off by `filter_since` are left out.
#[verifier::loop_isolation(false)]
pub fn plan_announcements(
    recs: Vec<PanoptoSession>,
    cache: &Cache,
    filter_since: Option<i64>,
) -> (plan: Vec<PlannedPost>)
    requires
        cache.wf(),
        forall|k: int|
            0 <= k < plan_seq(recs@, cache.seen_set(), filter_since).len() ==> color_key_known(
                cache.color_map@,
                #[trigger] plan_seq(recs@, cache.seen_set(), filter_since)[k],
            ),
    ensures
        plan@.len() == plan_seq(recs@, cache.seen_set(), filter_since).len(),
        forall|k: int|
            0 <= k < plan@.len() ==> (#[trigger] plan@[k]).session == plan_seq(
                recs@,
                cache.seen_set(),
                filter_since,
            )[k],
        forall|k: int|
            0 <= k < plan@.len() ==> (#[trigger] plan@[k]).color == spec_color_of(
                cache.color_map@,
                plan@[k].session,
            ),
{
    let ghost goal = plan_seq(recs@, cache.seen_set(), filter_since);
    let mut work = recs;
    let mut plan: Vec<PlannedPost> = Vec::new();
    let mut planned_ids: Vec<String> = Vec::new();
    let ghost mut cur_seen = cache.seen_set();
    while work.len() > 0
        invariant
            plan@.len() == planned_ids@.len(),
            forall|k: int|
                0 <= k < plan@.len() ==> (#[trigger] plan@[k]).session.id@ == planned_ids@[k]@,
            forall|id: Seq<char>|
                cur_seen.contains(id) <==> (cache.is_seen(id) || exists|j: int|
                    0 <= j < planned_ids@.len() && (#[trigger] planned_ids@[j])@ == id),
            plan@.len() + plan_seq(work@, cur_seen, filter_since).len() == goal.len(),
            forall|k: int| 0 <= k < plan@.len() ==> goal[k] == (#[trigger] plan@[k]).session,
            forall|k: int|
                0 <= k < plan_seq(work@, cur_seen, filter_since).len() ==> goal[plan@.len() + k]
                    == #[trigger] plan_seq(work@, cur_seen, filter_since)[k],
            forall|k: int|
                0 <= k < plan@.len() ==> (#[trigger] plan@[k]).color == spec_color_of(
                    cache.color_map@,
                    plan@[k].session,
                ),
        decreases work@.len(),
    {
        let ghost w0 = work@;
        let ghost seen0 = cur_seen;
        let ghost ids0 = planned_ids@;
        let r = work.remove(0);
        proof {
            assert(work@ =~= w0.drop_first());
        }
        let passes = match filter_since {
            None => true,
            Some(cutoff) => match r.start_time {
                None => false,
                Some(start) => start >= cutoff,
            },
        };
        let is_new = passes && !cache.contains_recording(&r.id) && !contains_string(
            &planned_ids,
            &r.id,
        );
        if is_new {
            proof {
                assert(announceable(r, seen0, filter_since));
                assert(plan_seq(w0, seen0, filter_since) == seq![r] + plan_seq(
                    w0.drop_first(),
                    seen0.insert(r.id@),
                    filter_since,
                ));
                assert(plan_seq(w0, seen0, filter_since)[0] == r);
                assert(goal[plan@.len() as int] == r);
            }
            let color = match cache.color_map.get(&r.folder_details.id) {
                Some(c) => c,
                None => match cache.color_map.get(&r.folder) {
                    Some(c) => c,
                    None => {
                        proof {
                            assert(color_key_known(cache.color_map@, goal[plan@.len() as int]));
                            assert(false);
                        }
                        0
                    },
                },
            };
            let ghost rid = r.id@;
            planned_ids.push(r.id.clone());
            plan.push(PlannedPost { session: r, color });
            proof {
                cur_seen = seen0.insert(rid);
                assert(planned_ids@ == ids0.push(plan@[plan@.len() - 1].session.id));
                assert forall|id: Seq<char>|
                    cur_seen.contains(id) implies (cache.is_seen(id) || exists|j: int|
                    0 <= j < planned_ids@.len() && (#[trigger] planned_ids@[j])@ == id) by {
                    if id == rid {
                        assert(planned_ids@[planned_ids@.len() - 1]@ == id);
                    } else {
                        assert(seen0.contains(id));
                        if !cache.is_seen(id) {
                            let j = choose|j: int|
                                0 <= j < ids0.len() && (#[trigger] ids0[j])@ == id;
                            assert(planned_ids@[j]@ == id);
                        }
                    }
                }
                assert forall|id: Seq<char>|
                    (cache.is_seen(id) || exists|j: int|
                        0 <= j < planned_ids@.len() && (#[trigger] planned_ids@[j])@
                            == id) implies cur_seen.contains(id) by {
                    if cache.is_seen(id) {
                        assert(seen0.contains(id));
                    } else {
                        let j = choose|j: int|
                            0 <= j < planned_ids@.len() && (#[trigger] planned_ids@[j])@ == id;
                        if j < ids0.len() {
                            assert(ids0[j]@ == id);
                            assert(seen0.contains(id));
                        } else {
                            assert(id == rid);
                        }
                    }
                }
                assert forall|k: int|
                    0 <= k < plan_seq(work@, cur_seen, filter_since).len() implies goal[plan@.len()
                    + k] == #[trigger] plan_seq(work@, cur_seen, filter_since)[k] by {
                    assert(plan_seq(w0, seen0, filter_since)[k + 1] == plan_seq(
                        work@,
                        cur_seen,
                        filter_since,
                    )[k]);
                }
            }
        } else {
            proof {
                assert(!announceable(r, seen0, filter_since));
                assert(plan_seq(w0, seen0, filter_since) == plan_seq(
                    w0.drop_first(),
                    seen0,
                    filter_since,
                ));
            }
        }
    }
    plan
}

/// Chronological emission: when the batch is sorted oldest-first, the planned
/// announcements come out in non-decreasing start-time order.
pub proof fn lemma_plan_chronological(
    recs: Seq<PanoptoSession>,
    seen: Set<Seq<char>>,
    filter_since: Option<i64>,
)
    requires
        sorted_by_start(recs),
    ensures
        sorted_by_start(plan_seq(recs, seen, filter_since)),
    decreases recs.len(),
{
    if recs.len() > 0 {
        let r = recs[0];
        let rest = recs.drop_first();
        assert(sorted_by_start(rest));
        if announceable(r, seen, filter_since) {
            let tail = plan_seq(rest, seen.insert(r.id@), filter_since);
            lemma_plan_chronological(rest, seen.insert(r.id@), filter_since);
            lemma_plan_subset(rest, seen.insert(r.id@), filter_since);
            assert forall|i: int, j: int|
                0 <= i < j < plan_seq(recs, seen, filter_since).len() implies le_start(
                #[trigger] plan_seq(recs, seen, filter_since)[i],
                #[trigger] plan_seq(recs, seen, filter_since)[j],
            ) by {
                if i == 0 {
                    assert(rest.contains(tail[j - 1]));
                    let w = choose|w: int| 0 <= w < rest.len() && rest[w] == tail[j - 1];
                    assert(le_start(recs[0], recs[w + 1]));
                } else {
                    assert(le_start(tail[i - 1], tail[j - 1]));
                }
            }
        } else {
            lemma_plan_chronological(rest, seen, filter_since);
        }
    }
}

/// Every planned recording comes from the batch.
pub proof fn lemma_plan_subset(
    recs: Seq<PanoptoSession>,
    seen: Set<Seq<char>>,
    filter_since: Option<i64>,
)
    ensures
        forall|x: PanoptoSession|
            plan_seq(recs, seen, filter_since).contains(x) ==> recs.contains(x),
    decreases recs.len(),
{
    if recs.len() > 0 {
        let r = recs[0];
        let rest = recs.drop_first();
        assert forall|x: PanoptoSession|
            plan_seq(recs, seen, filter_since).contains(x) implies recs.contains(x) by {
            let p = plan_seq(recs, seen, filter_since);
            let i = choose|i: int| 0 <= i < p.len() && p[i] == x;
            if announceable(r, seen, filter_since) {
                lemma_plan_subset(rest, seen.insert(r.id@), filter_since);
                if i == 0 {
                    assert(recs[0] == x);
                } else {
                    let tail = plan_seq(rest, seen.insert(r.id@), filter_since);
                    assert(tail[i - 1] == x);
                    assert(tail.contains(x));
                    assert(rest.contains(x));
                    let w = choose|w: int| 0 <= w < rest.len() && rest[w] == x;
                    assert(recs[w + 1] == x);
                }
            } else {
                lemma_plan_subset(rest, seen, filter_since);
                let tail = plan_seq(rest, seen, filter_since);
                assert(tail[i] == x);
                assert(tail.contains(x));
                assert(rest.contains(x));
                let w = choose|w: int| 0 <= w < rest.len() && rest[w] == x;
                assert(recs[w + 1] == x);
            }
        }
    }
}

/// No planned recording carries an id of the seen-set: what has been
/// announced once is never announced again.
pub proof fn lemma_plan_unseen(
    recs: Seq<PanoptoSession>,
    seen: Set<Seq<char>>,
    filter_since: Option<i64>,
)
    ensures
        forall|k: int|
            0 <= k < plan_seq(recs, seen, filter_since).len() ==> !seen.contains(
                (#[trigger] plan_seq(recs, seen, filter_since)[k]).id@,
            ),
    decreases recs.len(),
{
    if recs.len() > 0 {
        let r = recs[0];
        let rest = recs.drop_first();
        if announceable(r, seen, filter_since) {
            lemma_plan_unseen(rest, seen.insert(r.id@), filter_since);
        } else {
            lemma_plan_unseen(rest, seen, filter_since);
        }
    }
}

/// No duplicate announcement within one cycle: the planned ids are pairwise
/// distinct.
pub proof fn lemma_plan_distinct(
    recs: Seq<PanoptoSession>,
    seen: Set<Seq<char>>,
    filter_since: Option<i64>,
)
    ensures
        forall|k1: int, k2: int|
            0 <= k1 < k2 < plan_seq(recs, seen, filter_since).len() ==> (
            #[trigger] plan_seq(recs, seen, filter_since)[k1]).id@ != (
            #[trigger] plan_seq(recs, seen, filter_since)[k2]).id@,
    decreases recs.len(),
{
    if recs.len() > 0 {
        let r = recs[0];
        let rest = recs.drop_first();
        if announceable(r, seen, filter_since) {
            lemma_plan_distinct(rest, seen.insert(r.id@), filter_since);
            lemma_plan_unseen(rest, seen.insert(r.id@), filter_since);
        } else {
            lemma_plan_distinct(rest, seen, filter_since);
        }
    }
}

/// Cutoff honored: with a cutoff set, every planned recording has a start
/// time at or after it; recordings before the cutoff, and recordings without
/// a start time, are never planned.
pub proof fn lemma_plan_cutoff(recs: Seq<PanoptoSession>, seen: Set<Seq<char>>, cutoff: i64)
    ensures
        forall|k: int|
            0 <= k < plan_seq(recs, seen, Some(cutoff)).len() ==> match (#[trigger] plan_seq(
                recs,
                seen,
                Some(cutoff),
            )[k]).start_time {
                Some(start) => start >= cutoff,
                None => false,
            },
    decreases recs.len(),
{
    if recs.len() > 0 {
        let r = recs[0];
        let rest = recs.drop_first();
        if announceable(r, seen, Some(cutoff)) {
            lemma_plan_cutoff(rest, seen.insert(r.id@), cutoff);
        } else {
            lemma_plan_cutoff(rest, seen, cutoff);
        }
    }
}

/// Chronological emission over one whole cycle: the announcements planned
/// from the stable ordering of any batch come out in non-decreasing
/// start-time order, whatever the seen-set and cutoff are.
pub proof fn lemma_cycle_chronological(
    recs: Seq<PanoptoSession>,
    seen: Set<Seq<char>>,
    filter_since: Option<i64>,
)
    ensures
        sorted_by_start(plan_seq(stable_sort(recs), seen, filter_since)),
{
    lemma_stable_sort_props(recs);
    lemma_plan_chronological(stable_sort(recs), seen, filter_since);
}

/// Replaying a cycle announces nothing: once every planned id has been
/// recorded, planning any batch of already-handled recordings against the
/// grown seen-set — the same batch, or any part of it — yields an empty
/// plan. In particular a second cycle over an unchanged upstream response is
/// silent.
pub proof fn lemma_replay_is_empty(
    recs: Seq<PanoptoSession>,
    seen: Set<Seq<char>>,
    seen2: Set<Seq<char>>,
    filter_since: Option<i64>,
)
    requires
        forall|id: Seq<char>| seen.contains(id) ==> seen2.contains(id),
        forall|k: int|
            0 <= k < plan_seq(recs, seen, filter_since).len() ==> seen2.contains(
                (#[trigger] plan_seq(recs, seen, filter_since)[k]).id@,
            ),
    ensures
        plan_seq(recs, seen2, filter_since).len() == 0,
    decreases recs.len(),
{
    if recs.len() > 0 {
        let r = recs[0];
        let rest = recs.drop_first();
        if announceable(r, seen, filter_since) {
            let tail = plan_seq(rest, seen.insert(r.id@), filter_since);
            assert(plan_seq(recs, seen, filter_since)[0] == r);
            assert(seen2.contains(r.id@));
            assert forall|k: int| 0 <= k < tail.len() implies seen2.contains(
                (#[trigger] tail[k]).id@,
            ) by {
                assert(plan_seq(recs, seen, filter_since)[k + 1] == tail[k]);
            }
            lemma_replay_is_empty(rest, seen.insert(r.id@), seen2, filter_since);
        } else {
            assert forall|k: int|
                0 <= k < plan_seq(rest, seen, filter_since).len() implies seen2.contains(
                (#[trigger] plan_seq(rest, seen, filter_since)[k]).id@,
            ) by {
                assert(plan_seq(recs, seen, filter_since)[k] == plan_seq(
                    rest,
                    seen,
                    filter_since,
                )[k]);
            }
            lemma_replay_is_empty(rest, seen, seen2, filter_since);
        }
        assert(!announceable(r, seen2, filter_since));
    }
}

/// No duplicate announcement across cycles: once every id planned in one
/// cycle has been recorded in the seen-set a later cycle plans against, the
/// two cycles share no announced id — whatever the later cycle's batch and
/// cutoff are.
pub proof fn lemma_no_reannouncement(
    recs1: Seq<PanoptoSession>,
    seen1: Set<Seq<char>>,
    filter1: Option<i64>,
    recs2: Seq<PanoptoSession>,
    seen2: Set<Seq<char>>,
    filter2: Option<i64>,
)
    requires
        forall|k: int|
            0 <= k < plan_seq(recs1, seen1, filter1).len() ==> seen2.contains(
                (#[trigger] plan_seq(recs1, seen1, filter1)[k]).id@,
            ),
    ensures
        forall|k1: int, k2: int|
            0 <= k1 < plan_seq(recs1, seen1, filter1).len() && 0 <= k2 < plan_seq(
                recs2,
                seen2,
                filter2,
            ).len() ==> (#[trigger] plan_seq(recs1, seen1, filter1)[k1]).id@ != (
            #[trigger] plan_seq(recs2, seen2, filter2)[k2]).id@,
{
    lemma_plan_unseen(recs2, seen2, filter2);
}

} // verus!
