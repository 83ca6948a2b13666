//! Everything a component's log sources hold, in one list.

use crate::logs::entry::{entries_view, EntryView, LogEntry, LogPage, Timestamp};
use vstd::prelude::*;

verus! {

/// A place that log entries of a component come from.
#[derive(Debug, Clone)]
pub enum LogSource {
    /// The agent inside a guest, asked over HTTP.
    GuestAgent { url: String },
    /// Files of the host, by patterns.
    HostFiles { globs: Vec<String> },
    /// A directory of dumps.
    HostDumps { dir: String },
}

/// Where an entry goes in a list of entries, the newest first: behind the last
/// entry that is not older.
pub open spec fn place(sorted: Seq<EntryView>, t: Timestamp) -> nat
    decreases sorted.len(),
{
    if sorted.len() == 0 || !sorted.last().timestamp.before(t) {
        sorted.len()
    } else {
        place(sorted.drop_last(), t)
    }
}

/// A list of entries with the newest first; entries of one instant keep their
/// order.
pub open spec fn newest_first(s: Seq<EntryView>) -> Seq<EntryView>
    decreases s.len(),
{
    if s.len() == 0 {
        Seq::empty()
    } else {
        let before = newest_first(s.drop_last());
        before.insert(place(before, s.last().timestamp) as int, s.last())
    }
}

/// The answers of the first `n` sources, one behind the other; a source that did
/// not answer adds nothing.
pub open spec fn answers(sources: Seq<Option<Vec<LogEntry>>>, n: nat) -> Seq<EntryView>
    decreases n,
{
    if n == 0 {
        Seq::empty()
    } else {
        match sources[n - 1] {
            Some(entries) => answers(sources, (n - 1) as nat) + entries_view(entries@),
            None => answers(sources, (n - 1) as nat),
        }
    }
}

proof fn lemma_place_bounds(sorted: Seq<EntryView>, t: Timestamp)
    ensures
        place(sorted, t) <= sorted.len(),
        forall|i: int| place(sorted, t) <= i < sorted.len() ==> (#[trigger] sorted[i]).timestamp.before(t),
        place(sorted, t) > 0 ==> !sorted[place(sorted, t) - 1].timestamp.before(t),
    decreases sorted.len(),
{
    if sorted.len() > 0 && sorted.last().timestamp.before(t) {
        lemma_place_bounds(sorted.drop_last(), t);
        assert forall|i: int| place(sorted, t) <= i < sorted.len() implies (#[trigger] sorted[i]).timestamp.before(
            t,
        ) by {
            if i < sorted.len() - 1 {
                assert(sorted.drop_last()[i] == sorted[i]);
            }
        }
        if place(sorted, t) > 0 {
            assert(sorted.drop_last()[place(sorted, t) - 1] == sorted[place(sorted, t) - 1]);
        }
    }
}

fn insert_newest(sorted: &mut Vec<LogEntry>, entry: LogEntry)
    ensures
        entries_view(final(sorted)@) == entries_view(old(sorted)@).insert(
            place(entries_view(old(sorted)@), entry.timestamp) as int,
            entry@,
        ),
{
    let ghost all = entries_view(sorted@);
    let ghost held = sorted@;
    let mut at: usize = sorted.len();
    assert(all.take(at as int) =~= all);
    while at > 0 && sorted[at - 1].timestamp.is_before(&entry.timestamp)
        invariant
            at <= sorted@.len(),
            sorted@ == held,
            all == entries_view(held),
            place(all, entry.timestamp) == place(all.take(at as int), entry.timestamp),
        decreases at,
    {
        assert(all.take(at as int).drop_last() =~= all.take(at - 1));
        assert(all[at - 1] == sorted@[at - 1]@);
        at -= 1;
    }
    proof {
        if at > 0 {
            assert(all.take(at as int).last() == sorted@[at - 1]@);
        }
    }
    sorted.insert(at, entry);
    assert(entries_view(sorted@) =~= all.insert(at as int, entry@));
}

/// What all the sources of a component hold, the newest first. A source that did
/// not answer is left out: that a guest is down makes no error.
pub fn get_logs(sources: Vec<Option<Vec<LogEntry>>>) -> (r: Vec<LogEntry>)
    ensures
        entries_view(r@) == newest_first(answers(sources@, sources@.len())),
{
    let ghost all = sources@;
    let mut r: Vec<LogEntry> = Vec::new();
    assert(entries_view(r@) =~= Seq::empty());
    for source in it: sources
        invariant
            it.seq() == all,
            entries_view(r@) == newest_first(answers(all, it.index() as nat)),
    {
        let ghost done = it.index();
        if let Some(entries) = source {
            let ghost mine = entries@;
            let ghost before = answers(all, done as nat);
            assert(before + entries_view(mine).take(0) =~= before);
            for entry in jt: entries
                invariant
                    jt.seq() == mine,
                    entries_view(r@) == newest_first(
                        before + entries_view(mine).take(jt.index() as int),
                    ),
            {
                let ghost k = jt.index();
                let ghost upto = before + entries_view(mine).take(k + 1);
                insert_newest(&mut r, entry);
                assert(upto.drop_last() =~= before + entries_view(mine).take(k as int));
                assert(upto.last() == entry@);
            }
            assert(entries_view(mine).take(mine.len() as int) =~= entries_view(mine));
        }
    }
    r
}

/// The patterns of a component whose log can be paged: one that has sources, all
/// of them host files.
pub open spec fn pageable(sources: Seq<LogSource>) -> bool {
    sources.len() > 0 && forall|i: int|
        0 <= i < sources.len() ==> (#[trigger] sources[i]) is HostFiles
}

/// All the patterns of the first `n` sources, in order.
pub open spec fn globs_of(sources: Seq<LogSource>, n: nat) -> Seq<Seq<char>>
    decreases n,
{
    if n == 0 {
        Seq::empty()
    } else {
        match sources[n - 1] {
            LogSource::HostFiles { globs } => globs_of(sources, (n - 1) as nat)
                + crate::logs::entry::texts(globs@),
            _ => globs_of(sources, (n - 1) as nat),
        }
    }
}

/// The answer with the patterns to page over.
pub open spec fn globs_paged(sources: Seq<LogSource>, r: Option<Vec<String>>) -> bool {
    match r {
        Some(globs) => pageable(sources) && crate::logs::entry::texts(globs@) == globs_of(
            sources,
            sources.len(),
        ),
        None => !pageable(sources),
    }
}

/// The patterns to page over, where the log of a component can be paged. A log
/// that mixes in a guest or a dump directory has no order to page by.
pub fn paged_globs(sources: &Vec<LogSource>) -> (r: Option<Vec<String>>)
    ensures
        globs_paged(sources@, r),
{
    if sources.len() == 0 {
        return None;
    }
    let mut all: Vec<String> = Vec::new();
    let mut i: usize = 0;
    assert(crate::logs::entry::texts(all@) =~= Seq::empty());
    while i < sources.len()
        invariant
            i <= sources@.len(),
            forall|j: int| 0 <= j < i ==> (#[trigger] sources@[j]) is HostFiles,
            crate::logs::entry::texts(all@) == globs_of(sources@, i as nat),
        decreases sources@.len() - i,
    {
        match &sources[i] {
            LogSource::HostFiles { globs } => {
                let ghost before = all@;
                let mut k: usize = 0;
                assert(crate::logs::entry::texts(before) + crate::logs::entry::texts(globs@).take(
                    0,
                ) =~= crate::logs::entry::texts(before));
                while k < globs.len()
                    invariant
                        k <= globs@.len(),
                        crate::logs::entry::texts(all@) == crate::logs::entry::texts(before)
                            + crate::logs::entry::texts(globs@).take(k as int),
                    decreases globs@.len() - k,
                {
                    let ghost held = all@;
                    all.push(globs[k].clone());
                    assert(crate::logs::entry::texts(all@) =~= crate::logs::entry::texts(held).push(
                        globs@[k as int]@,
                    ));
                    assert(crate::logs::entry::texts(all@) =~= crate::logs::entry::texts(before)
                        + crate::logs::entry::texts(globs@).take(k + 1));
                    k += 1;
                }
                assert(crate::logs::entry::texts(globs@).take(k as int)
                    =~= crate::logs::entry::texts(globs@));
            },
            _ => {
                assert(!(sources@[i as int] is HostFiles));
                return None;
            },
        }
        i += 1;
    }
    Some(all)
}

/// The only page of a log that cannot be paged: everything, and no cursor, so
/// that a reader who follows cursors stops.
pub fn terminal_page(items: Vec<LogEntry>) -> (page: LogPage)
    ensures
        page.items == items,
        page.next_cursor is None,
        page.oldest_cursor is None,
{
    LogPage { items, next_cursor: None, oldest_cursor: None }
}

// ---------------------------------------------------------------------------
// Laws
// ---------------------------------------------------------------------------

/// The newest first: no entry stands before a newer one.
pub open spec fn is_newest_first(s: Seq<EntryView>) -> bool {
    forall|i: int, j: int|
        0 <= i < j < s.len() ==> !(#[trigger] s[i]).timestamp.before((#[trigger] s[j]).timestamp)
}

/// A merged list has the newest entry first.
pub proof fn law_merged_newest_first(s: Seq<EntryView>)
    ensures
        is_newest_first(newest_first(s)),
    decreases s.len(),
{
    if s.len() > 0 {
        law_merged_newest_first(s.drop_last());
        let before = newest_first(s.drop_last());
        let e = s.last();
        lemma_place_bounds(before, e.timestamp);
        let p = place(before, e.timestamp) as int;
        let after = before.insert(p, e);
        assert forall|i: int, j: int| 0 <= i < j < after.len() implies !(
        #[trigger] after[i]).timestamp.before((#[trigger] after[j]).timestamp) by {
            let bi = if i < p {
                i
            } else {
                i - 1
            };
            let bj = if j < p {
                j
            } else {
                j - 1
            };
            if i != p && j != p {
                assert(after[i] == before[bi] && after[j] == before[bj]);
            } else if i == p {
                assert(after[j] == before[j - 1]);
                assert(before[j - 1].timestamp.before(e.timestamp));
            } else {
                assert(after[i] == before[i]);
                if i < p - 1 {
                    assert(!before[i].timestamp.before(before[p - 1].timestamp));
                }
                assert(!before[p - 1].timestamp.before(e.timestamp));
            }
        }
    }
}

/// Merging neither loses an entry nor makes one up.
pub proof fn law_merge_keeps_entries(s: Seq<EntryView>)
    ensures
        newest_first(s).to_multiset() == s.to_multiset(),
    decreases s.len(),
{
    broadcast use vstd::seq_lib::group_to_multiset_ensures;

    if s.len() > 0 {
        law_merge_keeps_entries(s.drop_last());
        let before = newest_first(s.drop_last());
        lemma_place_bounds(before, s.last().timestamp);
        let p = place(before, s.last().timestamp) as int;
        vstd::seq_lib::to_multiset_insert(before, p, s.last());
        assert(s =~= s.drop_last().push(s.last()));
        vstd::seq_lib::to_multiset_build(s.drop_last(), s.last());
    }
}

/// The entries of one instant, in order.
pub open spec fn at_instant(s: Seq<EntryView>, t: Timestamp) -> Seq<EntryView>
    decreases s.len(),
{
    if s.len() == 0 {
        Seq::empty()
    } else if s.last().timestamp == t {
        at_instant(s.drop_last(), t).push(s.last())
    } else {
        at_instant(s.drop_last(), t)
    }
}

proof fn lemma_at_instant_joined(a: Seq<EntryView>, b: Seq<EntryView>, t: Timestamp)
    ensures
        at_instant(a + b, t) == at_instant(a, t) + at_instant(b, t),
    decreases b.len(),
{
    if b.len() == 0 {
        assert(a + b =~= a);
        assert(at_instant(a, t) + at_instant(b, t) =~= at_instant(a, t));
    } else {
        assert((a + b).drop_last() =~= a + b.drop_last());
        lemma_at_instant_joined(a, b.drop_last(), t);
        assert(at_instant(a + b, t) =~= at_instant(a, t) + at_instant(b, t));
    }
}

proof fn lemma_none_at_instant(s: Seq<EntryView>, t: Timestamp)
    requires
        forall|i: int| 0 <= i < s.len() ==> (#[trigger] s[i]).timestamp != t,
    ensures
        at_instant(s, t) == Seq::<EntryView>::empty(),
    decreases s.len(),
{
    if s.len() > 0 {
        assert(s[s.len() - 1].timestamp != t);
        assert forall|i: int| 0 <= i < s.drop_last().len() implies (
        #[trigger] s.drop_last()[i]).timestamp != t by {
            assert(s[i].timestamp != t);
        }
        lemma_none_at_instant(s.drop_last(), t);
    }
}

/// Entries of one instant keep the order in which the sources gave them.
pub proof fn law_merge_is_stable(s: Seq<EntryView>, t: Timestamp)
    ensures
        at_instant(newest_first(s), t) == at_instant(s, t),
    decreases s.len(),
{
    if s.len() > 0 {
        law_merge_is_stable(s.drop_last(), t);
        let before = newest_first(s.drop_last());
        let e = s.last();
        lemma_place_bounds(before, e.timestamp);
        let p = place(before, e.timestamp) as int;
        let head = before.take(p);
        let tail = before.skip(p);
        assert(before =~= head + tail);
        assert(before.insert(p, e) =~= head.push(e) + tail);
        assert(head.push(e).drop_last() =~= head);
        lemma_at_instant_joined(head, tail, t);
        lemma_at_instant_joined(head.push(e), tail, t);
        if e.timestamp == t {
            assert forall|i: int| 0 <= i < tail.len() implies (#[trigger] tail[i]).timestamp
                != t by {
                assert(tail[i] == before[p + i]);
            }
            lemma_none_at_instant(tail, t);
            assert(at_instant(head, t) + at_instant(tail, t) =~= at_instant(head, t));
            assert(at_instant(head.push(e), t) + at_instant(tail, t) =~= at_instant(
                head.push(e),
                t,
            ));
        }
    }
}

proof fn lemma_globs_of(sources: Seq<LogSource>, n: nat, g: Seq<char>)
    requires
        n <= sources.len(),
    ensures
        globs_of(sources, n).contains(g) <==> exists|i: int|
            0 <= i < n && has_glob(#[trigger] sources[i], g),
    decreases n,
{
    if n > 0 {
        lemma_globs_of(sources, (n - 1) as nat, g);
        let before = globs_of(sources, (n - 1) as nat);
        let all = globs_of(sources, n);
        match sources[n - 1] {
            LogSource::HostFiles { globs } => {
                let mine = crate::logs::entry::texts(globs@);
                assert(all == before + mine);
                if all.contains(g) {
                    let j = choose|j: int| 0 <= j < all.len() && all[j] == g;
                    if j < before.len() {
                        assert(before[j] == g);
                    } else {
                        assert(globs@[j - before.len()]@ == g);
                        assert(has_glob(sources[n - 1], g));
                    }
                }
                if before.contains(g) {
                    let j = choose|j: int| 0 <= j < before.len() && before[j] == g;
                    assert(all[j] == g);
                }
                if has_glob(sources[n - 1], g) {
                    let j = choose|j: int| 0 <= j < globs@.len() && (#[trigger] globs@[j])@ == g;
                    assert(all[before.len() + j] == g);
                }
            },
            _ => {},
        }
        if exists|i: int| 0 <= i < n && has_glob(#[trigger] sources[i], g) {
            let i = choose|i: int| 0 <= i < n && has_glob(#[trigger] sources[i], g);
            if i < n - 1 {
                assert(has_glob(sources[i], g));
            }
        }
    }
}

/// A source is host files, and has a pattern.
pub open spec fn has_glob(source: LogSource, g: Seq<char>) -> bool {
    source matches LogSource::HostFiles { globs } && exists|j: int|
        0 <= j < globs@.len() && (#[trigger] globs@[j])@ == g
}

/// A log is paged exactly when it has sources and all of them are host files; it is then
/// paged over every pattern of every source and over no other.
pub proof fn law_only_host_files_are_paged(
    sources: Seq<LogSource>,
    r: Option<Vec<String>>,
    g: Seq<char>,
)
    requires
        globs_paged(sources, r),
    ensures
        r is Some <==> sources.len() > 0 && forall|i: int|
            0 <= i < sources.len() ==> (#[trigger] sources[i]) is HostFiles,
        r matches Some(globs) ==> (crate::logs::entry::texts(globs@).contains(g) <==> exists|i: int|
            0 <= i < sources.len() && has_glob(#[trigger] sources[i], g)),
{
    lemma_globs_of(sources, sources.len(), g);
}

/// Whatever a source answered with is in the list, and nothing that no source answered
/// with.
pub proof fn law_the_list_holds_what_was_answered(
    sources: Seq<Option<Vec<LogEntry>>>,
    n: nat,
    e: EntryView,
)
    requires
        n <= sources.len(),
    ensures
        answers(sources, n).contains(e) <==> exists|i: int|
            0 <= i < n && answered_with(#[trigger] sources[i], e),
    decreases n,
{
    if n > 0 {
        law_the_list_holds_what_was_answered(sources, (n - 1) as nat, e);
        let before = answers(sources, (n - 1) as nat);
        let all = answers(sources, n);
        match sources[n - 1] {
            Some(entries) => {
                let mine = entries_view(entries@);
                if all.contains(e) {
                    let j = choose|j: int| 0 <= j < all.len() && all[j] == e;
                    if j < before.len() {
                        assert(before[j] == e);
                    } else {
                        assert(mine[j - before.len()] == e);
                        assert(answered_with(sources[n - 1], e));
                    }
                }
                if before.contains(e) {
                    let j = choose|j: int| 0 <= j < before.len() && before[j] == e;
                    assert(all[j] == e);
                }
                if mine.contains(e) {
                    let j = choose|j: int| 0 <= j < mine.len() && mine[j] == e;
                    assert(all[before.len() + j] == e);
                }
            },
            None => {},
        }
        if exists|i: int| 0 <= i < n && answered_with(#[trigger] sources[i], e) {
            let i = choose|i: int| 0 <= i < n && answered_with(#[trigger] sources[i], e);
            if i < n - 1 {
                assert(answered_with(sources[i], e));
            }
        }
    }
}

/// A source answered with an entry.
pub open spec fn answered_with(source: Option<Vec<LogEntry>>, e: EntryView) -> bool {
    source matches Some(entries) && entries_view(entries@).contains(e)
}

} // verus!
