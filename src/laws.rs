//! Properties of the service that relate several operations, stated over the
//! same models that the operations' contracts use.
use vstd::prelude::*;
use crate::commands::{created, redirected};
use crate::service::{
    apply_events, bump, count_or_zero, counts_of, expand, lemma_apply_concat, lemma_apply_push,
    lemma_links_counted, link_events, links_of, replay_of, snapshot_of, Derived,
};
use crate::structs::{Event, EventData, LinkData, Slug, Url};
use crate::table::entries_map;

verus! {

/// The number of creation events for slug `k` in a log.
pub open spec fn created_count(log: Seq<Event>, k: Seq<char>) -> nat
    decreases log.len(),
{
    if log.len() == 0 {
        0
    } else {
        created_count(log.drop_last(), k) + match log.last().data {
            EventData::LincCreated { slug, url } => if slug@ == k {
                1nat
            } else {
                0nat
            },
            _ => 0nat,
        }
    }
}

/// The log after `n` redirects through `slug`, one after the other.
pub open spec fn redirected_times(log: Seq<Event>, slug: Slug, n: nat) -> Seq<Event>
    decreases n,
{
    if n == 0 {
        log
    } else {
        redirected(redirected_times(log, slug, (n - 1) as nat), slug)
    }
}

/// A slug has a url exactly when the log holds a creation event for it.
pub proof fn lemma_linked_iff_created(log: Seq<Event>, k: Seq<char>)
    ensures
        links_of(log).contains_key(k) <==> created_count(log, k) > 0,
    decreases log.len(),
{
    if log.len() > 0 {
        lemma_linked_iff_created(log.drop_last(), k);
        lemma_apply_push(log.drop_last(), log.last());
        assert(log.drop_last().push(log.last()) =~= log);
    }
}

/// Right after a link is created, its slug maps to its url and its redirect
/// count is zero.
pub proof fn lemma_created_starts_at_zero(log: Seq<Event>, slug: Slug, url: Url)
    ensures
        links_of(log.push(created(slug, url))).contains_key(slug@),
        links_of(log.push(created(slug, url)))[slug@] == url@,
        count_or_zero(log.push(created(slug, url)), slug@) == 0,
{
    lemma_apply_push(log, created(slug, url));
}

/// Creating a link under a free slug leaves exactly one creation event for it
/// in the log, and the slug is then taken, so that every later creation under
/// it is refused and leaves the log as it is.
pub proof fn lemma_single_creation(log: Seq<Event>, slug: Slug, url: Url)
    requires
        !links_of(log).contains_key(slug@),
    ensures
        links_of(log.push(created(slug, url))).contains_key(slug@),
        created_count(log.push(created(slug, url)), slug@) == 1,
{
    let l1 = log.push(created(slug, url));
    lemma_linked_iff_created(log, slug@);
    lemma_apply_push(log, created(slug, url));
    assert(l1.drop_last() =~= log);
}

/// No slug has more than one creation event in the log.
pub open spec fn creations_unique(log: Seq<Event>) -> bool {
    forall|k: Seq<char>| #[trigger] created_count(log, k) <= 1
}

/// Creating a link under a free slug, the only way a creation event is
/// appended, keeps slugs unique among all slugs ever created.
pub proof fn lemma_create_keeps_creations_unique(log: Seq<Event>, slug: Slug, url: Url)
    requires
        creations_unique(log),
        !links_of(log).contains_key(slug@),
    ensures
        creations_unique(log.push(created(slug, url))),
{
    let l1 = log.push(created(slug, url));
    assert(l1.drop_last() =~= log);
    lemma_linked_iff_created(log, slug@);
    assert forall|k: Seq<char>| #[trigger] created_count(l1, k) <= 1 by {
        assert(created_count(log, k) <= 1);
    }
}

/// A redirect appends no creation event, so it keeps slugs unique.
pub proof fn lemma_redirect_keeps_creations_unique(log: Seq<Event>, slug: Slug)
    requires
        creations_unique(log),
    ensures
        creations_unique(redirected(log, slug)),
{
    let r = Event { data: EventData::RedirectOccurred { slug: slug } };
    let l1 = log.push(r);
    let l2 = redirected(log, slug);
    assert(l1.drop_last() =~= log);
    assert(l2.drop_last() =~= l1);
    assert forall|k: Seq<char>| #[trigger] created_count(l2, k) <= 1 by {
        assert(created_count(log, k) <= 1);
        assert(created_count(l1, k) == created_count(log, k));
        assert(created_count(l2, k) == created_count(l1, k));
    }
}

/// One redirect keeps the links and raises the slug's count by one step.
pub proof fn lemma_redirected_once(log: Seq<Event>, slug: Slug)
    requires
        links_of(log).contains_key(slug@),
    ensures
        links_of(redirected(log, slug)) == links_of(log),
        count_or_zero(redirected(log, slug), slug@) == bump(count_or_zero(log, slug@)),
{
    let r = Event { data: EventData::RedirectOccurred { slug: slug } };
    let u = Event {
        data: EventData::StatsUpdated { slug: slug, redirects: bump(count_or_zero(log, slug@)) },
    };
    lemma_links_counted(log);
    lemma_apply_push(log, r);
    lemma_apply_push(log.push(r), u);
}

/// After `n` redirects through a linked slug, its redirect count has grown by
/// `n` (as long as the count fits in 64 bits) and the links are unchanged.
pub proof fn lemma_redirect_count(log: Seq<Event>, slug: Slug, n: nat)
    requires
        links_of(log).contains_key(slug@),
        count_or_zero(log, slug@) + n <= u64::MAX,
    ensures
        links_of(redirected_times(log, slug, n)) == links_of(log),
        count_or_zero(redirected_times(log, slug, n), slug@) == count_or_zero(log, slug@) + n,
    decreases n,
{
    if n > 0 {
        lemma_redirect_count(log, slug, (n - 1) as nat);
        lemma_redirected_once(redirected_times(log, slug, (n - 1) as nat), slug);
    }
}

/// The creation event of a link followed by its first `j` redirect events.
pub open spec fn link_events_upto(slug: Slug, data: LinkData, j: nat) -> Seq<Event> {
    seq![Event { data: EventData::LincCreated { slug: slug, url: data.url } }] + Seq::new(
        j,
        |i: int| Event { data: EventData::RedirectOccurred { slug: slug } },
    )
}

proof fn lemma_link_events_upto(st: Derived, slug: Slug, data: LinkData, j: nat)
    requires
        j <= data.redirects,
    ensures
        apply_events(st, link_events_upto(slug, data, j)) == (
            st.0.insert(slug@, data.url@),
            st.1.insert(slug@, j as u64),
        ),
    decreases j,
{
    let ev = link_events_upto(slug, data, j);
    if j == 0 {
        let c = Event { data: EventData::LincCreated { slug: slug, url: data.url } };
        assert(ev.drop_last() =~= Seq::<Event>::empty());
        assert(ev.last() == c);
        assert(apply_events(st, ev.drop_last()) == st);
    } else {
        lemma_link_events_upto(st, slug, data, (j - 1) as nat);
        assert(ev.drop_last() =~= link_events_upto(slug, data, (j - 1) as nat));
        let prev = apply_events(st, ev.drop_last());
        assert(ev.last() == Event { data: EventData::RedirectOccurred { slug: slug } });
        assert(prev.1.contains_key(slug@));
        assert(prev.1[slug@] == (j - 1) as u64);
        assert(prev.1.insert(slug@, bump(prev.1[slug@])) =~= st.1.insert(slug@, j as u64));
    }
}

/// Folding the events of a restored snapshot yields exactly the snapshot's
/// urls and counts.
pub proof fn lemma_expand_replay(entries: Seq<(Slug, LinkData)>)
    ensures
        links_of(expand(entries)) == Map::new(
            |k: Seq<char>| entries_map(entries).contains_key(k),
            |k: Seq<char>| entries_map(entries)[k].0,
        ),
        counts_of(expand(entries)) == Map::new(
            |k: Seq<char>| entries_map(entries).contains_key(k),
            |k: Seq<char>| entries_map(entries)[k].1,
        ),
    decreases entries.len(),
{
    if entries.len() == 0 {
        assert(links_of(expand(entries)) =~= Map::new(
            |k: Seq<char>| entries_map(entries).contains_key(k),
            |k: Seq<char>| entries_map(entries)[k].0,
        ));
        assert(counts_of(expand(entries)) =~= Map::new(
            |k: Seq<char>| entries_map(entries).contains_key(k),
            |k: Seq<char>| entries_map(entries)[k].1,
        ));
    } else {
        let d = entries.drop_last();
        let e = entries.last();
        lemma_expand_replay(d);
        let empty: Derived = (Map::empty(), Map::empty());
        lemma_apply_concat(empty, expand(d), link_events(e.0, e.1));
        assert(link_events(e.0, e.1) =~= link_events_upto(e.0, e.1, e.1.redirects as nat));
        lemma_link_events_upto(replay_of(expand(d)), e.0, e.1, e.1.redirects as nat);
        assert(links_of(expand(entries)) =~= Map::new(
            |k: Seq<char>| entries_map(entries).contains_key(k),
            |k: Seq<char>| entries_map(entries)[k].0,
        ));
        assert(counts_of(expand(entries)) =~= Map::new(
            |k: Seq<char>| entries_map(entries).contains_key(k),
            |k: Seq<char>| entries_map(entries)[k].1,
        ));
    }
}

/// Saving the derived state of a log and restoring a service from the saved
/// entries reproduces, for every slug of the log, the same url and the same
/// redirect count.
pub proof fn lemma_snapshot_round_trip(log: Seq<Event>, entries: Seq<(Slug, LinkData)>)
    requires
        entries_map(entries) == snapshot_of(log),
    ensures
        links_of(expand(entries)) == links_of(log),
        forall|k: Seq<char>|
            links_of(log).contains_key(k) ==> #[trigger] count_or_zero(expand(entries), k)
                == count_or_zero(log, k),
{
    lemma_expand_replay(entries);
    assert(links_of(expand(entries)) =~= links_of(log));
}

} // verus!
