use vstd::prelude::*;
use crate::structs::{Event, EventData, LinkData, ServiceState, Slug, Url};
use crate::table::{entries_map, SlugMap, lemma_entries_map_index};

verus! {

/// The derived state: the url of each slug, and the redirect count of each slug.
pub type Derived = (Map<Seq<char>, Seq<char>>, Map<Seq<char>, u64>);

/// A redirect count after one more redirect; it stays at the largest value
/// once there.
pub open spec fn bump(c: u64) -> u64 {
    if c < u64::MAX {
        (c + 1) as u64
    } else {
        c
    }
}

/// How one event changes the derived state.
pub open spec fn step(st: Derived, e: Event) -> Derived {
    match e.data {
        EventData::LincCreated { slug, url } => (st.0.insert(slug@, url@), st.1.insert(slug@, 0)),
        EventData::RedirectOccurred { slug } => if st.1.contains_key(slug@) {
            (st.0, st.1.insert(slug@, bump(st.1[slug@])))
        } else {
            st
        },
        EventData::StatsUpdated { slug, redirects } => (st.0, st.1.insert(slug@, redirects)),
    }
}

/// Folds `events` into `st`, from first to last.
pub open spec fn apply_events(st: Derived, events: Seq<Event>) -> Derived
    decreases events.len(),
{
    if events.len() == 0 {
        st
    } else {
        step(apply_events(st, events.drop_last()), events.last())
    }
}

/// The derived state of a log: its events folded into empty mappings.
pub open spec fn replay_of(events: Seq<Event>) -> Derived {
    apply_events((Map::empty(), Map::empty()), events)
}

/// The url of each slug of a log.
pub open spec fn links_of(events: Seq<Event>) -> Map<Seq<char>, Seq<char>> {
    replay_of(events).0
}

/// The redirect count of each slug of a log.
pub open spec fn counts_of(events: Seq<Event>) -> Map<Seq<char>, u64> {
    replay_of(events).1
}

/// The redirect count of `slug` in a log, zero where it has none.
pub open spec fn count_or_zero(events: Seq<Event>, slug: Seq<char>) -> u64 {
    if counts_of(events).contains_key(slug) {
        counts_of(events)[slug]
    } else {
        0
    }
}

/// What a snapshot of a log holds: each linked slug with its url and count.
pub open spec fn snapshot_of(events: Seq<Event>) -> Map<Seq<char>, (Seq<char>, u64)> {
    Map::new(
        |k: Seq<char>| links_of(events).contains_key(k),
        |k: Seq<char>| (links_of(events)[k], count_or_zero(events, k)),
    )
}

/// The events that bring back one link of a snapshot: its creation, then one
/// redirect for each counted redirect.
pub open spec fn link_events(slug: Slug, data: LinkData) -> Seq<Event> {
    seq![Event { data: EventData::LincCreated { slug: slug, url: data.url } }] + Seq::new(
        data.redirects as nat,
        |i: int| Event { data: EventData::RedirectOccurred { slug: slug } },
    )
}

/// The log that a snapshot is turned back into, link after link.
pub open spec fn expand(entries: Seq<(Slug, LinkData)>) -> Seq<Event>
    decreases entries.len(),
{
    if entries.len() == 0 {
        Seq::empty()
    } else {
        expand(entries.drop_last()) + link_events(entries.last().0, entries.last().1)
    }
}

/// Folding a concatenation folds the second part from where the first ended.
pub proof fn lemma_apply_concat(st: Derived, a: Seq<Event>, b: Seq<Event>)
    ensures
        apply_events(st, a + b) == apply_events(apply_events(st, a), b),
    decreases b.len(),
{
    if b.len() == 0 {
        assert(a + b =~= a);
    } else {
        assert((a + b).drop_last() =~= a + b.drop_last());
        assert((a + b).last() == b.last());
        lemma_apply_concat(st, a, b.drop_last());
    }
}

/// Folding in a single event is one step.
pub proof fn lemma_apply_push(events: Seq<Event>, e: Event)
    ensures
        replay_of(events.push(e)) == step(replay_of(events), e),
{
    assert(events.push(e).drop_last() =~= events);
}

/// Every linked slug has a redirect count.
pub proof fn lemma_links_counted(events: Seq<Event>)
    ensures
        links_of(events).dom().subset_of(counts_of(events).dom()),
    decreases events.len(),
{
    if events.len() > 0 {
        lemma_links_counted(events.drop_last());
    }
}

/// CQRS and event-sourcing service: the event log is the only state.
pub struct UrlShortenerService {
    pub events: Vec<Event>,
}

impl View for UrlShortenerService {
    type V = Seq<Event>;

    open spec fn view(&self) -> Seq<Event> {
        self.events@
    }
}

impl UrlShortenerService {
    /// A service with an empty log.
    pub fn new() -> (r: Self)
        ensures
            r.events@ == Seq::<Event>::empty(),
    {
        Self { events: Vec::new() }
    }

    /// Rebuilds the current state by folding the whole log, from empty mappings.
    pub fn replay(&self) -> (r: (SlugMap<Url>, SlugMap<u64>))
        ensures
            r.0.wf(),
            r.1.wf(),
            r.0@ == links_of(self.events@),
            r.1@ == counts_of(self.events@),
    {
        let mut links: SlugMap<Url> = SlugMap::new();
        let mut redirects: SlugMap<u64> = SlugMap::new();
        let mut i: usize = 0;
        while i < self.events.len()
            invariant
                i <= self.events@.len(),
                links.wf(),
                redirects.wf(),
                (links@, redirects@) == replay_of(self.events@.subrange(0, i as int)),
            decreases self.events@.len() - i,
        {
            proof {
                lemma_apply_push(self.events@.subrange(0, i as int), self.events@[i as int]);
                assert(self.events@.subrange(0, i as int).push(self.events@[i as int])
                    =~= self.events@.subrange(0, i + 1));
            }
            match &self.events[i].data {
                EventData::LincCreated { slug, url } => {
                    links.insert(slug.duplicate(), url.duplicate());
                    redirects.insert(slug.duplicate(), 0);
                },
                EventData::RedirectOccurred { slug } => {
                    match redirects.get(slug) {
                        Some(count) => {
                            let c: u64 = *count;
                            let next: u64 = if c < u64::MAX {
                                c + 1
                            } else {
                                c
                            };
                            redirects.insert(slug.duplicate(), next);
                        },
                        None => {},
                    }
                },
                EventData::StatsUpdated { slug, redirects: new_count } => {
                    redirects.insert(slug.duplicate(), *new_count);
                },
            }
            i = i + 1;
        }
        proof {
            assert(self.events@.subrange(0, i as int) =~= self.events@);
        }
        (links, redirects)
    }

    /// Projects the derived state into a snapshot: each linked slug with its
    /// url and redirect count (zero where no count was recorded).
    pub fn build_service_state(&self) -> (r: ServiceState)
        ensures
            r.links.wf(),
            r@ == snapshot_of(self.events@),
    {
        let (links, redirects) = self.replay();
        proof {
            lemma_links_counted(self.events@);
        }
        let mut state_links: SlugMap<LinkData> = SlugMap::new();
        let mut i: usize = 0;
        while i < links.entries.len()
            invariant
                i <= links.entries@.len(),
                links.wf(),
                redirects.wf(),
                links@ == links_of(self.events@),
                redirects@ == counts_of(self.events@),
                state_links.wf(),
                state_links@ == Map::new(
                    |k: Seq<char>| entries_map(links.entries@.subrange(0, i as int)).contains_key(k),
                    |k: Seq<char>| (links@[k], count_or_zero(self.events@, k)),
                ),
            decreases links.entries@.len() - i,
        {
            let entry = &links.entries[i];
            let count: u64 = match redirects.get(&entry.0) {
                Some(c) => *c,
                None => 0,
            };
            proof {
                lemma_entries_map_index(links.entries@, i as int);
                let sub = links.entries@.subrange(0, i as int);
                assert(links.entries@.subrange(0, i + 1).drop_last() =~= sub);
            }
            state_links.insert(entry.0.duplicate(), LinkData { url: entry.1.duplicate(), redirects: count });
            proof {
                let sub1 = links.entries@.subrange(0, i + 1);
                assert(state_links@ =~= Map::new(
                    |k: Seq<char>| entries_map(sub1).contains_key(k),
                    |k: Seq<char>| (links@[k], count_or_zero(self.events@, k)),
                ));
            }
            i = i + 1;
        }
        proof {
            assert(links.entries@.subrange(0, i as int) =~= links.entries@);
            assert(state_links@ =~= snapshot_of(self.events@));
        }
        ServiceState { links: state_links }
    }

    /// A service whose log brings back a snapshot: for each link, one creation
    /// event followed by one redirect event per counted redirect.
    pub fn from_state(state: ServiceState) -> (r: Self)
        ensures
            r.events@ == expand(state.links.entries@),
    {
        let mut events: Vec<Event> = Vec::new();
        let mut i: usize = 0;
        while i < state.links.entries.len()
            invariant
                i <= state.links.entries@.len(),
                events@ == expand(state.links.entries@.subrange(0, i as int)),
            decreases state.links.entries@.len() - i,
        {
            let entry = &state.links.entries[i];
            let ghost before = events@;
            events.push(Event { data: EventData::LincCreated { slug: entry.0.duplicate(), url: entry.1.url.duplicate() } });
            let mut j: u64 = 0;
            while j < entry.1.redirects
                invariant
                    j <= entry.1.redirects,
                    events@ == before + seq![Event { data: EventData::LincCreated { slug: entry.0, url: entry.1.url } }]
                        + Seq::new(j as nat, |k: int| Event { data: EventData::RedirectOccurred { slug: entry.0 } }),
                decreases entry.1.redirects - j,
            {
                events.push(Event { data: EventData::RedirectOccurred { slug: entry.0.duplicate() } });
                j = j + 1;
                proof {
                    assert(events@ =~= before + seq![Event { data: EventData::LincCreated { slug: entry.0, url: entry.1.url } }]
                        + Seq::new(j as nat, |k: int| Event { data: EventData::RedirectOccurred { slug: entry.0 } }));
                }
            }
            proof {
                let sub1 = state.links.entries@.subrange(0, i + 1);
                assert(sub1.drop_last() =~= state.links.entries@.subrange(0, i as int));
                assert(events@ =~= expand(sub1));
            }
            i = i + 1;
        }
        proof {
            assert(state.links.entries@.subrange(0, i as int) =~= state.links.entries@);
        }
        Self { events }
    }
}

} // verus!
