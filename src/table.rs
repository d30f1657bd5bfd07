use vstd::prelude::*;
use crate::structs::Slug;

verus! {

/// The map that a sequence of (slug, value) entries describes: a later entry
/// for a slug replaces an earlier one.
pub open spec fn entries_map<V: View>(s: Seq<(Slug, V)>) -> Map<Seq<char>, V::V>
    decreases s.len(),
{
    if s.len() == 0 {
        Map::empty()
    } else {
        entries_map(s.drop_last()).insert(s.last().0@, s.last().1@)
    }
}

/// No two entries share a slug.
pub open spec fn unique_slugs<V>(s: Seq<(Slug, V)>) -> bool {
    forall|i: int, j: int|
        0 <= i < s.len() && 0 <= j < s.len() && i != j ==> #[trigger] s[i].0@ != #[trigger] s[j].0@
}

/// Every slug in the map is the slug of some entry.
pub proof fn lemma_entries_map_dom<V: View>(s: Seq<(Slug, V)>, k: Seq<char>)
    ensures
        entries_map(s).contains_key(k) <==> exists|i: int| 0 <= i < s.len() && #[trigger] s[i].0@ == k,
    decreases s.len(),
{
    if s.len() > 0 {
        lemma_entries_map_dom(s.drop_last(), k);
        if entries_map(s.drop_last()).contains_key(k) {
            let i = choose|i: int| 0 <= i < s.drop_last().len() && #[trigger] s.drop_last()[i].0@ == k;
            assert(s[i].0@ == k);
        }
        if exists|i: int| 0 <= i < s.len() && #[trigger] s[i].0@ == k {
            let i = choose|i: int| 0 <= i < s.len() && #[trigger] s[i].0@ == k;
            if i < s.len() - 1 {
                assert(s.drop_last()[i].0@ == k);
            }
        }
    }
}

/// With unique slugs, each entry's value is what the map holds for its slug.
pub proof fn lemma_entries_map_index<V: View>(s: Seq<(Slug, V)>, i: int)
    requires
        unique_slugs(s),
        0 <= i < s.len(),
    ensures
        entries_map(s).contains_key(s[i].0@),
        entries_map(s)[s[i].0@] == s[i].1@,
    decreases s.len(),
{
    if i < s.len() - 1 {
        let d = s.drop_last();
        assert(d[i] == s[i]);
        assert forall|a: int, b: int|
            0 <= a < d.len() && 0 <= b < d.len() && a != b implies #[trigger] d[a].0@ != #[trigger] d[b].0@ by {
            assert(d[a] == s[a] && d[b] == s[b]);
        }
        lemma_entries_map_index(d, i);
        assert(s[i].0@ != s[s.len() - 1].0@);
    }
}

/// Replacing the value of an entry replaces the value of its slug.
pub proof fn lemma_entries_map_update<V: View>(s: Seq<(Slug, V)>, i: int, e: (Slug, V))
    requires
        unique_slugs(s),
        0 <= i < s.len(),
        e.0@ == s[i].0@,
    ensures
        entries_map(s.update(i, e)) == entries_map(s).insert(e.0@, e.1@),
    decreases s.len(),
{
    let t = s.update(i, e);
    if i == s.len() - 1 {
        assert(t.drop_last() =~= s.drop_last());
        assert(entries_map(t) =~= entries_map(s).insert(e.0@, e.1@));
    } else {
        let d = s.drop_last();
        assert(t.drop_last() =~= d.update(i, e));
        assert forall|a: int, b: int|
            0 <= a < d.len() && 0 <= b < d.len() && a != b implies #[trigger] d[a].0@ != #[trigger] d[b].0@ by {
            assert(d[a] == s[a] && d[b] == s[b]);
        }
        lemma_entries_map_update(d, i, e);
        assert(s[i].0@ != s.last().0@);
        assert(t.last() == s.last());
        assert(entries_map(t) =~= entries_map(s).insert(e.0@, e.1@));
    }
}

/// A table from slugs to values, kept as a sequence of entries with distinct
/// slugs.
#[derive(Debug)]
pub struct SlugMap<V> {
    pub entries: Vec<(Slug, V)>,
}

impl<V: View> View for SlugMap<V> {
    type V = Map<Seq<char>, V::V>;

    open spec fn view(&self) -> Map<Seq<char>, V::V> {
        entries_map(self.entries@)
    }
}

impl<V: View> SlugMap<V> {
    /// The table is well formed: no two entries share a slug.
    pub open spec fn wf(&self) -> bool {
        unique_slugs(self.entries@)
    }

    /// An empty table.
    pub fn new() -> (r: Self)
        ensures
            r.wf(),
            r@ == Map::<Seq<char>, V::V>::empty(),
    {
        SlugMap { entries: Vec::new() }
    }

    /// The position of the entry for `slug`, if there is one.
    pub fn position(&self, slug: &Slug) -> (r: Option<usize>)
        requires
            self.wf(),
        ensures
            r is None <==> !self@.contains_key(slug@),
            r matches Some(i) ==> i < self.entries@.len() && self.entries@[i as int].0@ == slug@
                && self@[slug@] == self.entries@[i as int].1@,
    {
        let mut i: usize = 0;
        while i < self.entries.len()
            invariant
                self.wf(),
                i <= self.entries@.len(),
                forall|j: int| 0 <= j < i ==> #[trigger] self.entries@[j].0@ != slug@,
            decreases self.entries@.len() - i,
        {
            if self.entries[i].0.0 == slug.0 {
                proof {
                    lemma_entries_map_index(self.entries@, i as int);
                }
                return Some(i);
            }
            i = i + 1;
        }
        proof {
            lemma_entries_map_dom(self.entries@, slug@);
        }
        None
    }

    /// Whether `slug` has an entry.
    pub fn contains_key(&self, slug: &Slug) -> (r: bool)
        requires
            self.wf(),
        ensures
            r == self@.contains_key(slug@),
    {
        self.position(slug).is_some()
    }

    /// The value stored for `slug`, if any.
    pub fn get(&self, slug: &Slug) -> (r: Option<&V>)
        requires
            self.wf(),
        ensures
            r is None <==> !self@.contains_key(slug@),
            r matches Some(v) ==> self@[slug@] == v@,
    {
        match self.position(slug) {
            Some(i) => Some(&self.entries[i].1),
            None => None,
        }
    }

    /// Sets the value of `slug`, adding an entry when it has none.
    pub fn insert(&mut self, slug: Slug, value: V)
        requires
            old(self).wf(),
        ensures
            final(self).wf(),
            final(self)@ == old(self)@.insert(slug@, value@),
    {
        match self.position(&slug) {
            Some(i) => {
                proof {
                    lemma_entries_map_update(self.entries@, i as int, (slug, value));
                }
                self.entries.set(i, (slug, value));
            },
            None => {
                proof {
                    lemma_entries_map_dom(self.entries@, slug@);
                    assert(self.entries@.push((slug, value)).drop_last() =~= self.entries@);
                }
                self.entries.push((slug, value));
            },
        }
    }
}

} // verus!
