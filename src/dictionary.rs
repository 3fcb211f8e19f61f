//! The device dictionary: endpoints keyed by identifier, kept in identifier order.
use vstd::prelude::*;
use crate::ordering::{id_less, id_precedes, lemma_id_less_irreflexive, lemma_id_less_total, lemma_id_less_transitive};

verus! {

/// One output device as the engine knows it: its identifier, its name, the
/// level and mute state last read from or written to it, and the token under
/// which its change callback is registered.
pub struct Endpoint {
    pub id: String,
    pub name: String,
    pub level: u32,
    pub muted: bool,
    pub token: u64,
}

/// The mathematical value of an [`Endpoint`].
pub struct EndpointView {
    pub id: Seq<char>,
    pub name: Seq<char>,
    pub level: u32,
    pub muted: bool,
    pub token: u64,
}

impl View for Endpoint {
    type V = EndpointView;

    open spec fn view(&self) -> EndpointView {
        EndpointView {
            id: self.id@,
            name: self.name@,
            level: self.level,
            muted: self.muted,
            token: self.token,
        }
    }
}

impl Endpoint {
    pub fn new(id: String, name: String, level: u32, muted: bool, token: u64) -> (r: Endpoint)
        ensures
            r@ == (EndpointView { id: id@, name: name@, level, muted, token }),
    {
        Endpoint { id, name, level, muted, token }
    }
}

/// Entries strictly increasing by identifier, hence with unique identifiers.
pub open spec fn sorted_by_id(s: Seq<EndpointView>) -> bool {
    forall|i: int, j: int| 0 <= i < j < s.len() ==> id_less(#[trigger] s[i].id, #[trigger] s[j].id)
}

/// Whether some entry has identifier `id`.
pub open spec fn has_id(s: Seq<EndpointView>, id: Seq<char>) -> bool {
    exists|i: int| 0 <= i < s.len() && #[trigger] s[i].id == id
}

/// The entries as a map from identifier to entry.
pub open spec fn entries_map(s: Seq<EndpointView>) -> Map<Seq<char>, EndpointView> {
    Map::new(
        |id: Seq<char>| has_id(s, id),
        |id: Seq<char>| s[choose|i: int| 0 <= i < s.len() && #[trigger] s[i].id == id],
    )
}

/// In a sorted sequence an identifier is found at one index only.
pub proof fn lemma_sorted_unique(s: Seq<EndpointView>, i: int, j: int)
    requires
        sorted_by_id(s),
        0 <= i < s.len(),
        0 <= j < s.len(),
        s[i].id == s[j].id,
    ensures
        i == j,
{
    if i < j || j < i {
        lemma_id_less_irreflexive(s[i].id);
    }
}

/// The entry that the map gives for the identifier at index `i` is the entry at `i`.
pub proof fn lemma_entries_map_at(s: Seq<EndpointView>, i: int)
    requires
        sorted_by_id(s),
        0 <= i < s.len(),
    ensures
        entries_map(s).contains_key(s[i].id),
        entries_map(s)[s[i].id] == s[i],
{
    let id = s[i].id;
    assert(has_id(s, id));
    let j = choose|j: int| 0 <= j < s.len() && #[trigger] s[j].id == id;
    lemma_sorted_unique(s, i, j);
}

/// Replacing the entry at `i` by one with the same identifier updates the map at that identifier.
pub proof fn lemma_entries_map_update(s: Seq<EndpointView>, i: int, e: EndpointView)
    requires
        sorted_by_id(s),
        0 <= i < s.len(),
        e.id == s[i].id,
    ensures
        sorted_by_id(s.update(i, e)),
        entries_map(s.update(i, e)) == entries_map(s).insert(e.id, e),
{
    let t = s.update(i, e);
    assert(sorted_by_id(t)) by {
        assert forall|a: int, b: int| 0 <= a < b < t.len() implies id_less(#[trigger] t[a].id, #[trigger] t[b].id) by {
            assert(s[a].id == t[a].id && s[b].id == t[b].id);
        }
    }
    assert forall|k: Seq<char>| #[trigger] has_id(t, k) == has_id(s, k) by {
        if has_id(s, k) {
            let a = choose|a: int| 0 <= a < s.len() && #[trigger] s[a].id == k;
            assert(t[a].id == k);
        }
        if has_id(t, k) {
            let a = choose|a: int| 0 <= a < t.len() && #[trigger] t[a].id == k;
            assert(s[a].id == k);
        }
    }
    assert forall|k: Seq<char>| has_id(t, k) implies entries_map(t)[k] == entries_map(s).insert(e.id, e)[k] by {
        let a = choose|a: int| 0 <= a < t.len() && #[trigger] t[a].id == k;
        lemma_entries_map_at(t, a);
        lemma_entries_map_at(s, a);
        if a == i {
            assert(entries_map(t)[k] == e);
        } else {
            assert(t[a] == s[a]);
            assert(k != e.id) by {
                if k == e.id {
                    lemma_sorted_unique(t, a, i);
                }
            }
        }
    }
    assert(entries_map(t) =~= entries_map(s).insert(e.id, e));
}

/// Inserting an entry at index `i` between smaller and greater identifiers
/// keeps the order and adds it to the map.
pub proof fn lemma_entries_map_insert(s: Seq<EndpointView>, i: int, e: EndpointView)
    requires
        sorted_by_id(s),
        0 <= i <= s.len(),
        forall|a: int| 0 <= a < i ==> id_less(#[trigger] s[a].id, e.id),
        forall|a: int| i <= a < s.len() ==> id_less(e.id, #[trigger] s[a].id),
    ensures
        sorted_by_id(s.insert(i, e)),
        entries_map(s.insert(i, e)) == entries_map(s).insert(e.id, e),
{
    let t = s.insert(i, e);
    assert(sorted_by_id(t)) by {
        assert forall|a: int, b: int| 0 <= a < b < t.len() implies id_less(#[trigger] t[a].id, #[trigger] t[b].id) by {
            if a < i && b > i {
                lemma_id_less_transitive(t[a].id, e.id, t[b].id);
            }
        }
    }
    assert forall|k: Seq<char>| #[trigger] has_id(t, k) == (has_id(s, k) || k == e.id) by {
        if has_id(s, k) {
            let a = choose|a: int| 0 <= a < s.len() && #[trigger] s[a].id == k;
            if a < i {
                assert(t[a].id == k);
            } else {
                assert(t[a + 1].id == k);
            }
        }
        if k == e.id {
            assert(t[i].id == k);
        }
        if has_id(t, k) {
            let a = choose|a: int| 0 <= a < t.len() && #[trigger] t[a].id == k;
            if a < i {
                assert(s[a].id == k);
            } else if a > i {
                assert(s[a - 1].id == k);
            }
        }
    }
    assert forall|k: Seq<char>| has_id(t, k) implies entries_map(t)[k] == entries_map(s).insert(e.id, e)[k] by {
        let a = choose|a: int| 0 <= a < t.len() && #[trigger] t[a].id == k;
        lemma_entries_map_at(t, a);
        if a < i {
            lemma_entries_map_at(s, a);
            lemma_id_less_irreflexive(e.id);
        } else if a > i {
            lemma_entries_map_at(s, a - 1);
            lemma_id_less_irreflexive(e.id);
        }
    }
    assert(entries_map(t) =~= entries_map(s).insert(e.id, e));
}

/// Endpoints keyed by identifier, iterated in identifier order.
pub struct DeviceDictionary {
    entries: Vec<Endpoint>,
}

impl View for DeviceDictionary {
    type V = Seq<EndpointView>;

    closed spec fn view(&self) -> Seq<EndpointView> {
        self.entries@.map_values(|e: Endpoint| e@)
    }
}

impl DeviceDictionary {
    /// The dictionary's invariant: identifiers strictly increasing.
    pub open spec fn wf(&self) -> bool {
        sorted_by_id(self@)
    }

    /// The dictionary's contents by identifier.
    pub open spec fn map(&self) -> Map<Seq<char>, EndpointView> {
        entries_map(self@)
    }

    /// An empty dictionary.
    pub fn new() -> (r: DeviceDictionary)
        ensures
            r.wf(),
            r@ == Seq::<EndpointView>::empty(),
            r.map() == Map::<Seq<char>, EndpointView>::empty(),
    {
        let r = DeviceDictionary { entries: Vec::new() };
        assert(r@ =~= Seq::<EndpointView>::empty());
        assert(r.map() =~= Map::<Seq<char>, EndpointView>::empty());
        r
    }

    /// The number of devices.
    pub fn len(&self) -> (r: usize)
        ensures
            r == self@.len(),
    {
        self.entries.len()
    }

    /// The device at position `i` in identifier order.
    pub fn get(&self, i: usize) -> (r: &Endpoint)
        requires
            i < self@.len(),
        ensures
            r@ == self@[i as int],
    {
        &self.entries[i]
    }

    /// The position of the device with identifier `id`, if there is one.
    pub fn position(&self, id: &String) -> (r: Option<usize>)
        requires
            self.wf(),
        ensures
            r.is_none() == !self.map().contains_key(id@),
            r matches Some(i) ==> i < self@.len() && self@[i as int].id == id@
                && self.map()[id@] == self@[i as int],
    {
        let mut i: usize = 0;
        while i < self.entries.len()
            invariant
                0 <= i <= self@.len(),
                self@.len() == self.entries@.len(),
                self.wf(),
                forall|a: int| 0 <= a < i ==> #[trigger] self@[a].id != id@,
            decreases self@.len() - i,
        {
            if self.entries[i].id == *id {
                proof {
                    lemma_entries_map_at(self@, i as int);
                }
                return Some(i);
            }
            i = i + 1;
        }
        proof {
            if has_id(self@, id@) {
                let a = choose|a: int| 0 <= a < self@.len() && #[trigger] self@[a].id == id@;
                assert(self@[a].id != id@);
            }
        }
        None
    }

    /// Adds `e`, replacing the device with the same identifier if there is
    /// one; returns the token of the device replaced.
    pub fn insert(&mut self, e: Endpoint) -> (r: Option<u64>)
        requires
            old(self).wf(),
        ensures
            final(self).wf(),
            final(self).map() == old(self).map().insert(e.id@, e@),
            r == (if old(self).map().contains_key(e.id@) {
                Some(old(self).map()[e.id@].token)
            } else {
                None::<u64>
            }),
    {
        let ghost s = self@;
        let mut i: usize = 0;
        while i < self.entries.len() && id_precedes(&self.entries[i].id, &e.id)
            invariant
                0 <= i <= s.len(),
                self@ == s,
                self@.len() == self.entries@.len(),
                sorted_by_id(s),
                forall|a: int| 0 <= a < i ==> id_less(#[trigger] s[a].id, e.id@),
            decreases s.len() - i,
        {
            i = i + 1;
        }
        if i < self.entries.len() && self.entries[i].id == e.id {
            proof {
                lemma_entries_map_at(s, i as int);
                lemma_entries_map_update(s, i as int, e@);
            }
            let old_e = self.entries.remove(i);
            self.entries.insert(i, e);
            assert(self@ =~= s.update(i as int, e@));
            Some(old_e.token)
        } else {
            proof {
                if i < s.len() {
                    lemma_id_less_total(s[i as int].id, e.id@);
                }
                assert forall|a: int| i <= a < s.len() implies id_less(e.id@, #[trigger] s[a].id) by {
                    if a > i {
                        lemma_id_less_transitive(e.id@, s[i as int].id, s[a].id);
                    }
                }
                lemma_entries_map_insert(s, i as int, e@);
                if has_id(s, e.id@) {
                    let a = choose|a: int| 0 <= a < s.len() && #[trigger] s[a].id == e.id@;
                    lemma_id_less_irreflexive(e.id@);
                }
            }
            self.entries.insert(i, e);
            assert(self@ =~= s.insert(i as int, e@));
            None
        }
    }

    /// Records `level` as the level of the device at position `i`.
    pub fn set_level(&mut self, i: usize, level: u32)
        requires
            old(self).wf(),
            i < old(self)@.len(),
        ensures
            final(self).wf(),
            final(self)@ == old(self)@.update(i as int, EndpointView { level, ..old(self)@[i as int] }),
            final(self).map() == old(self).map().insert(
                old(self)@[i as int].id,
                EndpointView { level, ..old(self)@[i as int] },
            ),
    {
        let ghost s = self@;
        let ghost e = EndpointView { level, ..s[i as int] };
        let mut x = self.entries.remove(i);
        x.level = level;
        self.entries.insert(i, x);
        assert(self@ =~= s.update(i as int, e));
        proof {
            lemma_entries_map_update(s, i as int, e);
        }
    }

    /// Records `muted` as the mute state of the device at position `i`.
    pub fn set_muted(&mut self, i: usize, muted: bool)
        requires
            old(self).wf(),
            i < old(self)@.len(),
        ensures
            final(self).wf(),
            final(self)@ == old(self)@.update(i as int, EndpointView { muted, ..old(self)@[i as int] }),
            final(self).map() == old(self).map().insert(
                old(self)@[i as int].id,
                EndpointView { muted, ..old(self)@[i as int] },
            ),
    {
        let ghost s = self@;
        let ghost e = EndpointView { muted, ..s[i as int] };
        let mut x = self.entries.remove(i);
        x.muted = muted;
        self.entries.insert(i, x);
        assert(self@ =~= s.update(i as int, e));
        proof {
            lemma_entries_map_update(s, i as int, e);
        }
    }

    /// The tokens of all devices, in identifier order.
    pub fn tokens(&self) -> (r: Vec<u64>)
        ensures
            r@ == self@.map_values(|e: EndpointView| e.token),
    {
        let mut r: Vec<u64> = Vec::new();
        let mut i: usize = 0;
        while i < self.entries.len()
            invariant
                0 <= i <= self@.len(),
                self@.len() == self.entries@.len(),
                r@ == self@.subrange(0, i as int).map_values(|e: EndpointView| e.token),
            decreases self@.len() - i,
        {
            r.push(self.entries[i].token);
            i = i + 1;
            assert(r@ =~= self@.subrange(0, i as int).map_values(|e: EndpointView| e.token));
        }
        assert(self@.subrange(0, i as int) =~= self@);
        r
    }
}

} // verus!
