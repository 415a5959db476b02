use vstd::prelude::*;

verus! {

/// The mapping that a sequence of `(identity, seconds)` entries stands for:
/// later entries override earlier ones with the same identity.
pub open spec fn map_of(s: Seq<(String, u64)>) -> Map<Seq<char>, u64>
    decreases s.len(),
{
    if s.len() == 0 {
        Map::empty()
    } else {
        map_of(s.drop_last()).insert(s.last().0@, s.last().1)
    }
}

/// No identity occurs twice among the entries.
pub open spec fn keys_distinct(s: Seq<(String, u64)>) -> bool {
    forall|i: int, j: int| 0 <= i < j < s.len() ==> s[i].0@ != s[j].0@
}

/// The seconds recorded for `id`, zero where it has none.
pub open spec fn uptime_of(m: Map<Seq<char>, u64>, id: Seq<char>) -> u64 {
    if m.contains_key(id) {
        m[id]
    } else {
        0
    }
}

/// `a + b`, held at `u64::MAX`.
pub open spec fn add_capped(a: u64, b: u64) -> u64 {
    if a + b > u64::MAX {
        u64::MAX
    } else {
        (a + b) as u64
    }
}

/// The mapping after `secs` more seconds were attributed to `id`.
pub open spec fn credit(m: Map<Seq<char>, u64>, id: Seq<char>, secs: u64) -> Map<Seq<char>, u64> {
    m.insert(id, add_capped(uptime_of(m, id), secs))
}

/// An identity is in the mapping exactly when some entry names it.
pub proof fn lemma_map_of_domain(s: Seq<(String, u64)>, id: Seq<char>)
    ensures
        map_of(s).contains_key(id) <==> exists|i: int| 0 <= i < s.len() && s[i].0@ == id,
    decreases s.len(),
{
    if s.len() > 0 {
        lemma_map_of_domain(s.drop_last(), id);
        if map_of(s).contains_key(id) && s.last().0@ != id {
            let i = choose|i: int| 0 <= i < s.len() - 1 && s.drop_last()[i].0@ == id;
            assert(s[i].0@ == id);
        }
        if exists|i: int| 0 <= i < s.len() && s[i].0@ == id {
            let i = choose|i: int| 0 <= i < s.len() && s[i].0@ == id;
            if i < s.len() - 1 {
                assert(s.drop_last()[i].0@ == id);
            }
        }
    }
}

/// With distinct identities, the mapping holds each entry's seconds.
pub proof fn lemma_map_of_value(s: Seq<(String, u64)>, i: int)
    requires
        keys_distinct(s),
        0 <= i < s.len(),
    ensures
        map_of(s).contains_key(s[i].0@),
        map_of(s)[s[i].0@] == s[i].1,
    decreases s.len(),
{
    if i < s.len() - 1 {
        lemma_map_of_value(s.drop_last(), i);
    }
}

/// Replacing the seconds of the entry at `i` replaces them in the mapping.
pub proof fn lemma_map_of_update(s: Seq<(String, u64)>, i: int, e: (String, u64))
    requires
        keys_distinct(s),
        0 <= i < s.len(),
        e.0@ == s[i].0@,
    ensures
        map_of(s.update(i, e)) == map_of(s).insert(e.0@, e.1),
    decreases s.len(),
{
    let t = s.update(i, e);
    if i == s.len() - 1 {
        assert(t.drop_last() =~= s.drop_last());
        assert(map_of(t) =~= map_of(s).insert(e.0@, e.1));
    } else {
        assert(t.drop_last() =~= s.drop_last().update(i, e));
        lemma_map_of_update(s.drop_last(), i, e);
        assert(map_of(t) =~= map_of(s).insert(e.0@, e.1));
    }
}

/// Placing an entry for a new identity anywhere among the entries adds it
/// to the mapping, whatever the place.
pub proof fn lemma_map_of_insert(s: Seq<(String, u64)>, p: int, e: (String, u64))
    requires
        keys_distinct(s),
        0 <= p <= s.len(),
        !map_of(s).contains_key(e.0@),
    ensures
        keys_distinct(s.insert(p, e)),
        map_of(s.insert(p, e)) == map_of(s).insert(e.0@, e.1),
    decreases s.len(),
{
    let t = s.insert(p, e);
    lemma_map_of_domain(s, e.0@);
    assert forall|i: int, j: int| 0 <= i < j < t.len() implies t[i].0@ != t[j].0@ by {
        if i < p && j > p {
            assert(t[j] == s[j - 1]);
        } else if i > p {
            assert(t[i] == s[i - 1] && t[j] == s[j - 1]);
        }
    }
    if p == s.len() {
        assert(t.drop_last() =~= s);
    } else {
        let u = s.drop_last();
        assert(t.drop_last() =~= u.insert(p, e));
        assert(t.last() == s.last());
        lemma_map_of_insert(u, p, e);
        assert(s[s.len() - 1].0@ != e.0@);
        assert(map_of(t) =~= map_of(s).insert(e.0@, e.1));
    }
}

/// With distinct identities, the mapping has one identity per entry.
pub proof fn lemma_distinct_len(s: Seq<(String, u64)>)
    requires
        keys_distinct(s),
    ensures
        map_of(s).dom().finite(),
        map_of(s).dom().len() == s.len(),
    decreases s.len(),
{
    if s.len() > 0 {
        let t = s.drop_last();
        lemma_distinct_len(t);
        lemma_map_of_domain(t, s.last().0@);
        if map_of(t).contains_key(s.last().0@) {
            let i = choose|i: int| 0 <= i < t.len() && t[i].0@ == s.last().0@;
            assert(s[i].0@ == s[s.len() - 1].0@);
        }
        assert(map_of(s).dom() =~= map_of(t).dom().insert(s.last().0@));
    }
}

/// Cumulative seconds of focus per window identity.
pub struct ActivityState {
    entries: Vec<(String, u64)>,
}

impl View for ActivityState {
    type V = Map<Seq<char>, u64>;

    closed spec fn view(&self) -> Map<Seq<char>, u64> {
        map_of(self.entries@)
    }
}

impl ActivityState {
    /// One entry per identity.
    pub closed spec fn wf(&self) -> bool {
        keys_distinct(self.entries@)
    }

    /// The state with no identity.
    pub fn new() -> (r: ActivityState)
        ensures
            r.wf(),
            r@ == Map::<Seq<char>, u64>::empty(),
    {
        ActivityState { entries: Vec::new() }
    }

    /// Where the entry for `id` stands, if there is one.
    fn position(&self, id: &String) -> (r: Option<usize>)
        requires
            self.wf(),
        ensures
            match r {
                Some(i) => i < self.entries@.len() && self.entries@[i as int].0@ == id@,
                None => !self@.contains_key(id@),
            },
    {
        let mut i: usize = 0;
        while i < self.entries.len()
            invariant
                i <= self.entries@.len(),
                forall|j: int| 0 <= j < i ==> self.entries@[j].0@ != id@,
            decreases self.entries@.len() - i,
        {
            if self.entries[i].0 == *id {
                return Some(i);
            }
            i += 1;
        }
        proof {
            lemma_map_of_domain(self.entries@, id@);
        }
        None
    }

    /// The seconds recorded for `id`, zero where it has none.
    pub fn get(&self, id: &String) -> (r: u64)
        requires
            self.wf(),
        ensures
            r == uptime_of(self@, id@),
    {
        match self.position(id) {
            Some(i) => {
                proof {
                    lemma_map_of_value(self.entries@, i as int);
                }
                self.entries[i].1
            },
            None => 0,
        }
    }

    /// Sets the seconds of `id`, adding the identity where it is new.
    pub fn set(&mut self, id: String, secs: u64)
        requires
            old(self).wf(),
        ensures
            final(self).wf(),
            final(self)@ == old(self)@.insert(id@, secs),
    {
        match self.position(&id) {
            Some(i) => {
                proof {
                    lemma_map_of_update(self.entries@, i as int, (id, secs));
                }
                self.entries.set(i, (id, secs));
            },
            None => {
                proof {
                    lemma_map_of_domain(self.entries@, id@);
                }
                self.entries.push((id, secs));
                proof {
                    assert(self.entries@.drop_last() =~= old(self).entries@);
                }
            },
        }
    }

    /// Attributes `secs` more seconds to `id`; a total that would pass
    /// `u64::MAX` stays there.
    pub fn credit(&mut self, id: String, secs: u64)
        requires
            old(self).wf(),
        ensures
            final(self).wf(),
            final(self)@ == credit(old(self)@, id@, secs),
            forall|k: Seq<char>| #[trigger] old(self)@.contains_key(k) ==> final(self)@.contains_key(k)
                && old(self)@[k] <= final(self)@[k],
    {
        let before = self.get(&id);
        self.set(id, before.saturating_add(secs));
    }

    /// The entries, one per identity, in no particular order.
    pub fn entries(&self) -> (r: &Vec<(String, u64)>)
        requires
            self.wf(),
        ensures
            keys_distinct(r@),
            map_of(r@) == self@,
    {
        &self.entries
    }

    /// The number of identities.
    pub fn len(&self) -> (r: usize)
        requires
            self.wf(),
        ensures
            r == self@.dom().len(),
    {
        proof {
            lemma_distinct_len(self.entries@);
        }
        self.entries.len()
    }
}

} // verus!
