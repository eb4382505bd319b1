use vstd::prelude::*;

verus! {

/// A reference held under a named key: either the address of a host storage
/// cell or the hash of a published program package.
#[derive(Clone, Copy, Debug, PartialEq, Eq, Structural)]
pub enum KeyRef {
    Cell { addr: usize },
    Package { hash: usize },
}

/// The mapping denoted by a sequence of (name, reference) entries; a later
/// entry for the same name takes precedence.
pub open spec fn entries_map(s: Seq<(String, KeyRef)>) -> Map<Seq<char>, KeyRef>
    decreases s.len(),
{
    if s.len() == 0 {
        Map::empty()
    } else {
        entries_map(s.drop_last()).insert(s.last().0@, s.last().1)
    }
}

/// A name is in the mapping exactly when some entry carries it.
pub proof fn lemma_entries_map_domain(s: Seq<(String, KeyRef)>, k: Seq<char>)
    ensures
        entries_map(s).contains_key(k) <==> (exists|i: int|
            0 <= i < s.len() && #[trigger] s[i].0@ == k),
    decreases s.len(),
{
    if s.len() > 0 {
        lemma_entries_map_domain(s.drop_last(), k);
        if s.last().0@ == k {
            assert(s[s.len() - 1].0@ == k);
        } else {
            if entries_map(s).contains_key(k) {
                let i = choose|i: int| 0 <= i < s.drop_last().len() && #[trigger] s.drop_last()[i].0@ == k;
                assert(s[i].0@ == k);
            }
            if exists|i: int| 0 <= i < s.len() && #[trigger] s[i].0@ == k {
                let i = choose|i: int| 0 <= i < s.len() && #[trigger] s[i].0@ == k;
                assert(s.drop_last()[i].0@ == k);
            }
        }
    }
}

/// An entry whose name no later entry repeats decides the mapping at its name.
pub proof fn lemma_entries_map_at(s: Seq<(String, KeyRef)>, i: int)
    requires
        0 <= i < s.len(),
        forall|j: int| i < j < s.len() ==> #[trigger] s[j].0@ != s[i].0@,
    ensures
        entries_map(s).contains_key(s[i].0@),
        entries_map(s)[s[i].0@] == s[i].1,
    decreases s.len(),
{
    if i == s.len() - 1 {
    } else {
        assert(s.drop_last()[i] == s[i]);
        lemma_entries_map_at(s.drop_last(), i);
    }
}

/// A per-program registry from human-readable names to references.
pub struct NamedKeys {
    pub entries: Vec<(String, KeyRef)>,
}

impl View for NamedKeys {
    type V = Map<Seq<char>, KeyRef>;

    open spec fn view(&self) -> Map<Seq<char>, KeyRef> {
        entries_map(self.entries@)
    }
}

impl NamedKeys {
    /// Names are unique within one registry.
    pub open spec fn wf(self) -> bool {
        forall|i: int, j: int|
            0 <= i < j < self.entries@.len() ==> #[trigger] self.entries@[i].0@ != #[trigger] self.entries@[j].0@
    }

    /// An empty registry.
    pub fn new() -> (r: NamedKeys)
        ensures
            r.wf(),
            r@ == Map::<Seq<char>, KeyRef>::empty(),
            r.entries@.len() == 0,
    {
        NamedKeys { entries: Vec::new() }
    }

    /// Registers `key` under `name`, replacing any reference the name held.
    pub fn insert(&mut self, name: String, key: KeyRef)
        requires
            old(self).wf(),
        ensures
            final(self).wf(),
            final(self)@ == old(self)@.insert(name@, key),
    {
        let n = self.entries.len();
        let mut i: usize = 0;
        while i < n
            invariant
                i <= n,
                n == self.entries@.len(),
                self.wf(),
                *self == *old(self),
                forall|j: int| 0 <= j < i ==> #[trigger] self.entries@[j].0@ != name@,
            decreases n - i,
        {
            if self.entries[i].0 == name {
                let ghost s = self.entries@;
                self.entries[i] = (name, key);
                proof {
                    lemma_entries_map_replace(s, i as int, (name, key));
                    assert forall|i2: int, j2: int|
                        0 <= i2 < j2 < self.entries@.len() implies self.entries@[i2].0@
                        != self.entries@[j2].0@ by {
                        assert(self.entries@[i2].0@ == s[i2].0@);
                        assert(self.entries@[j2].0@ == s[j2].0@);
                    }
                }
                return ;
            }
            i += 1;
        }
        let ghost s = self.entries@;
        self.entries.push((name, key));
        proof {
            assert(self.entries@.drop_last() =~= s);
            assert(self.entries@.last() == (name, key));
        }
    }

    /// Resolves `name` to the reference the registry holds for it, if any.
    pub fn get(&self, name: &String) -> (r: Option<KeyRef>)
        requires
            self.wf(),
        ensures
            match r {
                Some(k) => self@.contains_key(name@) && self@[name@] == k,
                None => !self@.contains_key(name@),
            },
    {
        let n = self.entries.len();
        let mut i: usize = 0;
        while i < n
            invariant
                i <= n,
                n == self.entries@.len(),
                self.wf(),
                forall|j: int| 0 <= j < i ==> #[trigger] self.entries@[j].0@ != name@,
            decreases n - i,
        {
            if self.entries[i].0 == *name {
                proof {
                    lemma_entries_map_at(self.entries@, i as int);
                }
                return Some(self.entries[i].1);
            }
            i += 1;
        }
        proof {
            lemma_entries_map_domain(self.entries@, name@);
        }
        None
    }
}

/// Replacing the entry of a name that occurs only once rewrites the mapping
/// at that name alone.
proof fn lemma_entries_map_replace(s: Seq<(String, KeyRef)>, i: int, p: (String, KeyRef))
    requires
        0 <= i < s.len(),
        s[i].0@ == p.0@,
        forall|i2: int, j2: int| 0 <= i2 < j2 < s.len() ==> #[trigger] s[i2].0@ != #[trigger] s[j2].0@,
    ensures
        entries_map(s.update(i, p)) == entries_map(s).insert(p.0@, p.1),
    decreases s.len(),
{
    let s2 = s.update(i, p);
    if i == s.len() - 1 {
        assert(s2.drop_last() =~= s.drop_last());
        assert(entries_map(s.drop_last()).insert(s.last().0@, s.last().1).insert(p.0@, p.1)
            =~= entries_map(s.drop_last()).insert(p.0@, p.1));
    } else {
        assert(s2.drop_last() =~= s.drop_last().update(i, p));
        assert(s.drop_last()[i] == s[i]);
        assert forall|i2: int, j2: int|
            0 <= i2 < j2 < s.drop_last().len() implies #[trigger] s.drop_last()[i2].0@
            != #[trigger] s.drop_last()[j2].0@ by {
            assert(s.drop_last()[i2] == s[i2]);
            assert(s.drop_last()[j2] == s[j2]);
        }
        lemma_entries_map_replace(s.drop_last(), i, p);
        assert(s2.last() == s.last());
        assert(s.last().0@ != p.0@) by {
            assert(s[i].0@ != s[s.len() - 1].0@);
        }
        assert(entries_map(s.drop_last()).insert(p.0@, p.1).insert(s.last().0@, s.last().1)
            =~= entries_map(s.drop_last()).insert(s.last().0@, s.last().1).insert(p.0@, p.1));
    }
}

} // verus!
