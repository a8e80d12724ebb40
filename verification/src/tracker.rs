use vstd::prelude::*;

use crate::value::str_eq;

verus! {

/// The pending-request table: for every Call still awaiting its reply,
/// the request id and the action name that produced it. Viewed as a map
/// from id to action; keys are unique.
pub struct CorrelationTracker {
    entries: Vec<(String, String)>,
}

spec fn keys_unique(s: Seq<(String, String)>) -> bool {
    forall|i: int, j: int| 0 <= i < j < s.len() ==> s[i].0@ != s[j].0@
}

spec fn entries_map(s: Seq<(String, String)>) -> Map<Seq<char>, Seq<char>>
    decreases s.len(),
{
    if s.len() == 0 {
        Map::empty()
    } else {
        entries_map(s.drop_last()).insert(s.last().0@, s.last().1@)
    }
}

proof fn lemma_entries_map_contains(s: Seq<(String, String)>, key: Seq<char>)
    ensures
        entries_map(s).contains_key(key) <==> exists|i: int| 0 <= i < s.len() && s[i].0@ == key,
    decreases s.len(),
{
    if s.len() > 0 {
        let dl = s.drop_last();
        lemma_entries_map_contains(dl, key);
        if s.last().0@ == key {
            assert(s[s.len() - 1].0@ == key);
        } else {
            if entries_map(s).contains_key(key) {
                let i = choose|i: int| 0 <= i < dl.len() && dl[i].0@ == key;
                assert(s[i].0@ == key);
            }
            if exists|i: int| 0 <= i < s.len() && s[i].0@ == key {
                let i = choose|i: int| 0 <= i < s.len() && s[i].0@ == key;
                assert(i != s.len() - 1);
                assert(dl[i].0@ == key);
            }
        }
    }
}

proof fn lemma_entries_map_finite(s: Seq<(String, String)>)
    ensures
        entries_map(s).dom().finite(),
    decreases s.len(),
{
    if s.len() > 0 {
        lemma_entries_map_finite(s.drop_last());
    }
}

proof fn lemma_entries_map_at(s: Seq<(String, String)>, i: int)
    requires
        keys_unique(s),
        0 <= i < s.len(),
    ensures
        entries_map(s).contains_key(s[i].0@),
        entries_map(s)[s[i].0@] == s[i].1@,
    decreases s.len(),
{
    if i < s.len() - 1 {
        lemma_entries_map_at(s.drop_last(), i);
    }
}

proof fn lemma_entries_map_remove(s: Seq<(String, String)>, i: int)
    requires
        keys_unique(s),
        0 <= i < s.len(),
    ensures
        entries_map(s.remove(i)) == entries_map(s).remove(s[i].0@),
    decreases s.len(),
{
    let key = s[i].0@;
    if i == s.len() - 1 {
        assert(s.remove(i) =~= s.drop_last());
        lemma_entries_map_contains(s.drop_last(), key);
        assert(entries_map(s.drop_last()) =~= entries_map(s).remove(key));
    } else {
        lemma_entries_map_remove(s.drop_last(), i);
        assert(s.remove(i).drop_last() =~= s.drop_last().remove(i));
        assert(s.remove(i).last() == s.last());
        assert(entries_map(s.remove(i)) == entries_map(s.drop_last().remove(i)).insert(
            s.last().0@,
            s.last().1@,
        ));
        assert(entries_map(s.drop_last()).remove(key).insert(s.last().0@, s.last().1@)
            =~= entries_map(s.drop_last()).insert(s.last().0@, s.last().1@).remove(key));
    }
}

impl View for CorrelationTracker {
    type V = Map<Seq<char>, Seq<char>>;

    closed spec fn view(&self) -> Map<Seq<char>, Seq<char>> {
        entries_map(self.entries@)
    }
}

impl CorrelationTracker {
    #[verifier::type_invariant]
    spec fn wf(self) -> bool {
        keys_unique(self.entries@)
    }

    /// An empty table.
    pub fn new() -> (r: Self)
        ensures
            r@ == Map::<Seq<char>, Seq<char>>::empty(),
    {
        CorrelationTracker { entries: Vec::new() }
    }

    /// The table is finite: it holds one entry per tracked id.
    pub proof fn lemma_finite(&self)
        ensures
            self@.dom().finite(),
    {
        lemma_entries_map_finite(self.entries@);
    }

    /// Whether an id is pending.
    pub fn contains(&self, id: &str) -> (r: bool)
        ensures
            r == self@.contains_key(id@),
    {
        proof {
            use_type_invariant(self);
            lemma_entries_map_contains(self.entries@, id@);
        }
        let mut i: usize = 0;
        while i < self.entries.len()
            invariant
                i <= self.entries@.len(),
                forall|k: int| 0 <= k < i ==> self.entries@[k].0@ != id@,
            decreases self.entries@.len() - i,
        {
            if str_eq(self.entries[i].0.as_str(), id) {
                proof {
                    lemma_entries_map_contains(self.entries@, id@);
                    assert(self.entries@[i as int].0@ == id@);
                }
                return true;
            }
            i = i + 1;
        }
        proof {
            if self@.contains_key(id@) {
                let k = choose|k: int|
                    0 <= k < self.entries@.len() && self.entries@[k].0@ == id@;
                assert(false);
            }
        }
        false
    }

    /// Removes the entry for `id`, returning its action name; `None` and
    /// no change when the id is not pending (an unsolicited or already
    /// resolved reply).
    pub fn resolve(&mut self, id: &str) -> (r: Option<String>)
        ensures
            old(self)@.contains_key(id@) ==> (match r {
                Some(a) => a@ == old(self)@[id@] && final(self)@ == old(self)@.remove(id@),
                None => false,
            }),
            !old(self)@.contains_key(id@) ==> r is None && final(self)@ == old(self)@,
            !final(self)@.contains_key(id@),
    {
        proof {
            use_type_invariant(&*self);
            lemma_entries_map_contains(self.entries@, id@);
        }
        let ghost s0 = self.entries@;
        let n = self.entries.len();
        let mut kept: Vec<(String, String)> = Vec::new();
        let mut found: Option<String> = None;
        let ghost mut gidx: int = 0;
        let mut i: usize = 0;
        while i < n
            invariant
                self.entries@ == s0,
                keys_unique(s0),
                n == s0.len(),
                i <= n,
                found is None ==> kept@ == s0.subrange(0, i as int) && (forall|k: int|
                    0 <= k < i ==> s0[k].0@ != id@),
                found matches Some(a) ==> 0 <= gidx < i && s0[gidx].0@ == id@ && a@ == s0[gidx].1@
                    && kept@ == s0.subrange(0, i as int).remove(gidx),
            decreases n - i,
        {
            let k = self.entries[i].0.clone();
            let a = self.entries[i].1.clone();
            let hit = match found {
                None => str_eq(k.as_str(), id),
                Some(_) => false,
            };
            if hit {
                proof {
                    gidx = i as int;
                }
                found = Some(a);
                proof {
                    assert(kept@ =~= s0.subrange(0, (i + 1) as int).remove(i as int));
                }
            } else {
                kept.push((k, a));
                proof {
                    if found is None {
                        assert(kept@ =~= s0.subrange(0, (i + 1) as int));
                    } else {
                        assert(kept@ =~= s0.subrange(0, (i + 1) as int).remove(gidx));
                    }
                }
            }
            i = i + 1;
        }
        proof {
            assert(s0.subrange(0, n as int) =~= s0);
            lemma_entries_map_contains(s0, id@);
            match found {
                None => {
                    assert(kept@ =~= s0);
                },
                Some(_) => {
                    assert(kept@ == s0.remove(gidx));
                    lemma_entries_map_at(s0, gidx);
                    lemma_entries_map_remove(s0, gidx);
                    assert(keys_unique(s0.remove(gidx)));
                    lemma_entries_map_contains(s0.remove(gidx), id@);
                },
            }
        }
        self.entries = kept;
        found
    }

    /// Registers a pending request. A second registration under an id
    /// that is still pending replaces the old entry (fresh ids make this
    /// unreachable in normal operation).
    pub fn track(&mut self, id: String, action: String)
        ensures
            final(self)@ == old(self)@.insert(id@, action@),
    {
        let _ = self.resolve(id.as_str());
        proof {
            use_type_invariant(&*self);
            lemma_entries_map_contains(self.entries@, id@);
            if old(self)@.contains_key(id@) {
                assert(old(self)@.remove(id@).insert(id@, action@) =~= old(self)@.insert(
                    id@,
                    action@,
                ));
            }
        }
        let ghost s1 = self.entries@;
        let n = self.entries.len();
        let mut es: Vec<(String, String)> = Vec::new();
        let mut i: usize = 0;
        while i < n
            invariant
                self.entries@ == s1,
                n == s1.len(),
                i <= n,
                es@ == s1.subrange(0, i as int),
            decreases n - i,
        {
            let k = self.entries[i].0.clone();
            let a = self.entries[i].1.clone();
            es.push((k, a));
            proof {
                assert(es@ =~= s1.subrange(0, (i + 1) as int));
            }
            i = i + 1;
        }
        proof {
            assert(es@ =~= s1);
        }
        es.push((id, action));
        proof {
            assert(es@.drop_last() =~= s1);
            assert(es@.last() == (id, action));
            assert(forall|k: int| 0 <= k < s1.len() ==> s1[k].0@ != id@);
            assert(keys_unique(es@));
        }
        self.entries = es;
    }
}

} // verus!
