//! A mapping from module name to minimum severity level, built once from
//! configuration and read for the lifetime of the filter that owns it.

use vstd::prelude::*;

use crate::level::Level;
use crate::text::{chars_eq, str_to_chars};

verus! {

/// The mathematical contents of an association list: entries applied in
/// order, a later entry for the same key overwriting an earlier one.
spec fn assoc_map(s: Seq<(Vec<char>, Level)>) -> Map<Seq<char>, Level>
    decreases s.len(),
{
    if s.len() == 0 {
        Map::empty()
    } else {
        assoc_map(s.drop_last()).insert(s.last().0@, s.last().1)
    }
}

/// No two entries share a key.
spec fn unique_keys(s: Seq<(Vec<char>, Level)>) -> bool {
    forall|p: int, q: int| 0 <= p < q < s.len() ==> s[p].0@ != s[q].0@
}

proof fn lemma_unique_keys_drop_last(s: Seq<(Vec<char>, Level)>)
    requires
        unique_keys(s),
        s.len() > 0,
    ensures
        unique_keys(s.drop_last()),
{
    let t = s.drop_last();
    assert forall|p: int, q: int| 0 <= p < q < t.len() implies t[p].0@ != t[q].0@ by {
        assert(t[p] == s[p]);
        assert(t[q] == s[q]);
    }
}

proof fn lemma_assoc_map_dom(s: Seq<(Vec<char>, Level)>)
    ensures
        assoc_map(s).dom().finite(),
        forall|k: Seq<char>|
            #[trigger] assoc_map(s).contains_key(k) <==> (exists|i: int|
                0 <= i < s.len() && s[i].0@ == k),
    decreases s.len(),
{
    if s.len() == 0 {
    } else {
        let t = s.drop_last();
        lemma_assoc_map_dom(t);
        assert forall|k: Seq<char>| #[trigger] assoc_map(s).contains_key(k) implies (exists|i: int|
            0 <= i < s.len() && s[i].0@ == k) by {
            if k == s.last().0@ {
                assert(s[s.len() - 1].0@ == k);
            } else {
                let i = choose|i: int| 0 <= i < t.len() && t[i].0@ == k;
                assert(s[i] == t[i]);
            }
        }
        assert forall|k: Seq<char>| (exists|i: int| 0 <= i < s.len() && s[i].0@ == k)
            implies #[trigger] assoc_map(s).contains_key(k) by {
            let i = choose|i: int| 0 <= i < s.len() && s[i].0@ == k;
            if i < s.len() - 1 {
                assert(t[i] == s[i]);
                assert(t[i].0@ == k);
            }
        }
    }
}

proof fn lemma_assoc_map_value(s: Seq<(Vec<char>, Level)>, i: int)
    requires
        unique_keys(s),
        0 <= i < s.len(),
    ensures
        assoc_map(s).contains_key(s[i].0@),
        assoc_map(s)[s[i].0@] == s[i].1,
    decreases s.len(),
{
    if i == s.len() - 1 {
    } else {
        let t = s.drop_last();
        assert(s[i].0@ != s[s.len() - 1].0@);
        lemma_unique_keys_drop_last(s);
        assert(t[i] == s[i]);
        lemma_assoc_map_value(t, i);
    }
}

proof fn lemma_assoc_map_len(s: Seq<(Vec<char>, Level)>)
    requires
        unique_keys(s),
    ensures
        assoc_map(s).dom().len() == s.len(),
    decreases s.len(),
{
    if s.len() == 0 {
        assert(assoc_map(s).dom() =~= Set::<Seq<char>>::empty());
    } else {
        let t = s.drop_last();
        lemma_unique_keys_drop_last(s);
        lemma_assoc_map_len(t);
        lemma_assoc_map_dom(t);
        assert(!assoc_map(t).contains_key(s.last().0@)) by {
            if assoc_map(t).contains_key(s.last().0@) {
                let i = choose|i: int| 0 <= i < t.len() && t[i].0@ == s.last().0@;
                assert(s[i] == t[i]);
                assert(s[i].0@ != s[s.len() - 1].0@);
            }
        }
        assert(assoc_map(s).dom() =~= assoc_map(t).dom().insert(s.last().0@));
    }
}

proof fn lemma_assoc_map_push(s: Seq<(Vec<char>, Level)>, kv: (Vec<char>, Level))
    ensures
        assoc_map(s.push(kv)) == assoc_map(s).insert(kv.0@, kv.1),
{
    assert(s.push(kv).drop_last() =~= s);
    assert(s.push(kv).last() == kv);
}

proof fn lemma_assoc_map_update(s: Seq<(Vec<char>, Level)>, i: int, kv: (Vec<char>, Level))
    requires
        unique_keys(s),
        0 <= i < s.len(),
        kv.0@ == s[i].0@,
    ensures
        assoc_map(s.update(i, kv)) == assoc_map(s).insert(kv.0@, kv.1),
        unique_keys(s.update(i, kv)),
    decreases s.len(),
{
    let u = s.update(i, kv);
    assert forall|p: int, q: int| 0 <= p < q < u.len() implies u[p].0@ != u[q].0@ by {
        assert(u[p].0@ == s[p].0@);
        assert(u[q].0@ == s[q].0@);
    }
    let t = s.drop_last();
    lemma_unique_keys_drop_last(s);
    if i == s.len() - 1 {
        assert(u.drop_last() =~= t);
        assert(u.last() == kv);
        assert(assoc_map(t).insert(s.last().0@, s.last().1).insert(kv.0@, kv.1) =~= assoc_map(
            t,
        ).insert(kv.0@, kv.1));
    } else {
        assert(u.drop_last() =~= t.update(i, kv));
        assert(u.last() == s.last());
        assert(t[i] == s[i]);
        lemma_assoc_map_update(t, i, kv);
        assert(kv.0@ != s.last().0@);
        assert(assoc_map(t).insert(kv.0@, kv.1).insert(s.last().0@, s.last().1) =~= assoc_map(
            t,
        ).insert(s.last().0@, s.last().1).insert(kv.0@, kv.1));
    }
}

/// A mapping from module name (case-sensitive, keys unique) to the minimum
/// severity level required of records from that module.
#[derive(Debug)]
pub struct ModLevelMap {
    entries: Vec<(Vec<char>, Level)>,
}

impl View for ModLevelMap {
    type V = Map<Seq<char>, Level>;

    closed spec fn view(&self) -> Map<Seq<char>, Level> {
        assoc_map(self.entries@)
    }
}

impl ModLevelMap {
    #[verifier::type_invariant]
    spec fn wf(self) -> bool {
        unique_keys(self.entries@)
    }

    /// An empty mapping.
    pub fn new() -> (m: Self)
        ensures
            m@ == Map::<Seq<char>, Level>::empty(),
    {
        ModLevelMap { entries: Vec::new() }
    }

    /// The number of module names that have a level set.
    pub fn len(&self) -> (n: usize)
        ensures
            n == self@.dom().len(),
    {
        proof {
            use_type_invariant(&*self);
            lemma_assoc_map_len(self.entries@);
        }
        self.entries.len()
    }

    /// Whether no module name has a level set.
    pub fn is_empty(&self) -> (b: bool)
        ensures
            b == (self@ == Map::<Seq<char>, Level>::empty()),
    {
        proof {
            use_type_invariant(&*self);
            if self.entries@.len() == 0 {
                assert(self@ =~= Map::<Seq<char>, Level>::empty());
            } else {
                lemma_assoc_map_value(self.entries@, self.entries@.len() - 1);
            }
        }
        self.entries.len() == 0
    }

    fn find_key(entries: &Vec<(Vec<char>, Level)>, key: &Vec<char>) -> (r: Option<usize>)
        ensures
            match r {
                Some(i) => i < entries@.len() && entries@[i as int].0@ == key@,
                None => forall|j: int| 0 <= j < entries@.len() ==> entries@[j].0@ != key@,
            },
    {
        let n = entries.len();
        let mut i: usize = 0;
        while i < n
            invariant
                i <= n,
                n == entries@.len(),
                forall|j: int| 0 <= j < i ==> entries@[j].0@ != key@,
            decreases n - i,
        {
            if chars_eq(&entries[i].0, key) {
                return Some(i);
            }
            i = i + 1;
        }
        None
    }

    /// The level set for `module`, if any.
    pub fn get(&self, module: &str) -> (r: Option<Level>)
        ensures
            match r {
                Some(l) => self@.contains_key(module@) && l == self@[module@],
                None => !self@.contains_key(module@),
            },
    {
        proof {
            use_type_invariant(&*self);
        }
        let key = str_to_chars(module);
        match Self::find_key(&self.entries, &key) {
            Some(i) => {
                proof {
                    lemma_assoc_map_value(self.entries@, i as int);
                }
                Some(self.entries[i].1)
            },
            None => {
                proof {
                    lemma_assoc_map_dom(self.entries@);
                }
                None
            },
        }
    }

    /// Sets the level for `module`, overwriting an earlier setting.
    pub fn insert(&mut self, module: &str, level: Level)
        ensures
            final(self)@ == old(self)@.insert(module@, level),
    {
        let key = str_to_chars(module);
        self.insert_chars(key, level);
    }

    /// Sets the level for the module spelled by `key`, overwriting an
    /// earlier setting.
    pub fn insert_chars(&mut self, key: Vec<char>, level: Level)
        ensures
            final(self)@ == old(self)@.insert(key@, level),
    {
        proof {
            use_type_invariant(&*self);
        }
        let ghost gk = key@;
        let mut entries: Vec<(Vec<char>, Level)> = Vec::new();
        core::mem::swap(&mut entries, &mut self.entries);
        let ghost s0 = entries@;
        match Self::find_key(&entries, &key) {
            Some(i) => {
                entries[i] = (key, level);
                proof {
                    assert(entries@ =~= s0.update(i as int, entries@[i as int]));
                    lemma_assoc_map_update(s0, i as int, entries@[i as int]);
                }
            },
            None => {
                entries.push((key, level));
                proof {
                    lemma_assoc_map_push(s0, entries@.last());
                    assert(entries@.drop_last() =~= s0);
                    assert forall|p: int, q: int|
                        0 <= p < q < entries@.len() implies entries@[p].0@ != entries@[q].0@ by {
                        if q < entries@.len() - 1 {
                            assert(entries@[p] == s0[p]);
                            assert(entries@[q] == s0[q]);
                        } else {
                            assert(entries@[p] == s0[p]);
                            assert(entries@[q].0@ == gk);
                        }
                    }
                }
            },
        }
        self.entries = entries;
    }
}

} // verus!
