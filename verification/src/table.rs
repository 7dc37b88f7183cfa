//! Values keyed by small integer codes, in a hash map.
use std::collections::HashMap;
use vstd::prelude::*;
use vstd::std_specs::hash::spec_keys_iter;
use vstd::std_specs::iter::IteratorSpec;

verus! {

broadcast use vstd::std_specs::hash::group_hash_axioms;

/// The map that a list of (code, state) entries describes.
pub open spec fn table_map<V>(s: Seq<(u32, V)>) -> Map<u32, V>
    decreases s.len(),
{
    if s.len() == 0 {
        Map::empty()
    } else {
        table_map(s.drop_last()).insert(s.last().0, s.last().1)
    }
}

/// No code occurs twice.
pub open spec fn unique_codes<V>(s: Seq<(u32, V)>) -> bool {
    forall|i: int, j: int| 0 <= i < j < s.len() ==> s[i].0 != s[j].0
}

pub(crate) proof fn lemma_table_dom<V>(s: Seq<(u32, V)>, k: u32)
    ensures
        table_map(s).dom().contains(k) <==> exists|i: int| 0 <= i < s.len() && s[i].0 == k,
    decreases s.len(),
{
    if s.len() > 0 {
        lemma_table_dom(s.drop_last(), k);
        if table_map(s).dom().contains(k) && s.last().0 != k {
            let i = choose|i: int| 0 <= i < s.drop_last().len() && s.drop_last()[i].0 == k;
            assert(s[i].0 == k);
        }
        if exists|i: int| 0 <= i < s.len() && s[i].0 == k {
            let i = choose|i: int| 0 <= i < s.len() && s[i].0 == k;
            if i < s.len() - 1 {
                assert(s.drop_last()[i].0 == k);
            }
        }
    }
}

pub(crate) proof fn lemma_table_at<V>(s: Seq<(u32, V)>, i: int)
    requires
        unique_codes(s),
        0 <= i < s.len(),
    ensures
        table_map(s).dom().contains(s[i].0),
        table_map(s)[s[i].0] == s[i].1,
    decreases s.len(),
{
    if i < s.len() - 1 {
        lemma_table_at(s.drop_last(), i);
        assert(s.drop_last()[i] == s[i]);
    }
}

/// A code is among `s` with `k` pushed exactly when it is `k` or among `s`.
pub(crate) proof fn lemma_push_contains(s: Seq<u32>, k: u32)
    ensures
        forall|x: u32| #[trigger] s.push(k).contains(x) <==> (s.contains(x) || x == k),
{
    assert forall|x: u32| #[trigger] s.push(k).contains(x) <==> (s.contains(x) || x == k) by {
        if s.contains(x) {
            let j = choose|j: int| 0 <= j < s.len() && s[j] == x;
            assert(s.push(k)[j] == x);
        }
        if x == k {
            assert(s.push(k)[s.len() as int] == x);
        }
        if s.push(k).contains(x) && x != k {
            let j = choose|j: int| 0 <= j < s.len() + 1 && s.push(k)[j] == x;
            assert(s[j] == x);
        }
    }
}

/// Values keyed by codes, held in a hash map.
#[derive(Debug)]
pub struct Table<V> {
    map: HashMap<u32, V>,
}

impl<V> View for Table<V> {
    type V = Map<u32, V>;

    closed spec fn view(&self) -> Map<u32, V> {
        self.map@
    }
}

impl<V> Table<V> {
    /// The empty table, with room for `capacity` entries.
    pub fn with_capacity(capacity: usize) -> (t: Table<V>)
        ensures
            t@ == Map::<u32, V>::empty(),
    {
        Table { map: HashMap::with_capacity(capacity) }
    }

    /// The empty table.
    pub fn new() -> (t: Table<V>)
        ensures
            t@ == Map::<u32, V>::empty(),
    {
        Table { map: HashMap::new() }
    }

    /// The codes that have a value, each once, in no particular order.
    pub fn codes(&self) -> (c: Vec<u32>)
        ensures
            c@.no_duplicates(),
            forall|k: u32| #[trigger] self@.dom().contains(k) <==> c@.contains(k),
    {
        let mut c: Vec<u32> = Vec::new();
        let ghost keys = spec_keys_iter(&self.map).remaining();
        for k in it: self.map.keys()
            invariant
                it.seq() == keys,
                c@ == keys.take(it.index()).map_values(|r: &u32| *r),
        {
            c.push(*k);
        }
        proof {
            assert(c@ =~= keys.map_values(|r: &u32| *r));
            assert(keys.unref().to_set() == self@.dom());
            assert forall|k: u32| #[trigger] self@.dom().contains(k) <==> c@.contains(k) by {
                if self@.dom().contains(k) {
                    assert(keys.unref().to_set().contains(k));
                    let i = choose|i: int| 0 <= i < keys.len() && keys.unref()[i] == k;
                    assert(c@[i] == k);
                }
                if c@.contains(k) {
                    let i = choose|i: int| 0 <= i < c@.len() && c@[i] == k;
                    assert(keys.unref()[i] == k);
                    assert(keys.unref().to_set().contains(k));
                }
            }
            assert forall|a: int, b: int| 0 <= a < b < c@.len() implies c@[a] != c@[b] by {
                assert(keys[a] != keys[b]);
            }
        }
        c
    }

    /// The value for `code`, if there is one.
    pub fn get(&self, code: u32) -> (r: Option<V>) where V: Copy
        ensures
            r == (if self@.dom().contains(code) {
                Some(self@[code])
            } else {
                None::<V>
            }),
    {
        match self.map.get(&code) {
            Some(v) => Some(*v),
            None => None,
        }
    }

    /// A reference to the value for `code`, if there is one.
    pub fn get_ref(&self, code: u32) -> (r: Option<&V>)
        ensures
            r is Some <==> self@.dom().contains(code),
            r matches Some(v) ==> *v == self@[code],
    {
        self.map.get(&code)
    }

    /// Records `state` for `code`, replacing any value it had.
    pub fn set(&mut self, code: u32, state: V)
        ensures
            final(self)@ == old(self)@.insert(code, state),
    {
        self.map.insert(code, state);
    }

    /// Whether the table holds no value.
    pub fn is_empty(&self) -> (b: bool)
        ensures
            b == (self@ == Map::<u32, V>::empty()),
    {
        let b = self.map.is_empty();
        if b {
            assert(self@ =~= Map::<u32, V>::empty());
        } else {
            assert(self@.dom().len() > 0);
            assert(Map::<u32, V>::empty().dom().len() == 0);
        }
        b
    }

    /// Empties the table, handing out its entries: no code twice, and
    /// describing the map the table held.
    pub fn take_entries(&mut self) -> (e: Vec<(u32, V)>)
        ensures
            final(self)@ == Map::<u32, V>::empty(),
            unique_codes(e@),
            table_map(e@) == old(self)@,
    {
        let codes = self.codes();
        let ghost before = self@;
        let mut e: Vec<(u32, V)> = Vec::new();
        let mut i: usize = 0;
        while i < codes.len()
            invariant
                codes@.no_duplicates(),
                forall|k: u32| #[trigger] before.dom().contains(k) <==> codes@.contains(k),
                i <= codes@.len(),
                e@.len() == i,
                forall|j: int| 0 <= j < i ==> #[trigger] e@[j].0 == codes@[j],
                unique_codes(e@),
                forall|k: u32| #[trigger] self@.dom().contains(k) <==> (before.dom().contains(k) && !codes@.take(i as int).contains(k)),
                forall|k: u32| #[trigger] self@.dom().contains(k) ==> self@[k] == before[k],
                forall|k: u32| #[trigger] table_map(e@).dom().contains(k) <==> codes@.take(i as int).contains(k),
                forall|k: u32| #[trigger] table_map(e@).dom().contains(k) ==> table_map(e@)[k] == before[k],
            decreases codes@.len() - i,
        {
            let k = codes[i];
            assert(codes@.contains(k));
            assert(before.dom().contains(k));
            assert(!codes@.take(i as int).contains(k));
            assert(self@.dom().contains(k));
            let ghost cur = self@;
            let v = match self.map.remove(&k) {
                Some(v) => v,
                None => {
                    assert(false);
                    return e;
                },
            };
            proof {
                assert(v == before[k]);
                assert(self@ == cur.remove(k));
                assert(codes@.take(i as int + 1) =~= codes@.take(i as int).push(k));
                assert forall|j: int| 0 <= j < i implies e@[j].0 != k by {
                    assert(codes@[j] != codes@[i as int]);
                }
            }
            let ghost e0 = e@;
            let ghost taken = codes@.take(i as int);
            e.push((k, v));
            i = i + 1;
            proof {
                assert(e@.drop_last() =~= e0);
                assert(table_map(e@) == table_map(e0).insert(k, v));
                assert(codes@.take(i as int) == taken.push(k));
                lemma_push_contains(taken, k);
                assert forall|x: u32| #[trigger] self@.dom().contains(x) <==> (before.dom().contains(x) && !codes@.take(i as int).contains(x)) by {
                }
                assert forall|x: u32| #[trigger] table_map(e@).dom().contains(x) <==> codes@.take(i as int).contains(x) by {
                }
            }
        }
        proof {
            assert(codes@.take(i as int) =~= codes@);
            assert(self@ =~= Map::<u32, V>::empty());
            assert(table_map(e@) =~= before);
        }
        e
    }
}

} // verus!
