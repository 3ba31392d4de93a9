//! Tables keyed by integer handles or by names.
use std::collections::HashMap;

use vstd::hash_map::StringHashMap;
use vstd::prelude::*;
use vstd::std_specs::hash::*;

use crate::text;

verus! {

broadcast use vstd::std_specs::hash::group_hash_axioms;

/// Values found by their handle.
#[verifier::reject_recursive_types(V)]
pub struct HandleMap<V> {
    map: HashMap<i64, V>,
}

impl<V> View for HandleMap<V> {
    type V = Map<i64, V>;

    closed spec fn view(&self) -> Map<i64, V> {
        self.map@
    }
}

impl<V> HandleMap<V> {
    /// A table without entries.
    pub fn new() -> (r: Self)
        ensures
            r@ == Map::<i64, V>::empty(),
    {
        HandleMap { map: HashMap::new() }
    }

    /// Whether `handle` has an entry.
    pub fn contains(&self, handle: i64) -> (r: bool)
        ensures
            r == self@.contains_key(handle),
    {
        self.map.contains_key(&handle)
    }

    /// The entry of `handle`.
    pub fn get(&self, handle: i64) -> (r: Option<&V>)
        ensures
            match r {
                Some(v) => self@.contains_key(handle) && self@[handle] == *v,
                None => !self@.contains_key(handle),
            },
    {
        self.map.get(&handle)
    }

    /// `HashMap::get_mut`: the entry of `handle`, to be changed in place.
    ///
    /// Claimed: the entry is the one that the table holds, and what it is changed to is what the
    /// table then holds; nothing else changes.
    #[verifier::external_body]
    pub(crate) fn get_mut(&mut self, handle: i64) -> (r: Option<&mut V>)
        ensures
            match r {
                Some(v) => {
                    &&& old(self)@.contains_key(handle)
                    &&& *v == old(self)@[handle]
                    &&& final(self)@ == old(self)@.insert(handle, *final(v))
                },
                None => !old(self)@.contains_key(handle) && final(self)@ == old(self)@,
            },
    {
        self.map.get_mut(&handle)
    }

    /// Sets the entry of `handle`.
    pub fn insert(&mut self, handle: i64, value: V)
        ensures
            final(self)@ == old(self)@.insert(handle, value),
    {
        self.map.insert(handle, value);
    }

    /// Takes the entry of `handle` out.
    pub fn remove(&mut self, handle: i64) -> (r: Option<V>)
        ensures
            final(self)@ == old(self)@.remove(handle),
            match r {
                Some(v) => old(self)@.contains_key(handle) && old(self)@[handle] == v,
                None => !old(self)@.contains_key(handle),
            },
    {
        self.map.remove(&handle)
    }

    /// Takes every entry out.
    pub fn clear(&mut self)
        ensures
            final(self)@ == Map::<i64, V>::empty(),
    {
        self.map.clear();
    }

    /// The number of entries.
    pub fn len(&self) -> (r: usize)
        ensures
            r == self@.len(),
    {
        self.map.len()
    }

    /// Keeps the entries whose handle is in `keep`, and no others.
    pub fn retain_in(&mut self, keep: &Vec<i64>)
        ensures
            final(self)@ == old(self)@.restrict(keep@.to_set()),
    {
        let mut kept: HashMap<i64, V> = HashMap::new();
        let mut i: usize = 0;
        while i < keep.len()
            invariant
                i <= keep@.len(),
                kept@ == old(self)@.restrict(keep@.take(i as int).to_set()),
                self.map@ == old(self)@.remove_keys(keep@.take(i as int).to_set()),
            decreases keep@.len() - i,
        {
            let handle: i64 = keep[i];
            let ghost seen = keep@.take(i as int);
            let ghost next = keep@.take(i as int + 1);
            assert(next =~= seen.push(handle));
            assert(next.to_set() =~= seen.to_set().insert(handle)) by {
                assert(seen.push(handle)[i as int] == handle);
                assert forall|h: i64| seen.to_set().contains(h) implies next.to_set().contains(
                    h,
                ) by {
                    let k = choose|k: int| 0 <= k < seen.len() && seen[k] == h;
                    assert(next[k] == h);
                }
            }
            if let Some(value) = self.map.remove(&handle) {
                kept.insert(handle, value);
            }
            assert(kept@ =~= old(self)@.restrict(next.to_set()));
            assert(self.map@ =~= old(self)@.remove_keys(next.to_set()));
            i = i + 1;
        }
        assert(keep@.take(keep@.len() as int) =~= keep@);
        self.map = kept;
    }
}

/// Handles found by name.
pub struct NameMap {
    map: StringHashMap<i64>,
    names: Vec<String>,
}

impl View for NameMap {
    type V = Map<Seq<char>, i64>;

    closed spec fn view(&self) -> Map<Seq<char>, i64> {
        self.map@
    }
}

impl NameMap {
    /// Every name that has an entry is listed.
    pub closed spec fn wf(&self) -> bool {
        forall|name: Seq<char>| #[trigger]
            self.map@.contains_key(name) ==> text::views(self.names@).contains(name)
    }

    /// A table without entries.
    pub fn new() -> (r: Self)
        ensures
            r.wf(),
            r@ == Map::<Seq<char>, i64>::empty(),
    {
        NameMap { map: StringHashMap::new(), names: Vec::new() }
    }

    /// The entry of `name`.
    pub fn get(&self, name: &str) -> (r: Option<i64>)
        ensures
            match r {
                Some(v) => self@.contains_key(name@) && self@[name@] == v,
                None => !self@.contains_key(name@),
            },
    {
        match self.map.get(name) {
            Some(v) => Some(*v),
            None => None,
        }
    }

    /// Sets the entry of `name`.
    pub fn insert(&mut self, name: &str, value: i64)
        requires
            old(self).wf(),
        ensures
            final(self).wf(),
            final(self)@ == old(self)@.insert(name@, value),
    {
        let ghost before = text::views(self.names@);
        if !self.map.contains_key(name) {
            self.names.push(name.to_owned());
            assert(text::views(self.names@) =~= before.push(name@));
            assert(before.push(name@)[before.len() as int] == name@);
        }
        self.map.insert(name.to_owned(), value);
        proof {
            let after = text::views(self.names@);
            assert forall|other: Seq<char>| #[trigger]
                self.map@.contains_key(other) implies after.contains(other) by {
                if old(self).map@.contains_key(other) {
                    let k = choose|k: int| 0 <= k < before.len() && before[k] == other;
                    assert(after[k] == other);
                } else {
                    assert(after[before.len() as int] == other);
                }
            }
        }
    }

    /// Takes every entry out.
    pub fn clear(&mut self)
        ensures
            final(self).wf(),
            final(self)@ == Map::<Seq<char>, i64>::empty(),
    {
        self.map.clear();
        self.names.clear();
    }

    /// The values of the entries; a value may be repeated.
    pub fn values(&self) -> (r: Vec<i64>)
        requires
            self.wf(),
        ensures
            forall|v: i64| r@.contains(v) <==> self@.values().contains(v),
    {
        let mut out: Vec<i64> = Vec::new();
        let ghost names = text::views(self.names@);
        let mut i: usize = 0;
        while i < self.names.len()
            invariant
                i <= self.names@.len(),
                names == text::views(self.names@),
                forall|v: i64| #[trigger] out@.contains(v) ==> self@.values().contains(v),
                forall|k: int|
                    0 <= k < i && self@.contains_key(#[trigger] names[k]) ==> out@.contains(
                        self@[names[k]],
                    ),
            decreases self.names@.len() - i,
        {
            let ghost before = out@;
            match self.map.get(self.names[i].as_str()) {
                Some(v) => {
                    out.push(*v);
                    proof {
                        assert(self@.contains_key(names[i as int]));
                        assert(self@.values().contains(*v));
                        assert(out@[before.len() as int] == *v);
                        assert forall|w: i64| #[trigger] out@.contains(w) implies before.contains(
                            w,
                        ) || w == *v by {
                            let k = choose|k: int| 0 <= k < out@.len() && out@[k] == w;
                            if k < before.len() {
                                assert(before[k] == w);
                            }
                        }
                        assert forall|k: int|
                            0 <= k < i + 1 && self@.contains_key(
                                #[trigger] names[k],
                            ) implies out@.contains(self@[names[k]]) by {
                            if k < i {
                                let j = choose|j: int|
                                    0 <= j < before.len() && before[j] == self@[names[k]];
                                assert(out@[j] == self@[names[k]]);
                            }
                        }
                    }
                },
                None => {},
            }
            i = i + 1;
        }
        assert forall|v: i64| self@.values().contains(v) implies out@.contains(v) by {
            let name = choose|name: Seq<char>| #[trigger]
                self@.contains_key(name) && self@[name] == v;
            let k = choose|k: int| 0 <= k < names.len() && names[k] == name;
            assert(self@.contains_key(names[k]));
        }
        out
    }

    /// Keeps the entries whose value is a handle of `kept`, and no others.
    pub fn retain_in<V>(&mut self, kept: &HandleMap<V>)
        requires
            old(self).wf(),
        ensures
            final(self).wf(),
            final(self)@ == old(self)@.restrict(
                old(self)@.dom().filter(|name: Seq<char>| kept@.contains_key(old(self)@[name])),
            ),
    {
        let ghost names = text::views(self.names@);
        let ghost target = old(self)@.restrict(
            old(self)@.dom().filter(|name: Seq<char>| kept@.contains_key(old(self)@[name])),
        );
        let mut map: StringHashMap<i64> = StringHashMap::new();
        let mut i: usize = 0;
        while i < self.names.len()
            invariant
                i <= self.names@.len(),
                names == text::views(self.names@),
                *self == *old(self),
                target == old(self)@.restrict(
                    old(self)@.dom().filter(
                        |name: Seq<char>| kept@.contains_key(old(self)@[name]),
                    ),
                ),
                forall|name: Seq<char>| #[trigger]
                    map@.contains_key(name) ==> target.contains_key(name) && map@[name]
                        == target[name],
                forall|k: int|
                    0 <= k < i && target.contains_key(#[trigger] names[k]) ==> map@.contains_key(
                        names[k],
                    ),
            decreases self.names@.len() - i,
        {
            assert(names[i as int] == self.names@[i as int]@);
            match self.map.get(self.names[i].as_str()) {
                Some(v) => {
                    if kept.contains(*v) {
                        map.insert(self.names[i].clone(), *v);
                    }
                },
                None => {},
            }
            i = i + 1;
        }
        assert forall|name: Seq<char>| target.contains_key(name) implies #[trigger]
            map@.contains_key(name) by {
            assert(old(self)@.contains_key(name));
            let k = choose|k: int| 0 <= k < names.len() && names[k] == name;
            assert(target.contains_key(names[k]));
        }
        assert(map@ =~= target);
        self.map = map;
    }
}

} // verus!
