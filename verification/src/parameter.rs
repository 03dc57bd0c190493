//! The values that a request carries for the services it activates.
use vstd::prelude::*;
use vstd::string::StringExecFns;
use crate::service::{share, ServiceInfo, Svc};

verus! {

/// A value carried by a request, with the identity of its type.
pub struct RequestParameter<V> {
    pub info: ServiceInfo,
    pub value: Svc<V>,
}

impl<V> RequestParameter<V> {
    /// Wraps `value`, a value of the type that `info` identifies.
    pub fn new(info: ServiceInfo, value: V) -> (parameter: Self)
        ensures
            parameter.info == info,
            *parameter.value == value,
    {
        RequestParameter { info, value: Svc::new(value) }
    }

    /// The value, if it is of the type that `info` identifies.
    pub fn downcast_ref(&self, info: ServiceInfo) -> (value: Option<&Svc<V>>)
        ensures
            value == if self.info.key() == info.key() {
                Some(&self.value)
            } else {
                None
            },
    {
        if self.info.id() == info.id() {
            Some(&self.value)
        } else {
            None
        }
    }

    /// Another handle to the same value.
    pub fn clone_dyn(&self) -> (parameter: Self)
        ensures
            parameter == *self,
    {
        RequestParameter { info: self.info, value: share(&self.value) }
    }
}

/// A map from names to parameters.
pub struct Parameters<V> {
    keys: Vec<String>,
    values: Vec<RequestParameter<V>>,
    model: Ghost<Map<Seq<char>, RequestParameter<V>>>,
}

impl<V> View for Parameters<V> {
    type V = Map<Seq<char>, RequestParameter<V>>;

    closed spec fn view(&self) -> Map<Seq<char>, RequestParameter<V>> {
        self.model@
    }
}

impl<V> Parameters<V> {
    #[verifier::type_invariant]
    spec fn well_formed(&self) -> bool {
        &&& self.keys.len() == self.values.len()
        &&& forall|i: int, j: int|
            0 <= i < j < self.keys.len() ==>
                (#[trigger] self.keys[i])@ != (#[trigger] self.keys[j])@
        &&& forall|i: int|
            0 <= i < self.keys.len() ==> self.model@.contains_key((#[trigger] self.keys[i])@)
                && self.model@[self.keys[i]@] == self.values[i]
        &&& forall|k: Seq<char>| #[trigger]
            self.model@.contains_key(k) ==> exists|i: int|
                0 <= i < self.keys.len() && (#[trigger] self.keys[i])@ == k
    }

    /// The empty map.
    pub fn new() -> (parameters: Self)
        ensures
            parameters@ == Map::<Seq<char>, RequestParameter<V>>::empty(),
    {
        Parameters { keys: Vec::new(), values: Vec::new(), model: Ghost(Map::empty()) }
    }

    /// The number of parameters.
    pub fn len(&self) -> (len: usize)
        ensures
            len == self@.len(),
            self@.dom().finite(),
    {
        proof {
            use_type_invariant(self);
            self.lemma_dom();
        }
        self.keys.len()
    }

    proof fn lemma_dom(&self)
        requires
            self.well_formed(),
        ensures
            self.model@.dom().finite(),
            self.model@.dom().len() == self.keys.len(),
    {
        let keys = self.keys@.map_values(|k: String| k@);
        assert(keys.no_duplicates());
        assert(keys.to_set() =~= self.model@.dom()) by {
            assert forall|k: Seq<char>| self.model@.dom().contains(k) implies keys.to_set()
                .contains(k) by {
                let i = choose|i: int| 0 <= i < self.keys.len() && (#[trigger] self.keys[i])@ == k;
                assert(keys[i] == k);
            }
            assert forall|k: Seq<char>| keys.to_set().contains(k) implies self.model@.dom()
                .contains(k) by {
                let i = choose|i: int| 0 <= i < keys.len() && keys[i] == k;
                assert(self.keys[i]@ == k);
            }
        }
        keys.unique_seq_to_set();
    }

    fn position(&self, key: &String) -> (position: Option<usize>)
        ensures
            match position {
                Some(i) => i < self.keys.len() && self.keys[i as int]@ == key@
                    && self.keys.len() == self.values.len() && self@.contains_key(key@)
                    && self@[key@] == self.values[i as int],
                None => !self@.contains_key(key@),
            },
    {
        proof {
            use_type_invariant(self);
        }
        let mut i: usize = 0;
        while i < self.keys.len()
            invariant
                i <= self.keys.len(),
                self.well_formed(),
                forall|j: int| 0 <= j < i ==> (#[trigger] self.keys[j])@ != key@,
            decreases self.keys.len() - i,
        {
            if self.keys[i] == *key {
                return Some(i);
            }
            i += 1;
        }
        None
    }

    /// The parameter named `key`, if there is one.
    pub fn get(&self, key: &str) -> (parameter: Option<&RequestParameter<V>>)
        ensures
            parameter == if self@.contains_key(key@) {
                Some(&self@[key@])
            } else {
                None
            },
    {
        let key = String::from_str(key);
        match self.position(&key) {
            Some(i) => Some(&self.values[i]),
            None => None,
        }
    }

    /// Names `value` by `key`, and returns the parameter that had the name.
    pub fn insert(&mut self, key: &str, value: RequestParameter<V>) -> (previous: Option<
        RequestParameter<V>,
    >)
        ensures
            final(self)@ == old(self)@.insert(key@, value),
            previous == if old(self)@.contains_key(key@) {
                Some(old(self)@[key@])
            } else {
                None
            },
    {
        let key = String::from_str(key);
        let found = self.position(&key);
        let mut taken = Parameters::new();
        core::mem::swap(self, &mut taken);
        proof {
            use_type_invariant(&taken);
        }
        let ghost old_keys = taken.keys@;
        let ghost old_values = taken.values@;
        let ghost old_model = taken.model@;
        let Parameters { mut keys, mut values, model } = taken;
        let ghost model = old_model.insert(key@, value);
        let previous = match found {
            Some(i) => {
                let mut slot = value;
                core::mem::swap(&mut slot, &mut values[i]);
                assert(keys@ == old_keys);
                assert(values@ == old_values.update(i as int, value));
                Some(slot)
            },
            None => {
                keys.push(key);
                values.push(value);
                assert forall|j: int| 0 <= j < old_keys.len() implies (#[trigger] old_keys[j])@
                    != key@ by {
                    assert(old_model.contains_key(old_keys[j]@));
                }
                None
            },
        };
        assert forall|i: int, j: int| 0 <= i < j < keys.len() implies (#[trigger] keys[i])@ != (
        #[trigger] keys[j])@ by {
            if j < old_keys.len() {
                assert(old_keys[i]@ != old_keys[j]@);
            }
        }
        assert forall|j: int| 0 <= j < keys.len() implies model.contains_key(
            (#[trigger] keys[j])@,
        ) && model[keys[j]@] == values[j] by {
            if j < old_keys.len() {
                assert(old_model.contains_key(old_keys[j]@));
                if let Some(i) = found {
                    if j != i as int {
                        if j < i as int {
                            assert(old_keys[j]@ != old_keys[i as int]@);
                        } else {
                            assert(old_keys[i as int]@ != old_keys[j]@);
                        }
                    }
                }
            }
        }
        assert forall|k: Seq<char>| #[trigger] model.contains_key(k) implies exists|i: int|
            0 <= i < keys.len() && (#[trigger] keys[i])@ == k by {
            if k != key@ {
                assert(old_model.contains_key(k));
                let i = choose|i: int| 0 <= i < old_keys.len() && (#[trigger] old_keys[i])@ == k;
                assert(keys[i]@ == k);
            } else {
                match found {
                    Some(i) => {
                        assert(keys[i as int]@ == k);
                    },
                    None => {
                        assert(keys[keys.len() - 1]@ == k);
                    },
                }
            }
        }
        *self = Parameters { keys, values, model: Ghost(model) };
        previous
    }

    /// Removes the parameter named `key`, and returns it.
    pub fn remove(&mut self, key: &str) -> (removed: Option<RequestParameter<V>>)
        ensures
            final(self)@ == old(self)@.remove(key@),
            removed == if old(self)@.contains_key(key@) {
                Some(old(self)@[key@])
            } else {
                None
            },
    {
        let key = String::from_str(key);
        let found = self.position(&key);
        let mut taken = Parameters::new();
        core::mem::swap(self, &mut taken);
        proof {
            use_type_invariant(&taken);
        }
        let ghost old_keys = taken.keys@;
        let ghost old_values = taken.values@;
        let ghost old_model = taken.model@;
        let Parameters { mut keys, mut values, model } = taken;
        let ghost model = old_model.remove(key@);
        let removed = match found {
            Some(i) => {
                keys.remove(i);
                let value = values.remove(i);
                assert forall|j: int| 0 <= j < keys.len() implies model.contains_key(
                    (#[trigger] keys[j])@,
                ) && model[keys[j]@] == values[j] by {
                    let before = if j < i as int {
                        j
                    } else {
                        j + 1
                    };
                    assert(keys[j] == old_keys[before]);
                    assert(old_model.contains_key(old_keys[before]@));
                    if before < i as int {
                        assert(old_keys[before]@ != old_keys[i as int]@);
                    } else {
                        assert(old_keys[i as int]@ != old_keys[before]@);
                    }
                }
                assert forall|a: int, b: int| 0 <= a < b < keys.len() implies (#[trigger] keys[a])@
                    != (#[trigger] keys[b])@ by {
                    let before_a = if a < i as int {
                        a
                    } else {
                        a + 1
                    };
                    let before_b = if b < i as int {
                        b
                    } else {
                        b + 1
                    };
                    assert(old_keys[before_a]@ != old_keys[before_b]@);
                }
                assert forall|k: Seq<char>| #[trigger] model.contains_key(k) implies exists|j: int|
                    0 <= j < keys.len() && (#[trigger] keys[j])@ == k by {
                    assert(old_model.contains_key(k));
                    let before = choose|j: int|
                        0 <= j < old_keys.len() && (#[trigger] old_keys[j])@ == k;
                    let j = if before < i as int {
                        before
                    } else {
                        before - 1
                    };
                    assert(keys[j]@ == k);
                }
                Some(value)
            },
            None => {
                assert(model =~= old_model);
                None
            },
        };
        *self = Parameters { keys, values, model: Ghost(model) };
        removed
    }

    /// A map with the same names for the same values.
    pub fn duplicate(&self) -> (copy: Self)
        ensures
            copy@ == self@,
    {
        proof {
            use_type_invariant(self);
        }
        let mut keys: Vec<String> = Vec::new();
        let mut values: Vec<RequestParameter<V>> = Vec::new();
        let mut i: usize = 0;
        while i < self.keys.len()
            invariant
                i <= self.keys.len(),
                self.keys.len() == self.values.len(),
                keys.len() == i,
                values.len() == i,
                forall|j: int| 0 <= j < i ==> (#[trigger] keys[j])@ == self.keys[j]@,
                forall|j: int| 0 <= j < i ==> #[trigger] values[j] == self.values[j],
            decreases self.keys.len() - i,
        {
            keys.push(self.keys[i].clone());
            values.push(self.values[i].clone_dyn());
            i += 1;
        }
        assert forall|k: Seq<char>| #[trigger] self.model@.contains_key(k) implies exists|i: int|
            0 <= i < keys.len() && (#[trigger] keys[i])@ == k by {
            let i = choose|i: int| 0 <= i < self.keys.len() && (#[trigger] self.keys[i])@ == k;
            assert(keys[i]@ == k);
        }
        assert forall|i: int, j: int| 0 <= i < j < keys.len() implies (#[trigger] keys[i])@ != (
        #[trigger] keys[j])@ by {
            assert(self.keys[i]@ != self.keys[j]@);
        }
        assert forall|j: int| 0 <= j < keys.len() implies self.model@.contains_key(
            (#[trigger] keys[j])@,
        ) && self.model@[keys[j]@] == values[j] by {
            assert(self.model@.contains_key(self.keys[j]@));
        }
        Parameters { keys, values, model: Ghost(self.model@) }
    }

    /// Moves every parameter of `other` into this map. Where both maps have
    /// a name, the parameter of `other` replaces the one that was here.
    pub fn merge(&mut self, other: Parameters<V>)
        ensures
            final(self)@ == old(self)@.union_prefer_right(other@),
    {
        proof {
            use_type_invariant(&other);
        }
        let ghost other_model = other.model@;
        let Parameters { keys, values, model } = other;
        let mut keys = keys;
        let mut values = values;
        let ghost all_keys = keys@;
        let ghost all_values = values@;
        let ghost done: Set<Seq<char>> = Set::empty();
        while keys.len() > 0
            invariant
                keys.len() == values.len(),
                keys.len() <= all_keys.len(),
                keys@ == all_keys.subrange(0, keys.len() as int),
                values@ == all_values.subrange(0, keys.len() as int),
                all_keys.len() == all_values.len(),
                forall|i: int, j: int|
                    0 <= i < j < all_keys.len() ==> (#[trigger] all_keys[i])@ != (
                    #[trigger] all_keys[j])@,
                forall|i: int|
                    0 <= i < all_keys.len() ==> other_model.contains_key(
                        (#[trigger] all_keys[i])@,
                    ) && other_model[all_keys[i]@] == all_values[i],
                forall|k: Seq<char>|
                    done.contains(k) <==> exists|i: int|
                        keys.len() <= i < all_keys.len() && (#[trigger] all_keys[i])@ == k,
                self@ == old(self)@.union_prefer_right(other_model.restrict(done)),
            decreases keys.len(),
        {
            let ghost last = keys.len() - 1;
            let key = keys.pop().unwrap();
            let value = values.pop().unwrap();
            assert(key == all_keys[last]);
            assert(value == all_values[last]);
            assert(other_model.contains_key(all_keys[last]@));
            let ghost before = self@;
            self.insert(key.as_str(), value);
            proof {
                let grown = done.insert(key@);
                assert(self@ =~= old(self)@.union_prefer_right(other_model.restrict(grown)));
                done = grown;
            }
        }
        assert(other_model.restrict(done) =~= other_model) by {
            assert forall|k: Seq<char>| other_model.contains_key(k) implies done.contains(k) by {
                let i = choose|i: int| 0 <= i < all_keys.len() && (#[trigger] all_keys[i])@ == k;
                assert(all_keys[i]@ == k);
            }
        }
    }
}

} // verus!
