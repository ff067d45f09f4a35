//! Shared instances: one instance of a model for each pair of model type
//! and host type, made on first access and handed out to every later one.

use vstd::prelude::*;

verus! {

/// What a shared instance is known by: the type of the model and the type
/// of the host that owns it.
#[derive(Clone, Copy, Debug, PartialEq, Eq, Structural)]
pub struct Key {
    pub model: u64,
    pub host: u64,
}

/// One shared instance and the key it is known by.
struct Entry<M> {
    key: Key,
    value: M,
}

/// The shared instances of models of one type of handle.
pub struct Registry<M> {
    entries: Vec<Entry<M>>,
}

impl<M> View for Registry<M> {
    type V = Map<Key, M>;

    closed spec fn view(&self) -> Map<Key, M> {
        Map::new(
            |key: Key| exists|i: int| 0 <= i < self.entries@.len() && self.entries@[i].key == key,
            |key: Key|
                self.entries@[choose|i: int|
                    0 <= i < self.entries@.len() && self.entries@[i].key == key].value,
        )
    }
}

impl<M> Registry<M> {
    /// No key is held twice.
    #[verifier::type_invariant]
    spec fn distinct(&self) -> bool {
        forall|i: int, j: int|
            0 <= i < j < self.entries@.len() ==> self.entries@[i].key != self.entries@[j].key
    }

    /// A registry that holds nothing.
    pub fn new() -> (registry: Self)
        ensures
            registry@ == Map::<Key, M>::empty(),
    {
        let registry = Registry { entries: Vec::new() };
        assert(registry@ =~= Map::<Key, M>::empty());
        registry
    }

    /// Where the instance of `key` stands, if one is held.
    fn position(&self, key: Key) -> (r: Option<usize>)
        ensures
            match r {
                Some(i) => i < self.entries@.len() && self.entries@[i as int].key == key
                    && self@.contains_key(key) && self@[key] == self.entries@[i as int].value,
                None => !self@.contains_key(key),
            },
    {
        proof {
            use_type_invariant(self);
        }
        let mut i: usize = 0;
        while i < self.entries.len()
            invariant
                i <= self.entries@.len(),
                self.distinct(),
                forall|k: int| 0 <= k < i ==> self.entries@[k].key != key,
            decreases self.entries@.len() - i,
        {
            if self.entries[i].key == key {
                proof {
                    let found = choose|k: int|
                        0 <= k < self.entries@.len() && self.entries@[k].key == key;
                    assert(found == i);
                }
                return Some(i);
            }
            i += 1;
        }
        None
    }

    /// Whether an instance is held for `key`.
    pub fn contains(&self, key: Key) -> (r: bool)
        ensures
            r == self@.contains_key(key),
    {
        self.position(key).is_some()
    }

    /// The instance held for `key`, if there is one.
    pub fn get(&self, key: Key) -> (r: Option<&M>)
        ensures
            match r {
                Some(instance) => self@.contains_key(key) && *instance == self@[key],
                None => !self@.contains_key(key),
            },
    {
        match self.position(key) {
            Some(i) => Some(&self.entries[i].value),
            None => None,
        }
    }
}


impl<M> Registry<M> {
    /// The shared instance of `key`. Where none is held yet, `fresh`, which
    /// the caller has made beforehand, becomes the shared instance; where
    /// one is held, it is handed out and `fresh` is let go.
    pub fn clone_singleton(&mut self, key: Key, fresh: M) -> (instance: &M)
        ensures
            final(self)@ == fetched(old(self)@, key, fresh),
            *instance == final(self)@[key],
    {
        match self.position(key) {
            Some(i) => {
                assert(self@ =~= fetched(old(self)@, key, fresh));
                &self.entries[i].value
            },
            None => {
                proof {
                    use_type_invariant(&*self);
                }
                let ghost before = self.entries@;
                let mut taken = Registry { entries: Vec::new() };
                core::mem::swap(self, &mut taken);
                let mut entries = taken.entries;
                entries.push(Entry { key, value: fresh });
                let i = entries.len() - 1;
                proof {
                    assert(entries@ == before.push(Entry { key, value: fresh }));
                    assert forall|a: int, b: int| 0 <= a < b < entries@.len() implies entries@[a].key
                        != entries@[b].key by {
                        if b == before.len() {
                            assert(before[a].key != key);
                        }
                    }
                }
                *self = Registry { entries };
                proof {
                    assert forall|k: Key| #[trigger]
                        self@.contains_key(k) <==> fetched(old(self)@, key, fresh).contains_key(k) by {
                        if k == key {
                            assert(self.entries@[i as int].key == key);
                        } else if self@.contains_key(k) {
                            let w = choose|w: int|
                                0 <= w < self.entries@.len() && self.entries@[w].key == k;
                            assert(before[w].key == k);
                        } else if old(self)@.contains_key(k) {
                            let w = choose|w: int| 0 <= w < before.len() && before[w].key == k;
                            assert(self.entries@[w].key == k);
                        }
                    }
                    assert forall|k: Key| #[trigger] self@.contains_key(k) implies self@[k] == fetched(
                        old(self)@,
                        key,
                        fresh,
                    )[k] by {
                        let w = choose|w: int|
                            0 <= w < self.entries@.len() && self.entries@[w].key == k;
                        if k == key {
                            assert(self.entries@[i as int].key == key);
                            assert(w == i);
                        } else {
                            assert(before[w].key == k);
                            let v = choose|v: int| 0 <= v < before.len() && before[v].key == k;
                            assert(v == w);
                        }
                    }
                    assert(self@ =~= fetched(old(self)@, key, fresh));
                }
                &self.entries[i].value
            },
        }
    }
}

/// The registry after the shared instance of `key` was fetched, with
/// `fresh` at hand for the case that none was held.
pub open spec fn fetched<M>(registry: Map<Key, M>, key: Key, fresh: M) -> Map<Key, M> {
    if registry.contains_key(key) {
        registry
    } else {
        registry.insert(key, fresh)
    }
}

/// Singleton identity, in the registry. Two fetches for one key hand out
/// one and the same instance, whatever instance the second caller had at
/// hand, and fetches for other keys in between do not change that.
pub proof fn law_singleton_identity<M>(
    registry: Map<Key, M>,
    key: Key,
    first: M,
    other: Key,
    between: M,
    second: M,
)
    ensures
        ({
            let one = fetched(registry, key, first);
            let two = fetched(fetched(one, other, between), key, second);
            &&& one.contains_key(key)
            &&& two.contains_key(key)
            &&& two[key] == one[key]
            &&& !registry.contains_key(key) ==> one[key] == first
            &&& registry.contains_key(key) ==> one[key] == registry[key]
        }),
{
}


/// One registered host and the type it is known by.
struct Host<C> {
    id: u64,
    handle: C,
}

/// The live host instances, one for each type of host: a host registers
/// its handle before any model bound to it is fetched.
pub struct SlintSingleton<C> {
    hosts: Vec<Host<C>>,
}

impl<C> View for SlintSingleton<C> {
    type V = Map<u64, C>;

    closed spec fn view(&self) -> Map<u64, C> {
        Map::new(
            |id: u64| exists|i: int| 0 <= i < self.hosts@.len() && self.hosts@[i].id == id,
            |id: u64|
                self.hosts@[choose|i: int| 0 <= i < self.hosts@.len() && self.hosts@[i].id == id].handle,
        )
    }
}

impl<C> SlintSingleton<C> {
    /// No type of host is held twice.
    #[verifier::type_invariant]
    spec fn distinct(&self) -> bool {
        forall|i: int, j: int|
            0 <= i < j < self.hosts@.len() ==> self.hosts@[i].id != self.hosts@[j].id
    }

    /// A registry in which no host is registered.
    pub fn new() -> (registry: Self)
        ensures
            registry@ == Map::<u64, C>::empty(),
    {
        let registry = SlintSingleton { hosts: Vec::new() };
        assert(registry@ =~= Map::<u64, C>::empty());
        registry
    }

    fn position(&self, host: u64) -> (r: Option<usize>)
        ensures
            match r {
                Some(i) => i < self.hosts@.len() && self.hosts@[i as int].id == host
                    && self@.contains_key(host) && self@[host] == self.hosts@[i as int].handle,
                None => !self@.contains_key(host),
            },
    {
        proof {
            use_type_invariant(self);
        }
        let mut i: usize = 0;
        while i < self.hosts.len()
            invariant
                i <= self.hosts@.len(),
                self.distinct(),
                forall|k: int| 0 <= k < i ==> self.hosts@[k].id != host,
            decreases self.hosts@.len() - i,
        {
            if self.hosts[i].id == host {
                proof {
                    let found = choose|k: int| 0 <= k < self.hosts@.len() && self.hosts@[k].id == host;
                    assert(found == i);
                }
                return Some(i);
            }
            i += 1;
        }
        None
    }

    /// Registers `handle` as the live instance of the hosts of type
    /// `host`, in place of any that was registered before.
    pub fn init_singleton(&mut self, host: u64, handle: C)
        ensures
            final(self)@ == old(self)@.insert(host, handle),
    {
        proof {
            use_type_invariant(&*self);
        }
        let found = self.position(host);
        let ghost before = self.hosts@;
        let mut taken = SlintSingleton { hosts: Vec::new() };
        core::mem::swap(self, &mut taken);
        let mut hosts = taken.hosts;
        let i = match found {
            Some(i) => {
                hosts.set(i, Host { id: host, handle });
                i
            },
            None => {
                hosts.push(Host { id: host, handle });
                hosts.len() - 1
            },
        };
        proof {
            assert forall|a: int, b: int| 0 <= a < b < hosts@.len() implies hosts@[a].id != hosts@[b].id by {
                if a < before.len() {
                    assert(before[a].id == hosts@[a].id || a == i);
                }
                if b < before.len() {
                    assert(before[b].id == hosts@[b].id || b == i);
                }
            }
        }
        *self = SlintSingleton { hosts };
        proof {
            assert(self.hosts@[i as int].id == host);
            assert forall|k: u64| #[trigger]
                self@.contains_key(k) <==> old(self)@.insert(host, handle).contains_key(k) by {
                if k != host {
                    if self@.contains_key(k) {
                        let w = choose|w: int| 0 <= w < self.hosts@.len() && self.hosts@[w].id == k;
                        assert(before[w].id == k);
                    } else if old(self)@.contains_key(k) {
                        let w = choose|w: int| 0 <= w < before.len() && before[w].id == k;
                        assert(self.hosts@[w].id == k);
                    }
                }
            }
            assert forall|k: u64| #[trigger] self@.contains_key(k) implies self@[k] == old(
                self,
            )@.insert(host, handle)[k] by {
                let w = choose|w: int| 0 <= w < self.hosts@.len() && self.hosts@[w].id == k;
                if k == host {
                    assert(w == i);
                } else {
                    assert(before[w].id == k);
                    let v = choose|v: int| 0 <= v < before.len() && before[v].id == k;
                    assert(v == w);
                }
            }
            assert(self@ =~= old(self)@.insert(host, handle));
        }
    }

    /// The live instance of the hosts of type `host`, if one is registered.
    pub fn find(&self, host: u64) -> (r: Option<&C>)
        ensures
            match r {
                Some(handle) => self@.contains_key(host) && *handle == self@[host],
                None => !self@.contains_key(host),
            },
    {
        match self.position(host) {
            Some(i) => Some(&self.hosts[i].handle),
            None => None,
        }
    }

    /// The live instance of the hosts of type `host`. To ask for a host
    /// that has not registered itself is a fault of the caller: the order
    /// of construction is the caller's to keep.
    pub fn clone_singleton(&self, host: u64) -> (handle: &C)
        requires
            self@.contains_key(host),
        ensures
            *handle == self@[host],
    {
        let i = self.position(host).unwrap();
        &self.hosts[i].handle
    }
}

} // verus!
