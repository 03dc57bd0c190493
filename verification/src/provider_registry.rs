//! The registry of providers, with the slots that requests check them out of.
use vstd::prelude::*;
use vstd::std_specs::iter::IteratorSpec;
use vstd::string::StringExecFns;
use std::collections::HashMap;
use crate::providers::Provider;
use crate::service::{InjectError, InjectErrorView, InjectResult, ServiceInfo};

verus! {

broadcast use vstd::std_specs::hash::group_hash_axioms;

/// What a registry holds: for each registered service either its providers,
/// in the order of their registration, or nothing while they are checked out.
pub type Slots<V, F, C> = Map<u64, Option<Seq<Provider<V, F, C>>>>;

/// The providers of each service, by the key of the service.
pub struct ProviderRegistry<V, F, C> {
    providers: HashMap<u64, Option<Vec<Provider<V, F, C>>>>,
}

/// The value of one slot.
pub open spec fn slot_view<V, F, C>(slot: Option<Vec<Provider<V, F, C>>>) -> Option<
    Seq<Provider<V, F, C>>,
> {
    match slot {
        Some(providers) => Some(providers@),
        None => None,
    }
}

impl<V, F, C> View for ProviderRegistry<V, F, C> {
    type V = Slots<V, F, C>;

    closed spec fn view(&self) -> Slots<V, F, C> {
        self.providers@.map_values(|slot: Option<Vec<Provider<V, F, C>>>| slot_view(slot))
    }
}

impl<V, F, C> ProviderRegistry<V, F, C> {
    /// Creates a registry without providers.
    pub fn new() -> (registry: Self)
        ensures
            registry@ == Map::<u64, Option<Seq<Provider<V, F, C>>>>::empty(),
    {
        let registry = ProviderRegistry { providers: HashMap::new() };
        assert(registry@ =~= Map::<u64, Option<Seq<Provider<V, F, C>>>>::empty());
        registry
    }

    /// A registry holds finitely many services.
    pub proof fn lemma_finite(&self)
        ensures
            self@.dom().finite(),
    {
        assert(self@.dom() =~= self.providers@.dom());
    }

    /// Registers `provider` for `service_info`, after the providers that are
    /// registered for it already.
    pub fn add_provider_for(&mut self, service_info: ServiceInfo, provider: Provider<V, F, C>)
        ensures
            final(self)@ == old(self)@.insert(
                service_info.key(),
                Some(
                    match old(self)@.get(service_info.key()) {
                        Some(Some(providers)) => providers.push(provider),
                        _ => seq![provider],
                    },
                ),
            ),
    {
        let id = service_info.id();
        let mut providers = match self.providers.remove(&id) {
            Some(Some(providers)) => providers,
            _ => Vec::new(),
        };
        providers.push(provider);
        self.providers.insert(id, Some(providers));
        assert(final(self)@ =~= old(self)@.insert(
            service_info.key(),
            Some(
                match old(self)@.get(service_info.key()) {
                    Some(Some(providers)) => providers.push(provider),
                    _ => seq![provider],
                },
            ),
        ));
    }

    /// Removes `service_info` from the registry, and returns the providers
    /// that were registered for it.
    pub fn remove_providers_for(&mut self, service_info: ServiceInfo) -> (removed: Option<
        Vec<Provider<V, F, C>>,
    >)
        ensures
            final(self)@ == old(self)@.remove(service_info.key()),
            match removed {
                Some(providers) => old(self)@.get(service_info.key()) == Some(Some(providers@)),
                None => !(old(self)@.get(service_info.key()) matches Some(Some(_))),
            },
    {
        let id = service_info.id();
        let removed = self.providers.remove(&id);
        assert(final(self)@ =~= old(self)@.remove(service_info.key()));
        match removed {
            Some(Some(providers)) => Some(providers),
            _ => None,
        }
    }

    /// Removes every service from the registry.
    pub fn clear(&mut self)
        ensures
            final(self)@ == Map::<u64, Option<Seq<Provider<V, F, C>>>>::empty(),
    {
        self.providers.clear();
        assert(final(self)@ =~= Map::<u64, Option<Seq<Provider<V, F, C>>>>::empty());
    }

    /// Whether `service_info` is registered, checked out or not.
    pub fn contains(&self, service_info: ServiceInfo) -> (registered: bool)
        ensures
            registered == self@.contains_key(service_info.key()),
    {
        let id = service_info.id();
        self.providers.contains_key(&id)
    }

    /// What checking out `service_info` yields: its providers, or the reason
    /// why they cannot be had.
    pub open spec fn checkout_outcome(slots: Slots<V, F, C>, service_info: ServiceInfo) -> Result<
        Seq<Provider<V, F, C>>,
        InjectErrorView,
    > {
        match slots.get(service_info.key()) {
            None => Err(InjectErrorView::MissingProvider { service_info }),
            Some(None) => Err(
                InjectErrorView::CycleDetected { service_info, cycle: seq![service_info] },
            ),
            Some(Some(providers)) => Ok(providers),
        }
    }

    /// Checks out the providers of `service_info`: takes them out of their
    /// slot, which stays empty until they are reclaimed. This fails where the
    /// service was never registered, and where its providers are checked out
    /// already: the service is then being activated, and whoever asks for it
    /// again is part of a cycle.
    pub fn checkout(&mut self, service_info: ServiceInfo) -> (providers: InjectResult<
        Vec<Provider<V, F, C>>,
    >)
        ensures
            match Self::checkout_outcome(old(self)@, service_info) {
                Ok(expected) => providers is Ok && providers->Ok_0@ == expected && final(self)@
                    == old(self)@.insert(service_info.key(), None),
                Err(expected) => providers is Err && providers->Err_0@ == expected && final(self)@
                    == old(self)@,
            },
    {
        let id = service_info.id();
        match self.providers.remove(&id) {
            None => {
                assert(final(self)@ =~= old(self)@);
                Err(InjectError::MissingProvider { service_info })
            },
            Some(None) => {
                self.providers.insert(id, None);
                assert(final(self)@ =~= old(self)@);
                let mut cycle = Vec::new();
                cycle.push(service_info);
                assert(cycle@ =~= seq![service_info]);
                Err(InjectError::CycleDetected { service_info, cycle })
            },
            Some(Some(providers)) => {
                self.providers.insert(id, None);
                assert(final(self)@ =~= old(self)@.insert(service_info.key(), None));
                Ok(providers)
            },
        }
    }

    /// Why the providers of `service_info` cannot be put back, if they
    /// cannot: their slot holds providers, or the service is no longer
    /// registered.
    pub open spec fn reclaim_failure(slots: Slots<V, F, C>, service_info: ServiceInfo) -> Option<
        InjectErrorView,
    > {
        match slots.get(service_info.key()) {
            Some(None) => None,
            Some(Some(_)) => Some(
                InjectErrorView::InternalError(
                    "another provider for "@ + service_info.label()
                        + " was added during its activation"@,
                ),
            ),
            None => Some(
                InjectErrorView::InternalError(
                    "activated provider for "@ + service_info.label()
                        + " is no longer registered"@,
                ),
            ),
        }
    }

    /// Puts the providers of `service_info` back into their slot. This fails
    /// where the slot holds providers, and where the service is no longer
    /// registered; the registry is then left as it was.
    pub fn reclaim(
        &mut self,
        service_info: ServiceInfo,
        providers: Vec<Provider<V, F, C>>,
    ) -> (done: InjectResult<()>)
        ensures
            match Self::reclaim_failure(old(self)@, service_info) {
                None => done is Ok && final(self)@ == old(self)@.insert(
                    service_info.key(),
                    Some(providers@),
                ),
                Some(error) => done is Err && done->Err_0@ == error && final(self)@ == old(self)@,
            },
    {
        let id = service_info.id();
        match self.providers.remove(&id) {
            None => {
                assert(final(self)@ =~= old(self)@);
                let mut message = String::from_str("activated provider for ");
                message.append(service_info.name());
                message.append(" is no longer registered");
                Err(InjectError::InternalError(message))
            },
            Some(Some(present)) => {
                self.providers.insert(id, Some(present));
                assert(final(self)@ =~= old(self)@);
                let mut message = String::from_str("another provider for ");
                message.append(service_info.name());
                message.append(" was added during its activation");
                Err(InjectError::InternalError(message))
            },
            Some(None) => {
                self.providers.insert(id, Some(providers));
                assert(final(self)@ =~= old(self)@.insert(service_info.key(), Some(providers@)));
                Ok(())
            },
        }
    }

    /// Gets the keys of the registered services, in no particular order.
    pub fn identities(&self) -> (keys: Vec<u64>)
        ensures
            keys@.to_set() == self@.dom(),
            keys@.no_duplicates(),
    {
        let mut keys: Vec<u64> = Vec::new();
        let ghost all = vstd::std_specs::hash::spec_keys_iter(&self.providers).remaining().unref();
        for key in iter: self.providers.keys()
            invariant
                iter.seq().unref() == all,
                keys@ == all.take(iter.index() as int),
        {
            keys.push(*key);
        }
        assert(keys@ =~= all);
        assert(self@.dom() =~= self.providers@.dom());
        keys
    }

    /// What merging `second` into `first` yields: every service of either,
    /// with the providers of `first` before those of `second`. A service
    /// whose providers are checked out of `second` adds nothing.
    pub open spec fn merged(first: Slots<V, F, C>, second: Slots<V, F, C>) -> Slots<V, F, C> {
        Map::new(
            |key: u64| first.contains_key(key) || second.get(key) matches Some(Some(_)),
            |key: u64|
                match second.get(key) {
                    Some(Some(added)) => Some(
                        match first.get(key) {
                            Some(Some(present)) => present + added,
                            _ => added,
                        },
                    ),
                    _ => first[key],
                },
        )
    }

    fn append_providers(&mut self, id: u64, added: Vec<Provider<V, F, C>>)
        ensures
            final(self)@ == old(self)@.insert(
                id,
                Some(
                    match old(self)@.get(id) {
                        Some(Some(present)) => present + added@,
                        _ => added@,
                    },
                ),
            ),
    {
        let ghost addition = added@;
        let mut added = added;
        let providers = match self.providers.remove(&id) {
            Some(Some(present)) => {
                let mut present = present;
                present.append(&mut added);
                present
            },
            _ => added,
        };
        self.providers.insert(id, Some(providers));
        assert(final(self)@ =~= old(self)@.insert(
            id,
            Some(
                match old(self)@.get(id) {
                    Some(Some(present)) => present + addition,
                    _ => addition,
                },
            ),
        ));
    }

    /// Moves the providers of `other` into this registry: for every service
    /// of `other`, its providers are appended to those that the service has
    /// here.
    pub fn merge(&mut self, other: ProviderRegistry<V, F, C>)
        ensures
            final(self)@ == Self::merged(old(self)@, other@),
    {
        let ghost second = other@;
        let mut other = other;
        let keys = other.identities();
        let mut i: usize = 0;
        while i < keys.len()
            invariant
                i <= keys.len(),
                keys@.no_duplicates(),
                keys@.to_set() == second.dom(),
                forall|j: int|
                    i <= j < keys.len() ==> other@.contains_key(#[trigger] keys[j])
                        && other@[keys[j]]
                        == second[keys[j]],
                self@ == Self::merged(
                    old(self)@,
                    second.restrict(keys@.take(i as int).to_set()),
                ),
            decreases keys.len() - i,
        {
            let key = keys[i];
            let ghost before = self@;
            let ghost done = keys@.take(i as int).to_set();
            let ghost grown = keys@.take(i + 1).to_set();
            assert(grown =~= done.insert(key)) by {
                let shorter = keys@.take(i as int);
                let longer = keys@.take(i + 1);
                assert(longer =~= shorter.push(key));
                assert forall|k: u64| grown.contains(k) implies done.insert(key).contains(k) by {
                    let j = choose|j: int| 0 <= j < longer.len() && longer[j] == k;
                    if j < i {
                        assert(shorter[j] == k);
                    }
                }
                assert forall|k: u64| done.insert(key).contains(k) implies grown.contains(k) by {
                    if k == key {
                        assert(longer[i as int] == k);
                    } else {
                        let j = choose|j: int| 0 <= j < shorter.len() && shorter[j] == k;
                        assert(longer[j] == k);
                    }
                }
            }
            assert(!done.contains(key)) by {
                if done.contains(key) {
                    let j = choose|j: int| 0 <= j < i && keys@.take(i as int)[j] == key;
                    assert(keys@[j] == keys@[i as int]);
                }
            }
            assert(other@.contains_key(keys[i as int]));
            let ghost other_before = other@;
            match other.providers.remove(&key) {
                Some(Some(added)) => {
                    assert(other@ =~= other_before.remove(key));
                    assert(second[key] == Some(added@));
                    self.append_providers(key, added);
                },
                _ => {
                    assert(other@ =~= other_before.remove(key));
                },
            }
            assert(self@ =~= Self::merged(old(self)@, second.restrict(grown)));
            assert forall|j: int| i + 1 <= j < keys.len() implies other@.contains_key(
                #[trigger] keys[j],
            ) && other@[keys[j]] == second[keys[j]] by {
                assert(keys@[j] != keys@[i as int]);
            }
            i += 1;
        }
        assert(keys@.take(keys.len() as int) =~= keys@);
        assert(second.restrict(second.dom()) =~= second);
    }
}

} // verus!
