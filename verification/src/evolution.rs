//! What stays of a registry while requests are resolved.
//!
//! Resolving a request invokes factories and conditions, and may create the
//! instance that a singleton keeps. Everything else about the registry is
//! the same afterwards: the services, the providers of each service and
//! their order, and what each provider was configured with.
use vstd::prelude::*;
use crate::provider_registry::Slots;
use crate::providers::Provider;
use crate::resolution::{present, present_count};

verus! {

impl<V, F, C> Provider<V, F, C> {
    /// Whether `later` is this provider at a later time: what it was
    /// configured with is what it was, its factories and conditions may have
    /// been invoked, and a singleton may have been created in the meantime,
    /// but not created anew.
    pub open spec fn evolves_to(self, later: Self) -> bool
        decreases self,
    {
        match self {
            Provider::Transient(before) => later matches Provider::Transient(after)
                && before.result == after.result && before.dependencies@ == after.dependencies@,
            Provider::Singleton(before) => later matches Provider::Singleton(after)
                && before.result == after.result && before.dependencies@ == after.dependencies@
                && (before.cached is Some ==> after.cached == before.cached),
            Provider::Constant(before) => later matches Provider::Constant(after) && before
                == after,
            Provider::Conditional(before) => later matches Provider::Conditional(after)
                && before.inner.evolves_to(*after.inner),
            Provider::Interface(before) => later matches Provider::Interface(after)
                && before.interface.info == after.interface.info
                && before.interface.implementations@ == after.interface.implementations@
                && before.inner.evolves_to(*after.inner),
            Provider::Arg(before) => later matches Provider::Arg(after) && before.arg == after.arg
                && before.inner.evolves_to(*after.inner),
        }
    }

    /// Every provider is itself at a later time.
    pub proof fn lemma_evolves_to_itself(self)
        ensures
            self.evolves_to(self),
        decreases self,
    {
        match self {
            Provider::Conditional(provider) => provider.inner.lemma_evolves_to_itself(),
            Provider::Interface(provider) => provider.inner.lemma_evolves_to_itself(),
            Provider::Arg(provider) => provider.inner.lemma_evolves_to_itself(),
            _ => {},
        }
    }

    /// What a provider becomes later on, it has become by then.
    pub proof fn lemma_evolves_on(self, later: Self, latest: Self)
        requires
            self.evolves_to(later),
            later.evolves_to(latest),
        ensures
            self.evolves_to(latest),
        decreases self,
    {
        match (self, later, latest) {
            (
                Provider::Conditional(first),
                Provider::Conditional(second),
                Provider::Conditional(third),
            ) => first.inner.lemma_evolves_on(*second.inner, *third.inner),
            (
                Provider::Interface(first),
                Provider::Interface(second),
                Provider::Interface(third),
            ) => first.inner.lemma_evolves_on(*second.inner, *third.inner),
            (Provider::Arg(first), Provider::Arg(second), Provider::Arg(third)) => {
                first.inner.lemma_evolves_on(*second.inner, *third.inner)
            },
            _ => {},
        }
    }
}

/// Whether the providers of `after` are what those of `before` have become,
/// each in its place.
pub open spec fn each_evolved<V, F, C>(
    before: Seq<Provider<V, F, C>>,
    after: Seq<Provider<V, F, C>>,
) -> bool {
    &&& before.len() == after.len()
    &&& forall|i: int| 0 <= i < before.len() ==> (#[trigger] before[i]).evolves_to(after[i])
}

/// Providers are what they are.
pub proof fn lemma_each_evolved_itself<V, F, C>(providers: Seq<Provider<V, F, C>>)
    ensures
        each_evolved(providers, providers),
{
    assert forall|i: int| 0 <= i < providers.len() implies (#[trigger] providers[i]).evolves_to(
        providers[i],
    ) by {
        providers[i].lemma_evolves_to_itself();
    }
}

/// What providers become later on, they have become by then.
pub proof fn lemma_each_evolved_on<V, F, C>(
    before: Seq<Provider<V, F, C>>,
    between: Seq<Provider<V, F, C>>,
    after: Seq<Provider<V, F, C>>,
)
    requires
        each_evolved(before, between),
        each_evolved(between, after),
    ensures
        each_evolved(before, after),
{
    assert forall|i: int| 0 <= i < before.len() implies (#[trigger] before[i]).evolves_to(
        after[i],
    ) by {
        assert(before[i].evolves_to(between[i]));
        assert(between[i].evolves_to(after[i]));
        before[i].lemma_evolves_on(between[i], after[i]);
    }
}

/// Where one provider among several has evolved, they all have.
pub proof fn lemma_each_evolved_at<V, F, C>(
    before: Seq<Provider<V, F, C>>,
    after: Seq<Provider<V, F, C>>,
    position: int,
)
    requires
        0 <= position < before.len(),
        before.len() == after.len(),
        before[position].evolves_to(after[position]),
        forall|i: int| 0 <= i < before.len() && i != position ==> before[i] == after[i],
    ensures
        each_evolved(before, after),
{
    assert forall|i: int| 0 <= i < before.len() implies (#[trigger] before[i]).evolves_to(
        after[i],
    ) by {
        if i != position {
            before[i].lemma_evolves_to_itself();
        }
    }
}

/// Whether `after` is `before` at a later time: the same services, each
/// with its providers checked out or in place as before, and each provider
/// what the provider in its place has become.
pub open spec fn evolved<V, F, C>(before: Slots<V, F, C>, after: Slots<V, F, C>) -> bool {
    &&& before.dom() == after.dom()
    &&& forall|key: u64| #[trigger]
        before.contains_key(key) ==> match before[key] {
            None => after[key] is None,
            Some(providers) => after[key] matches Some(later) && each_evolved(providers, later),
        }
}

/// Slots are what they are.
pub proof fn lemma_evolved_itself<V, F, C>(slots: Slots<V, F, C>)
    ensures
        evolved(slots, slots),
{
    assert forall|key: u64| #[trigger] slots.contains_key(key) implies match slots[key] {
        None => slots[key] is None,
        Some(providers) => slots[key] matches Some(later) && each_evolved(providers, later),
    } by {
        if let Some(providers) = slots[key] {
            lemma_each_evolved_itself(providers);
        }
    }
}

/// What slots become later on, they have become by then.
pub proof fn lemma_evolved_on<V, F, C>(
    before: Slots<V, F, C>,
    between: Slots<V, F, C>,
    after: Slots<V, F, C>,
)
    requires
        evolved(before, between),
        evolved(between, after),
    ensures
        evolved(before, after),
{
    assert forall|key: u64| #[trigger] before.contains_key(key) implies match before[key] {
        None => after[key] is None,
        Some(providers) => after[key] matches Some(later) && each_evolved(providers, later),
    } by {
        assert(between.contains_key(key));
        if let Some(providers) = before[key] {
            lemma_each_evolved_on(providers, between[key]->Some_0, after[key]->Some_0);
        }
    }
}

/// Slots that have evolved can be checked out as often as before.
pub proof fn lemma_evolved_count<V, F, C>(before: Slots<V, F, C>, after: Slots<V, F, C>)
    requires
        evolved(before, after),
    ensures
        present_count(before) == present_count(after),
{
    assert forall|key: u64| before.dom().contains(key) implies (before[key] is Some
        <==> after[key] is Some) by {
        assert(before.contains_key(key));
    }
    assert(present(before) =~= present(after));
}

/// A slot that is empty stays empty as the slots evolve.
pub proof fn lemma_evolved_empty_slot<V, F, C>(
    before: Slots<V, F, C>,
    after: Slots<V, F, C>,
    key: u64,
)
    requires
        evolved(before, after),
        before.get(key) == Some(None::<Seq<Provider<V, F, C>>>),
    ensures
        after.get(key) == Some(None::<Seq<Provider<V, F, C>>>),
{
    assert(before.contains_key(key));
}

/// Putting back what the checked out providers have become, after the rest
/// has evolved, is an evolution of the whole.
pub proof fn lemma_evolved_reclaim<V, F, C>(
    before: Slots<V, F, C>,
    current: Slots<V, F, C>,
    key: u64,
    providers: Seq<Provider<V, F, C>>,
)
    requires
        evolved(before.insert(key, None), current),
        before.get(key) matches Some(Some(checked_out)) && each_evolved(checked_out, providers),
    ensures
        evolved(before, current.insert(key, Some(providers))),
{
    let inner = before.insert(key, None);
    let after = current.insert(key, Some(providers));
    assert(before.dom() =~= after.dom()) by {
        assert(inner.dom() == current.dom());
        assert(inner.dom() =~= before.dom());
    }
    assert forall|other: u64| #[trigger] before.contains_key(other) implies match before[other] {
        None => after[other] is None,
        Some(providers) => after[other] matches Some(later) && each_evolved(providers, later),
    } by {
        if other != key {
            assert(inner.contains_key(other));
            assert(inner[other] == before[other]);
            assert(after[other] == current[other]);
        }
    }
}

} // verus!
