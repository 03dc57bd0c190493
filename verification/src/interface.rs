//! Interfaces: services that stand for one of several implementations.
use vstd::prelude::*;
use crate::service::{DynSvc, InjectError, InjectErrorView, InjectResult, OwnedDynSvc, ServiceInfo};

verus! {

/// An interface: a service identity together with the closed list of the
/// services that may be handed out in its name.
pub struct Interface {
    pub info: ServiceInfo,
    pub implementations: Vec<ServiceInfo>,
}

impl Interface {
    /// Declares the interface `info` with its implementations.
    pub fn new(info: ServiceInfo, implementations: Vec<ServiceInfo>) -> (interface: Interface)
        ensures
            interface.info == info,
            interface.implementations == implementations,
    {
        Interface { info, implementations }
    }

    /// Whether `service` is declared as an implementation of this interface.
    pub open spec fn accepts(&self, service: ServiceInfo) -> bool {
        exists|i: int|
            0 <= i < self.implementations.len() && (#[trigger] self.implementations[i]).key()
                == service.key()
    }

    /// Checks whether `service` is declared as an implementation of this
    /// interface.
    pub fn is_interface_for(&self, service: ServiceInfo) -> (declared: bool)
        ensures
            declared == self.accepts(service),
    {
        let mut i: usize = 0;
        while i < self.implementations.len()
            invariant
                i <= self.implementations.len(),
                forall|j: int| 0 <= j < i ==>
                    (#[trigger] self.implementations[j]).key() != service.key(),
            decreases self.implementations.len() - i,
        {
            if self.implementations[i].id() == service.id() {
                return true;
            }
            i += 1;
        }
        false
    }

    /// Another declaration of the same interface.
    pub fn duplicate(&self) -> (copy: Interface)
        ensures
            copy.info == self.info,
            copy.implementations@ == self.implementations@,
    {
        let mut implementations: Vec<ServiceInfo> = Vec::new();
        let mut i: usize = 0;
        while i < self.implementations.len()
            invariant
                i <= self.implementations.len(),
                implementations@ == self.implementations@.subrange(0, i as int),
            decreases self.implementations.len() - i,
        {
            implementations.push(self.implementations[i]);
            assert(implementations@ =~= self.implementations@.subrange(0, i + 1));
            i += 1;
        }
        assert(implementations@ =~= self.implementations@);
        Interface { info: self.info, implementations }
    }

    /// What handing out `provided` in the name of this interface yields: the
    /// same service as an instance of the interface where its own service is
    /// a declared implementation, and no provider for the interface
    /// otherwise.
    pub open spec fn cast<V>(&self, provided: DynSvc<V>) -> Result<DynSvc<V>, InjectErrorView> {
        if self.accepts(provided.info) {
            Ok(DynSvc { info: self.info, service: provided.service })
        } else {
            Err(InjectErrorView::MissingProvider { service_info: self.info })
        }
    }

    /// Hands out `provided` in the name of this interface.
    pub fn from_svc<V>(&self, provided: DynSvc<V>) -> (cast: InjectResult<DynSvc<V>>)
        ensures
            match self.cast(provided) {
                Ok(expected) => cast == Ok::<DynSvc<V>, InjectError>(expected),
                Err(expected) => cast is Err && cast->Err_0@ == expected,
            },
    {
        if self.is_interface_for(provided.info) {
            Ok(DynSvc { info: self.info, service: provided.service })
        } else {
            Err(InjectError::MissingProvider { service_info: self.info })
        }
    }

    /// What handing out the owned `provided` in the name of this interface
    /// yields.
    pub open spec fn cast_owned<V>(&self, provided: OwnedDynSvc<V>) -> Result<
        OwnedDynSvc<V>,
        InjectErrorView,
    > {
        if self.accepts(provided.info) {
            Ok(OwnedDynSvc { info: self.info, service: provided.service })
        } else {
            Err(InjectErrorView::MissingProvider { service_info: self.info })
        }
    }

    /// Hands out the owned `provided` in the name of this interface.
    pub fn from_owned_svc<V>(&self, provided: OwnedDynSvc<V>) -> (cast: InjectResult<
        OwnedDynSvc<V>,
    >)
        ensures
            match self.cast_owned(provided) {
                Ok(expected) => cast == Ok::<OwnedDynSvc<V>, InjectError>(expected),
                Err(expected) => cast is Err && cast->Err_0@ == expected,
            },
    {
        if self.is_interface_for(provided.info) {
            Ok(OwnedDynSvc { info: self.info, service: provided.service })
        } else {
            Err(InjectError::MissingProvider { service_info: self.info })
        }
    }
}

} // verus!
