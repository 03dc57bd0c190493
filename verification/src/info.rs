//! What a request knows while it is being resolved.
use vstd::prelude::*;
use crate::parameter::{Parameters, RequestParameter};
use crate::service::ServiceInfo;

verus! {

/// The mathematical value of a [`RequestInfo`].
pub struct RequestInfoView<V> {
    /// The services being activated, outermost first.
    pub path: Seq<ServiceInfo>,
    /// The parameters of the request, by name.
    pub parameters: Map<Seq<char>, RequestParameter<V>>,
}

impl<V> RequestInfoView<V> {
    /// The value of a request that has just begun.
    pub open spec fn empty() -> Self {
        RequestInfoView { path: Seq::empty(), parameters: Map::empty() }
    }

    /// This request, one service deeper.
    pub open spec fn with_request(self, service: ServiceInfo) -> Self {
        RequestInfoView { path: self.path.push(service), parameters: self.parameters }
    }

    /// This request with `value` named `key`.
    pub open spec fn with_parameter(self, key: Seq<char>, value: RequestParameter<V>) -> Self {
        RequestInfoView { path: self.path, parameters: self.parameters.insert(key, value) }
    }
}

/// Information about an active request: the services being activated on its
/// behalf, and the parameters it carries for them.
pub struct RequestInfo<V> {
    service_path: Vec<ServiceInfo>,
    parameters: Parameters<V>,
}

impl<V> View for RequestInfo<V> {
    type V = RequestInfoView<V>;

    closed spec fn view(&self) -> RequestInfoView<V> {
        RequestInfoView { path: self.service_path@, parameters: self.parameters@ }
    }
}

impl<V> RequestInfo<V> {
    /// Creates the information of a request that has just begun.
    pub fn new() -> (info: Self)
        ensures
            info@ == RequestInfoView::<V>::empty(),
    {
        RequestInfo { service_path: Vec::new(), parameters: Parameters::new() }
    }

    /// Creates a copy of this information that shares its parameter values.
    pub fn duplicate(&self) -> (copy: Self)
        ensures
            copy@ == self@,
    {
        let mut service_path: Vec<ServiceInfo> = Vec::new();
        let mut i: usize = 0;
        while i < self.service_path.len()
            invariant
                i <= self.service_path.len(),
                service_path@ == self.service_path@.subrange(0, i as int),
            decreases self.service_path.len() - i,
        {
            service_path.push(self.service_path[i]);
            assert(service_path@ =~= self.service_path@.subrange(0, i + 1));
            i += 1;
        }
        assert(service_path@ =~= self.service_path@);
        RequestInfo { service_path, parameters: self.parameters.duplicate() }
    }

    /// Creates the information of the child request for `service`: the same
    /// parameters, and `service` appended to the end of the path.
    pub fn with_request(&self, service: ServiceInfo) -> (child: Self)
        ensures
            child@ == self@.with_request(service),
    {
        let mut child = self.duplicate();
        child.service_path.push(service);
        child
    }

    /// Gets the path of this request: the services being activated,
    /// outermost first.
    pub fn service_path(&self) -> (path: &[ServiceInfo])
        ensures
            path@ == self@.path,
    {
        self.service_path.as_slice()
    }

    /// Sets a parameter of the request, and returns the value that the
    /// parameter had.
    pub fn insert_parameter(&mut self, key: &str, value: RequestParameter<V>) -> (previous: Option<
        RequestParameter<V>,
    >)
        ensures
            final(self)@ == old(self)@.with_parameter(key@, value),
            previous == if old(self)@.parameters.contains_key(key@) {
                Some(old(self)@.parameters[key@])
            } else {
                None
            },
    {
        self.parameters.insert(key, value)
    }

    /// Removes a parameter of the request, and returns the value that it had.
    pub fn remove_parameter(&mut self, key: &str) -> (removed: Option<RequestParameter<V>>)
        ensures
            final(self)@.path == old(self)@.path,
            final(self)@.parameters == old(self)@.parameters.remove(key@),
            removed == if old(self)@.parameters.contains_key(key@) {
                Some(old(self)@.parameters[key@])
            } else {
                None
            },
    {
        self.parameters.remove(key)
    }

    /// Gets the value of a parameter, if it has been set.
    pub fn get_parameter(&self, key: &str) -> (parameter: Option<&RequestParameter<V>>)
        ensures
            parameter == if self@.parameters.contains_key(key@) {
                Some(&self@.parameters[key@])
            } else {
                None
            },
    {
        self.parameters.get(key)
    }

    /// Moves the parameters of `parameters` into this request. Where both
    /// have a name, the value that is moved in wins.
    pub fn merge_parameters(&mut self, parameters: Parameters<V>)
        ensures
            final(self)@.path == old(self)@.path,
            final(self)@.parameters == old(self)@.parameters.union_prefer_right(parameters@),
    {
        self.parameters.merge(parameters)
    }
}

impl<V> Default for RequestInfo<V> {
    fn default() -> (info: Self)
        ensures
            info@ == RequestInfoView::<V>::empty(),
    {
        RequestInfo::new()
    }
}

} // verus!
