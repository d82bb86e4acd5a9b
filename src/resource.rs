//! Builders for resource declarations: a resource and its constructor,
//! methods and static functions.
use vstd::prelude::*;
use crate::types::{Docs, Type};

verus! {

/// The parameters of a function: names and types, in order.
pub type Params = Vec<(String, Type)>;

/// A resource declaration: the functions defined on it.
#[derive(Debug, Clone)]
pub struct Resource {
    pub(crate) funcs: Vec<ResourceFunc>,
}

/// A function of a resource.
#[derive(Debug, Clone)]
pub struct ResourceFunc {
    pub(crate) kind: ResourceFuncKind,
    pub(crate) params: Params,
    pub(crate) docs: Option<Docs>,
}

/// What kind of resource function this is: a method or static function
/// with its name, whether it is async, and its result; or the constructor.
#[derive(Debug, Clone)]
pub enum ResourceFuncKind {
    Method(String, bool, Option<Type>),
    Static(String, bool, Option<Type>),
    Constructor,
}

impl Resource {
    pub closed spec fn spec_funcs(&self) -> Seq<ResourceFunc> {
        self.funcs@
    }

    /// A resource with no functions.
    pub fn empty() -> (r: Self)
        ensures
            r.spec_funcs().len() == 0,
    {
        Resource { funcs: Vec::new() }
    }

    /// Adds a function.
    pub fn func(&mut self, func: ResourceFunc)
        ensures
            final(self).spec_funcs() == old(self).spec_funcs().push(func),
    {
        self.funcs.push(func);
    }

    pub fn funcs(&self) -> (r: &[ResourceFunc])
        ensures
            r@ == self.spec_funcs(),
    {
        self.funcs.as_slice()
    }

    pub fn funcs_mut(&mut self) -> (r: &mut Vec<ResourceFunc>)
        ensures
            r@ == old(self).spec_funcs(),
            final(self).spec_funcs() == final(r)@,
    {
        &mut self.funcs
    }
}

impl ResourceFunc {
    pub closed spec fn spec_kind(&self) -> ResourceFuncKind {
        self.kind
    }

    pub closed spec fn spec_params(&self) -> Seq<(String, Type)> {
        self.params@
    }

    pub closed spec fn spec_docs(&self) -> Option<Docs> {
        self.docs
    }

    /// The result of a method or static function; `None` for the
    /// constructor.
    pub closed spec fn spec_result(&self) -> Option<Option<Type>> {
        match self.kind {
            ResourceFuncKind::Method(_, _, r) => Some(r),
            ResourceFuncKind::Static(_, _, r) => Some(r),
            ResourceFuncKind::Constructor => None,
        }
    }

    /// A method named `name` with no parameters and no result.
    pub fn method(name: String, async_: bool) -> (r: Self)
        ensures
            r.spec_kind() == ResourceFuncKind::Method(name, async_, None),
            r.spec_params().len() == 0,
            r.spec_docs() is None,
    {
        ResourceFunc { kind: ResourceFuncKind::Method(name, async_, None), params: Vec::new(), docs: None }
    }

    /// A static function named `name` with no parameters and no result.
    pub fn static_(name: String, async_: bool) -> (r: Self)
        ensures
            r.spec_kind() == ResourceFuncKind::Static(name, async_, None),
            r.spec_params().len() == 0,
            r.spec_docs() is None,
    {
        ResourceFunc { kind: ResourceFuncKind::Static(name, async_, None), params: Vec::new(), docs: None }
    }

    /// A constructor with no parameters.
    pub fn constructor() -> (r: Self)
        ensures
            r.spec_kind() == ResourceFuncKind::Constructor,
            r.spec_params().len() == 0,
            r.spec_docs() is None,
    {
        ResourceFunc { kind: ResourceFuncKind::Constructor, params: Vec::new(), docs: None }
    }

    /// Renames a method or static function; constructors have no name.
    pub fn set_name(&mut self, name: String)
        requires
            !(old(self).spec_kind() is Constructor),
        ensures
            final(self).spec_kind() == match old(self).spec_kind() {
                ResourceFuncKind::Method(_, a, r) => ResourceFuncKind::Method(name, a, r),
                ResourceFuncKind::Static(_, a, r) => ResourceFuncKind::Static(name, a, r),
                ResourceFuncKind::Constructor => ResourceFuncKind::Constructor,
            },
            final(self).spec_params() == old(self).spec_params(),
            final(self).spec_docs() == old(self).spec_docs(),
    {
        match &mut self.kind {
            ResourceFuncKind::Method(n, ..) => {
                *n = name;
            },
            ResourceFuncKind::Static(n, ..) => {
                *n = name;
            },
            ResourceFuncKind::Constructor => {},
        }
    }

    pub fn kind(&self) -> (r: &ResourceFuncKind)
        ensures
            *r == self.spec_kind(),
    {
        &self.kind
    }

    pub fn set_params(&mut self, params: Params)
        ensures
            final(self).spec_params() == params@,
            final(self).spec_kind() == old(self).spec_kind(),
            final(self).spec_docs() == old(self).spec_docs(),
    {
        self.params = params;
    }

    pub fn params(&self) -> (r: &Params)
        ensures
            r@ == self.spec_params(),
    {
        &self.params
    }

    pub fn params_mut(&mut self) -> (r: &mut Params)
        ensures
            r@ == old(self).spec_params(),
            final(self).spec_params() == final(r)@,
            final(self).spec_kind() == old(self).spec_kind(),
            final(self).spec_docs() == old(self).spec_docs(),
    {
        &mut self.params
    }

    /// Sets the result of a method or static function; constructors have
    /// none.
    pub fn set_result(&mut self, result: Option<Type>)
        requires
            !(old(self).spec_kind() is Constructor),
        ensures
            final(self).spec_result() == Some(result),
            final(self).spec_params() == old(self).spec_params(),
            final(self).spec_docs() == old(self).spec_docs(),
    {
        match &mut self.kind {
            ResourceFuncKind::Method(.., r) => {
                *r = result;
            },
            ResourceFuncKind::Static(.., r) => {
                *r = result;
            },
            ResourceFuncKind::Constructor => {},
        }
    }

    pub fn result(&self) -> (r: Option<&Option<Type>>)
        ensures
            match self.spec_result() {
                Some(x) => r matches Some(y) && *y == x,
                None => r is None,
            },
    {
        match &self.kind {
            ResourceFuncKind::Method(.., result) => Some(result),
            ResourceFuncKind::Static(.., result) => Some(result),
            ResourceFuncKind::Constructor => None,
        }
    }

    pub fn result_mut(&mut self) -> (r: Option<&mut Option<Type>>)
        ensures
            r is Some <==> old(self).spec_result() is Some,
            r matches Some(x) ==> *x == old(self).spec_result()->0 && final(self).spec_result() == Some(*final(x)),
            r is None ==> final(self).spec_kind() == old(self).spec_kind(),
            final(self).spec_params() == old(self).spec_params(),
            final(self).spec_docs() == old(self).spec_docs(),
    {
        match &mut self.kind {
            ResourceFuncKind::Method(.., result) => Some(result),
            ResourceFuncKind::Static(.., result) => Some(result),
            ResourceFuncKind::Constructor => None,
        }
    }

    pub fn set_docs(&mut self, docs: Option<Docs>)
        ensures
            final(self).spec_docs() == docs,
            final(self).spec_kind() == old(self).spec_kind(),
            final(self).spec_params() == old(self).spec_params(),
    {
        self.docs = docs;
    }

    pub fn docs(&self) -> (r: &Option<Docs>)
        ensures
            *r == self.spec_docs(),
    {
        &self.docs
    }
}

} // verus!
