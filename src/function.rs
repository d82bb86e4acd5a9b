//! Functions: their kinds, item names, mangled export names, and the
//! `future`/`stream` types their signatures mention.
use vstd::prelude::*;
use vstd::string::*;
use crate::abi::Mangling;
use crate::resolve::Resolve;
use crate::stability::Stability;
use crate::text::{async_marker, has_prefix};
use crate::traverse::{find_futures_and_streams, found_in_list, opt_seq, types_wf};
use crate::types::{Docs, Type, TypeId};

verus! {

/// A function of an interface or world.
#[derive(Debug, Clone)]
pub struct Function {
    pub name: String,
    pub kind: FunctionKind,
    pub params: Vec<(String, Type)>,
    pub result: Option<Type>,
    pub docs: Docs,
    pub stability: Stability,
}

/// What kind of function this is; resource functions carry their resource.
#[derive(Debug, Clone, Copy)]
pub enum FunctionKind {
    Freestanding,
    AsyncFreestanding,
    Method(TypeId),
    AsyncMethod(TypeId),
    Static(TypeId),
    AsyncStatic(TypeId),
    Constructor(TypeId),
}

impl FunctionKind {
    /// The resource of a resource function.
    pub open spec fn resource_spec(self) -> Option<TypeId> {
        match self {
            FunctionKind::Freestanding => None,
            FunctionKind::AsyncFreestanding => None,
            FunctionKind::Method(id) => Some(id),
            FunctionKind::Static(id) => Some(id),
            FunctionKind::Constructor(id) => Some(id),
            FunctionKind::AsyncMethod(id) => Some(id),
            FunctionKind::AsyncStatic(id) => Some(id),
        }
    }

    /// Returns the resource, if present, that this function kind refers to.
    pub fn resource(&self) -> (r: Option<TypeId>)
        ensures
            r == self.resource_spec(),
    {
        match self {
            FunctionKind::Freestanding | FunctionKind::AsyncFreestanding => None,
            FunctionKind::Method(id) | FunctionKind::Static(id) | FunctionKind::Constructor(id)
            | FunctionKind::AsyncMethod(id) | FunctionKind::AsyncStatic(id) => Some(*id),
        }
    }

    /// Returns a mutable reference to the resource, if present.
    pub fn resource_mut(&mut self) -> (r: Option<&mut TypeId>)
        ensures
            r is Some <==> old(self).resource_spec() is Some,
            r matches Some(id) ==> *id == old(self).resource_spec()->0,
            r matches Some(id) ==> final(self).resource_spec() == Some(*final(id)),
            r is None ==> *final(self) == *old(self),
    {
        match self {
            FunctionKind::Freestanding => None,
            FunctionKind::AsyncFreestanding => None,
            FunctionKind::Method(id) => Some(id),
            FunctionKind::Static(id) => Some(id),
            FunctionKind::Constructor(id) => Some(id),
            FunctionKind::AsyncMethod(id) => Some(id),
            FunctionKind::AsyncStatic(id) => Some(id),
        }
    }
}

/// Whether `k` is the position of the first `.` of `s`.
pub open spec fn is_first_dot(s: Seq<char>, k: int) -> bool {
    &&& 0 <= k < s.len()
    &&& s[k] == '.'
    &&& forall|j: int| 0 <= j < k ==> s[j] != '.'
}

/// Whether `s` contains a `.`.
pub open spec fn has_dot(s: Seq<char>) -> bool {
    exists|k: int| 0 <= k < s.len() && s[k] == '.'
}

/// Where the name of a function may be read: resource functions are named
/// `resource.item`, async freestanding ones `[async]item`.
pub open spec fn item_name_defined(f: Function) -> bool {
    match f.kind {
        FunctionKind::AsyncFreestanding => has_prefix(f.name@, async_marker()),
        FunctionKind::Method(_) | FunctionKind::Static(_) | FunctionKind::AsyncMethod(_)
        | FunctionKind::AsyncStatic(_) => has_dot(f.name@),
        _ => true,
    }
}

/// The item name of a function: its name without the `[async]` marker or
/// the `resource.` part, and `constructor` for constructors.
pub open spec fn item_name_spec(f: Function) -> Seq<char> {
    match f.kind {
        FunctionKind::Freestanding => f.name@,
        FunctionKind::AsyncFreestanding => f.name@.subrange(7, f.name@.len() as int),
        FunctionKind::Constructor(_) => "constructor"@,
        _ => {
            let k = choose|k: int| is_first_dot(f.name@, k);
            f.name@.subrange(k + 1, f.name@.len() as int)
        },
    }
}

/// The types of the parameters, then the result type if there is one.
pub open spec fn signature_types(f: Function) -> Seq<Type> {
    f.params@.map_values(|p: (String, Type)| p.1) + opt_seq(f.result)
}

/// The core export name of function `name`, exported from `interface` if
/// given, under `mangling`.
pub open spec fn core_export_name_spec(name: Seq<char>, interface: Option<Seq<char>>, mangling: Mangling) -> Seq<char> {
    match (interface, mangling) {
        (Some(i), Mangling::Standard32) => "cm32p2|"@ + i + "|"@ + name,
        (Some(i), Mangling::Legacy) => i + "#"@ + name,
        (None, Mangling::Standard32) => "cm32p2||"@ + name,
        (None, Mangling::Legacy) => name,
    }
}

/// The text of an optional string.
pub open spec fn opt_text(s: Option<&str>) -> Option<Seq<char>> {
    match s {
        Some(t) => Some(t@),
        None => None,
    }
}

fn find_first_dot(s: &str) -> (r: usize)
    requires
        has_dot(s@),
    ensures
        is_first_dot(s@, r as int),
{
    let n = s.unicode_len();
    let mut i: usize = 0;
    while i < n
        invariant
            n == s@.len(),
            i <= n,
            forall|j: int| 0 <= j < i ==> s@[j] != '.',
        decreases n - i,
    {
        if s.get_char(i) == '.' {
            return i;
        }
        i = i + 1;
    }
    assert(false);
    0
}

impl Function {
    /// The name of the item this function defines.
    pub fn item_name(&self) -> (r: &str)
        requires
            item_name_defined(*self),
        ensures
            r@ == item_name_spec(*self),
    {
        match &self.kind {
            FunctionKind::Freestanding => self.name.as_str(),
            FunctionKind::AsyncFreestanding => {
                let n = self.name.as_str().unicode_len();
                self.name.as_str().substring_char(7, n)
            },
            FunctionKind::Method(_) | FunctionKind::Static(_) | FunctionKind::AsyncMethod(_)
            | FunctionKind::AsyncStatic(_) => {
                let s = self.name.as_str();
                let k = find_first_dot(s);
                proof {
                    let c = choose|c: int| is_first_dot(self.name@, c);
                    assert(is_first_dot(self.name@, c));
                    if c < k {
                        assert(s@[c] != '.');
                    }
                    if c > k {
                        assert(s@[k as int] != '.');
                    }
                }
                let n = s.unicode_len();
                s.substring_char(k + 1, n)
            },
            FunctionKind::Constructor(_) => "constructor",
        }
    }

    /// The types used directly by the parameters and the result.
    pub fn parameter_and_result_types(&self) -> (r: Vec<Type>)
        ensures
            r@ == signature_types(*self),
    {
        let mut out: Vec<Type> = Vec::new();
        let mut i: usize = 0;
        while i < self.params.len()
            invariant
                i <= self.params@.len(),
                out@ == self.params@.subrange(0, i as int).map_values(|p: (String, Type)| p.1),
            decreases self.params@.len() - i,
        {
            out.push(self.params[i].1);
            assert(self.params@.subrange(0, i + 1).map_values(|p: (String, Type)| p.1)
                =~= self.params@.subrange(0, i as int).map_values(|p: (String, Type)| p.1).push(self.params@[i as int].1));
            i = i + 1;
        }
        assert(self.params@.subrange(0, i as int) =~= self.params@);
        if let Some(t) = self.result {
            out.push(t);
        }
        assert(out@ =~= signature_types(*self));
        out
    }

    /// The core export name under the standard mangling.
    pub fn standard32_core_export_name(&self, interface: Option<&str>) -> (r: String)
        ensures
            r@ == core_export_name_spec(self.name@, opt_text(interface), Mangling::Standard32),
    {
        self.core_export_name(interface, Mangling::Standard32)
    }

    /// The core export name under the legacy mangling.
    pub fn legacy_core_export_name(&self, interface: Option<&str>) -> (r: String)
        ensures
            r@ == core_export_name_spec(self.name@, opt_text(interface), Mangling::Legacy),
    {
        self.core_export_name(interface, Mangling::Legacy)
    }

    /// The core export name of this function, exported from `interface` if
    /// given.
    pub fn core_export_name(&self, interface: Option<&str>, mangling: Mangling) -> (r: String)
        ensures
            r@ == core_export_name_spec(self.name@, opt_text(interface), mangling),
    {
        let mut s = String::new();
        match interface {
            Some(i) => match mangling {
                Mangling::Standard32 => {
                    s.append("cm32p2|");
                    s.append(i);
                    s.append("|");
                    s.append(self.name.as_str());
                },
                Mangling::Legacy => {
                    s.append(i);
                    s.append("#");
                    s.append(self.name.as_str());
                },
            },
            None => match mangling {
                Mangling::Standard32 => {
                    s.append("cm32p2||");
                    s.append(self.name.as_str());
                },
                Mangling::Legacy => {
                    s.append(self.name.as_str());
                },
            },
        }
        assert(s@ =~= core_export_name_spec(self.name@, opt_text(interface), mangling));
        s
    }

    /// The `future` and `stream` types of this function's signature, found
    /// depth first, parameters before the result, inner types before the
    /// types that contain them.
    pub fn find_futures_and_streams(&self, resolve: &Resolve) -> (r: Vec<TypeId>)
        requires
            types_wf(resolve.types@),
        ensures
            r@ == found_in_list(resolve.types@, signature_types(*self), resolve.types@.len()),
    {
        let types = &resolve.types;
        let tys = self.parameter_and_result_types();
        let ghost all = signature_types(*self);
        let mut results: Vec<TypeId> = Vec::new();
        let n = types.len();
        let mut i: usize = 0;
        while i < tys.len()
            invariant
                types_wf(types@),
                types@ == resolve.types@,
                n == types@.len(),
                tys@ == all,
                i <= tys@.len(),
                results@ == found_in_list(types@, all.subrange(0, i as int), n as nat),
            decreases tys@.len() - i,
        {
            let t = tys[i];
            let ghost before = results@;
            let in_range = match t {
                crate::types::Type::Id(id) => id.index() < n,
                _ => true,
            };
            if in_range {
                find_futures_and_streams(resolve, t, &mut results);
            }
            assert(all.subrange(0, i + 1).drop_last() =~= all.subrange(0, i as int));
            assert(all.subrange(0, i + 1).last() == t);
            assert(results@ =~= found_in_list(types@, all.subrange(0, i + 1), n as nat));
            i = i + 1;
        }
        assert(all.subrange(0, i as int) =~= all);
        results
    }
}

} // verus!
