//! A resolved graph of packages, worlds, interfaces and types.
use vstd::prelude::*;
use crate::arena::{Arena, Id};
use crate::types::{Docs, InterfaceId, TypeDef, WorldId};
use crate::error::Span;
use crate::traverse::types_wf;
use crate::version::{PackageName, PackageNotFoundError, compat_track};
use crate::stability::{Stability, feature_names};
use crate::world::{Interface, World, WorldItem, WorldItems, WorldKey, key_eq, keys_unique};

verus! {

pub type PackageId = Id<Package>;

/// A package: its name and the interfaces and worlds it defines.
#[derive(Debug, Clone)]
pub struct Package {
    pub name: PackageName,
    pub docs: Docs,
    pub interfaces: Vec<(String, InterfaceId)>,
    pub worlds: Vec<(String, WorldId)>,
}

/// A graph of packages, worlds, interfaces and types, each kept in an
/// append-only arena, together with the feature configuration that gates
/// unstable items.
#[derive(Debug, Clone)]
pub struct Resolve {
    pub worlds: Arena<World>,
    pub interfaces: Arena<Interface>,
    pub types: Arena<TypeDef>,
    pub packages: Arena<Package>,
    pub features: Vec<String>,
    pub all_features: bool,
}

impl Default for Resolve {
    fn default() -> (r: Resolve)
        ensures
            r.worlds@.len() == 0,
            r.interfaces@.len() == 0,
            r.types@.len() == 0,
            r.packages@.len() == 0,
            r.features@.len() == 0,
            !r.all_features,
    {
        Resolve {
            worlds: Arena::new(),
            interfaces: Arena::new(),
            types: Arena::new(),
            packages: Arena::new(),
            features: Vec::new(),
            all_features: false,
        }
    }
}

/// A foreign item named by an unresolved package.
#[derive(Debug, Copy, Clone)]
pub enum AstItem {
    Interface(InterfaceId),
    World(WorldId),
}

/// A package whose foreign dependencies are not resolved yet: its own
/// items, and for each foreign package the names it needs from it.
#[derive(Debug, Clone)]
pub struct UnresolvedPackage {
    pub name: PackageName,
    pub worlds: Arena<World>,
    pub interfaces: Arena<Interface>,
    pub types: Arena<TypeDef>,
    pub foreign_deps: Vec<(PackageName, Vec<(String, AstItem)>)>,
    pub docs: Docs,
}

/// Whether the package named `have` satisfies a request for `req`: same
/// namespace and name, and, when the request carries a version, a version
/// on the same compatibility track. A request without a version accepts any
/// version.
pub open spec fn name_matches(req: PackageName, have: PackageName) -> bool {
    &&& req.namespace@ == have.namespace@
    &&& req.name@ == have.name@
    &&& match req.version {
        None => true,
        Some(v) => match have.version {
            Some(w) => compat_track(v) == compat_track(w),
            None => false,
        },
    }
}

/// `id` is the first package, in arena order, that satisfies `req`.
pub open spec fn first_match(packages: Seq<Package>, req: PackageName, id: PackageId) -> bool {
    &&& id.spec_index() < packages.len()
    &&& name_matches(req, packages[id.spec_index() as int].name)
    &&& forall|j: int| 0 <= j < id.spec_index() ==> !name_matches(req, #[trigger] packages[j].name)
}

/// Some package satisfies `req`.
pub open spec fn has_match(packages: Seq<Package>, req: PackageName) -> bool {
    exists|j: int| 0 <= j < packages.len() && name_matches(req, #[trigger] packages[j].name)
}

/// The names of a list of packages.
pub open spec fn package_names(packages: Seq<Package>) -> Seq<PackageName> {
    packages.map_values(|p: Package| p.name)
}

fn name_matches_exec(req: &PackageName, have: &PackageName) -> (r: bool)
    ensures
        r == name_matches(*req, *have),
{
    if !(req.namespace == have.namespace && req.name == have.name) {
        return false;
    }
    match (&req.version, &have.version) {
        (None, _) => true,
        (Some(_), None) => false,
        (Some(v), Some(w)) => {
            let a = PackageName::version_compat_track(v);
            let b = PackageName::version_compat_track(w);
            a.major == b.major && a.minor == b.minor && a.patch == b.patch && a.pre == b.pre
        },
    }
}

/// Every interface key of `items` refers to a position below `n`.
pub open spec fn interface_keys_below(items: Seq<(WorldKey, WorldItem)>, n: nat) -> bool {
    forall|i: int| 0 <= i < items.len() ==> (#[trigger] items[i].0 matches WorldKey::Interface(id) ==> id.spec_index() < n)
}

/// A resolved world: no colliding keys among its imports or among its
/// exports, interface keys inside the interface arena, includes expanded.
pub open spec fn world_wf(w: World, n_interfaces: nat) -> bool {
    &&& keys_unique(w.imports@)
    &&& keys_unique(w.exports@)
    &&& interface_keys_below(w.imports@, n_interfaces)
    &&& interface_keys_below(w.exports@, n_interfaces)
    &&& w.includes@.len() == 0
    &&& w.include_names@.len() == 0
}

fn keys_unique_exec(items: &WorldItems) -> (r: bool)
    ensures
        r == keys_unique(items@),
{
    let n = items.len();
    let mut j: usize = 0;
    while j < n
        invariant
            n == items@.len(),
            j <= n,
            forall|a: int, b: int| 0 <= a < b < j ==> !key_eq(#[trigger] items@[a].0, #[trigger] items@[b].0),
        decreases n - j,
    {
        let mut i: usize = 0;
        while i < j
            invariant
                n == items@.len(),
                i <= j < n,
                forall|a: int| 0 <= a < i ==> !key_eq(#[trigger] items@[a].0, items@[j as int].0),
            decreases j - i,
        {
            if items[i].0.same_key(&items[j].0) {
                return false;
            }
            i = i + 1;
        }
        j = j + 1;
    }
    true
}

fn interface_keys_below_exec(items: &WorldItems, n: usize) -> (r: bool)
    ensures
        r == interface_keys_below(items@, n as nat),
{
    let mut i: usize = 0;
    while i < items.len()
        invariant
            i <= items@.len(),
            forall|k: int| 0 <= k < i ==> (#[trigger] items@[k].0 matches WorldKey::Interface(id) ==> id.spec_index() < n),
        decreases items@.len() - i,
    {
        if let WorldKey::Interface(id) = &items[i].0 {
            if id.index() >= n {
                return false;
            }
        }
        i = i + 1;
    }
    true
}

impl Resolve {
    /// Whether an item of the given stability is visible under this graph's
    /// feature configuration.
    pub fn include_stability(&self, stability: &Stability) -> (r: bool)
        ensures
            r == stability.visible(feature_names(self.features@), self.all_features),
    {
        stability.is_visible(&self.features, self.all_features)
    }

    /// The package that each foreign dependency of `pkg` resolves to, in
    /// order (see [`Resolve::find_package`]); the error of the first
    /// dependency that no known package satisfies.
    pub fn find_foreign_packages(&self, pkg: &UnresolvedPackage, span: Span) -> (r: Result<Vec<PackageId>, PackageNotFoundError>)
        ensures
            r matches Ok(ids) ==> {
                &&& ids@.len() == pkg.foreign_deps@.len()
                &&& forall|i: int| 0 <= i < ids@.len() ==> first_match(self.packages@, pkg.foreign_deps@[i].0, #[trigger] ids@[i])
            },
            r is Ok <==> forall|i: int| 0 <= i < pkg.foreign_deps@.len() ==> has_match(self.packages@, #[trigger] pkg.foreign_deps@[i].0),
            r matches Err(e) ==> exists|i: int| {
                &&& 0 <= i < pkg.foreign_deps@.len()
                &&& !has_match(self.packages@, #[trigger] pkg.foreign_deps@[i].0)
                &&& forall|j: int| 0 <= j < i ==> has_match(self.packages@, #[trigger] pkg.foreign_deps@[j].0)
                &&& e.requested == pkg.foreign_deps@[i].0
                &&& e.known@ == package_names(self.packages@)
            },
    {
        let mut ids: Vec<PackageId> = Vec::new();
        let mut i: usize = 0;
        while i < pkg.foreign_deps.len()
            invariant
                i <= pkg.foreign_deps@.len(),
                ids@.len() == i,
                forall|j: int| 0 <= j < i ==> first_match(self.packages@, pkg.foreign_deps@[j].0, #[trigger] ids@[j]),
                forall|j: int| 0 <= j < i ==> has_match(self.packages@, #[trigger] pkg.foreign_deps@[j].0),
            decreases pkg.foreign_deps@.len() - i,
        {
            match self.find_package(&pkg.foreign_deps[i].0, span) {
                Ok(id) => {
                    ids.push(id);
                },
                Err(e) => {
                    assert(!has_match(self.packages@, pkg.foreign_deps@[i as int].0));
                    return Err(e);
                },
            }
            i = i + 1;
        }
        Ok(ids)
    }

    /// Whether `world` is a resolved world of this graph.
    pub fn world_valid(&self, world: &World) -> (r: bool)
        ensures
            r == world_wf(*world, self.interfaces@.len()),
    {
        let n = self.interfaces.len();
        keys_unique_exec(&world.imports) && keys_unique_exec(&world.exports)
            && interface_keys_below_exec(&world.imports, n) && interface_keys_below_exec(&world.exports, n)
            && world.includes.len() == 0 && world.include_names.len() == 0
    }

    /// The validation gate for a whole graph: the type arena is in
    /// topological order with no placeholder left, and every world is
    /// resolved (see [`world_wf`]).
    pub fn is_valid(&self) -> (r: bool)
        ensures
            r == (types_wf(self.types@) && forall|i: int| 0 <= i < self.worlds@.len() ==> world_wf(
                #[trigger] self.worlds@[i],
                self.interfaces@.len(),
            )),
    {
        if !self.types_valid() {
            return false;
        }
        let n = self.worlds.len();
        let mut i: usize = 0;
        while i < n
            invariant
                n == self.worlds@.len(),
                i <= n,
                forall|k: int| 0 <= k < i ==> world_wf(#[trigger] self.worlds@[k], self.interfaces@.len()),
            decreases n - i,
        {
            let w = self.worlds.get(Id::from_index(i)).unwrap();
            if !self.world_valid(w) {
                return false;
            }
            i = i + 1;
        }
        true
    }

    /// Whether every type definition refers only to earlier ones and no
    /// unresolved placeholder is left; the traversals of this graph rely on
    /// it.
    pub fn types_valid(&self) -> (r: bool)
        ensures
            r == types_wf(self.types@),
    {
        crate::traverse::types_valid(&self.types)
    }

    /// The first package, in arena order, that satisfies a request for
    /// `requested`; when none does, an error listing every known package.
    pub fn find_package(&self, requested: &PackageName, span: Span) -> (r: Result<PackageId, PackageNotFoundError>)
        ensures
            r matches Ok(id) ==> first_match(self.packages@, *requested, id),
            r is Err <==> forall|j: int| 0 <= j < self.packages@.len() ==> !name_matches(*requested, #[trigger] self.packages@[j].name),
            r matches Err(e) ==> {
                &&& e.requested == *requested
                &&& e.known@ == package_names(self.packages@)
                &&& e.span == span
                &&& e.highlighted is None
            },
    {
        let n = self.packages.len();
        let mut known: Vec<PackageName> = Vec::new();
        let mut i: usize = 0;
        while i < n
            invariant
                n == self.packages@.len(),
                i <= n,
                known@ == package_names(self.packages@.subrange(0, i as int)),
                forall|j: int| 0 <= j < i ==> !name_matches(*requested, #[trigger] self.packages@[j].name),
            decreases n - i,
        {
            let id: PackageId = Id::from_index(i);
            let package = self.packages.get(id).unwrap();
            if name_matches_exec(requested, &package.name) {
                return Ok(id);
            }
            known.push(package.name.duplicate());
            assert(package_names(self.packages@.subrange(0, i + 1)) =~= package_names(self.packages@.subrange(0, i as int)).push(package.name));
            i = i + 1;
        }
        assert(self.packages@.subrange(0, n as int) =~= self.packages@);
        Err(PackageNotFoundError::new(span, requested.duplicate(), known))
    }
}

} // verus!
