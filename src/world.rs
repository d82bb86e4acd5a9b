//! Worlds and interfaces: the keyed import and export lists of a world and
//! the rule that a name and its `[async]` form collide.
use vstd::prelude::*;
use vstd::string::*;
use crate::error::Error;
use crate::function::{Function, FunctionKind};
use crate::stability::Stability;
use crate::text::{push_decimal, same_modulo_async, strip_async, decimal};
use crate::types::{Docs, InterfaceId, TypeId, WorldId};
use crate::resolve::{PackageId, Resolve};

verus! {

/// The key of an import or export of a world: a kebab name or an interface.
#[derive(Debug, Clone)]
pub enum WorldKey {
    Name(String),
    Interface(InterfaceId),
}

/// Two keys collide when they are names that agree once a leading
/// `[async]` marker is ignored, or the same interface.
pub open spec fn key_eq(a: WorldKey, b: WorldKey) -> bool {
    match (a, b) {
        (WorldKey::Name(x), WorldKey::Name(y)) => strip_async(x@) == strip_async(y@),
        (WorldKey::Interface(x), WorldKey::Interface(y)) => x == y,
        _ => false,
    }
}

/// The string form of a key: the name, or `interface-N` for an interface.
pub open spec fn key_text(k: WorldKey) -> Seq<char> {
    match k {
        WorldKey::Name(n) => n@,
        WorldKey::Interface(id) => "interface-"@ + decimal(id.spec_index()),
    }
}

impl PartialEq for WorldKey {
    fn eq(&self, other: &WorldKey) -> (r: bool) {
        self.same_key(other)
    }
}

impl vstd::std_specs::cmp::PartialEqSpecImpl for WorldKey {
    open spec fn obeys_eq_spec() -> bool {
        true
    }

    open spec fn eq_spec(&self, other: &WorldKey) -> bool {
        key_eq(*self, *other)
    }
}

impl Eq for WorldKey {
}

/// Relies on `Hash for u8`, which only feeds the value to the hasher.
pub assume_specification<H: std::hash::Hasher>[ <u8 as std::hash::Hash>::hash::<H> ](v: &u8, state: &mut H);

/// Relies on `Hash for str`, which only feeds the text to the hasher.
pub assume_specification<H: std::hash::Hasher>[ <str as std::hash::Hash>::hash::<H> ](v: &str, state: &mut H);

/// Relies on `Hash for usize`, which only feeds the value to the hasher.
pub assume_specification<H: std::hash::Hasher>[ <usize as std::hash::Hash>::hash::<H> ](v: &usize, state: &mut H);

/// Hashes agree with the collision rule: a name hashes as its text without
/// a leading `[async]` marker.
impl std::hash::Hash for WorldKey {
    fn hash<H: std::hash::Hasher>(&self, state: &mut H) {
        match self {
            WorldKey::Name(s) => {
                0u8.hash(state);
                crate::text::strip_async_str(s.as_str()).hash(state);
            },
            WorldKey::Interface(i) => {
                1u8.hash(state);
                i.index().hash(state);
            },
        }
    }
}

impl WorldKey {
    /// Whether the two keys collide.
    pub fn same_key(&self, other: &WorldKey) -> (r: bool)
        ensures
            r == key_eq(*self, *other),
    {
        proof {
            broadcast use crate::arena::Id::lemma_index_injective;
        }
        match (self, other) {
            (WorldKey::Name(a), WorldKey::Name(b)) => same_modulo_async(a.as_str(), b.as_str()),
            (WorldKey::Interface(a), WorldKey::Interface(b)) => a.index() == b.index(),
            _ => false,
        }
    }

    /// The name of a `Name` key.
    pub fn unwrap_name(self) -> (r: String)
        requires
            self is Name,
        ensures
            r == self->Name_0,
    {
        match self {
            WorldKey::Name(name) => name,
            WorldKey::Interface(_) => String::new(),
        }
    }

    /// The string form of this key.
    pub fn into_string(self) -> (r: String)
        ensures
            r@ == key_text(self),
    {
        match self {
            WorldKey::Name(name) => name,
            WorldKey::Interface(id) => {
                let mut s = String::new();
                s.append("interface-");
                push_decimal(&mut s, id.index() as u64);
                s
            },
        }
    }
}

/// A name and its `[async]` form are one key.
pub proof fn lemma_async_form_collides(name: String, tagged: String)
    requires
        tagged@ == seq!['[', 'a', 's', 'y', 'n', 'c', ']'] + name@,
        !crate::text::has_prefix(name@, crate::text::async_marker()),
    ensures
        key_eq(WorldKey::Name(name), WorldKey::Name(tagged)),
{
    assert(tagged@.subrange(0, 7) =~= crate::text::async_marker());
    assert(tagged@.subrange(7, tagged@.len() as int) =~= name@);
}

/// An item imported into or exported from a world.
#[derive(Debug, Clone)]
pub enum WorldItem {
    /// An interface, a namespace of functions and types.
    Interface { id: InterfaceId, stability: Stability },
    /// A function imported or exported directly.
    Function(Function),
    /// A type; types are only ever exported.
    Type(TypeId),
}

/// Whether two items under one key describe the same thing: the same
/// interface, the same type, or functions of one name and kind.
pub open spec fn same_shape(a: WorldItem, b: WorldItem) -> bool {
    match (a, b) {
        (WorldItem::Interface { id: x, .. }, WorldItem::Interface { id: y, .. }) => x == y,
        (WorldItem::Type(x), WorldItem::Type(y)) => x == y,
        (WorldItem::Function(f), WorldItem::Function(g)) => f.name@ == g.name@ && same_function_kind(f.kind, g.kind),
        _ => false,
    }
}

pub open spec fn same_function_kind(a: FunctionKind, b: FunctionKind) -> bool {
    match (a, b) {
        (FunctionKind::Freestanding, FunctionKind::Freestanding) => true,
        (FunctionKind::AsyncFreestanding, FunctionKind::AsyncFreestanding) => true,
        (FunctionKind::Method(x), FunctionKind::Method(y)) => x == y,
        (FunctionKind::AsyncMethod(x), FunctionKind::AsyncMethod(y)) => x == y,
        (FunctionKind::Static(x), FunctionKind::Static(y)) => x == y,
        (FunctionKind::AsyncStatic(x), FunctionKind::AsyncStatic(y)) => x == y,
        (FunctionKind::Constructor(x), FunctionKind::Constructor(y)) => x == y,
        _ => false,
    }
}

fn same_function_kind_exec(a: FunctionKind, b: FunctionKind) -> (r: bool)
    ensures
        r == same_function_kind(a, b),
{
    proof {
        broadcast use crate::arena::Id::lemma_index_injective;
    }
    match (a, b) {
        (FunctionKind::Freestanding, FunctionKind::Freestanding) => true,
        (FunctionKind::AsyncFreestanding, FunctionKind::AsyncFreestanding) => true,
        (FunctionKind::Method(x), FunctionKind::Method(y)) => x.index() == y.index(),
        (FunctionKind::AsyncMethod(x), FunctionKind::AsyncMethod(y)) => x.index() == y.index(),
        (FunctionKind::Static(x), FunctionKind::Static(y)) => x.index() == y.index(),
        (FunctionKind::AsyncStatic(x), FunctionKind::AsyncStatic(y)) => x.index() == y.index(),
        (FunctionKind::Constructor(x), FunctionKind::Constructor(y)) => x.index() == y.index(),
        _ => false,
    }
}

impl WorldItem {
    /// Whether `self` and `other` describe the same thing.
    pub fn same_shape_as(&self, other: &WorldItem) -> (r: bool)
        ensures
            r == same_shape(*self, *other),
    {
        proof {
            broadcast use crate::arena::Id::lemma_index_injective;
        }
        match (self, other) {
            (WorldItem::Interface { id: x, .. }, WorldItem::Interface { id: y, .. }) => x.index() == y.index(),
            (WorldItem::Type(x), WorldItem::Type(y)) => x.index() == y.index(),
            (WorldItem::Function(f), WorldItem::Function(g)) => {
                f.name == g.name && same_function_kind_exec(f.kind, g.kind)
            },
            _ => false,
        }
    }

    /// The stability of this item; a type's is read from `types`.
    pub fn stability<'a>(&'a self, resolve: &'a Resolve) -> (r: &'a Stability)
        requires
            self matches WorldItem::Type(id) ==> id.spec_index() < resolve.types@.len(),
        ensures
            *r == match *self {
                WorldItem::Interface { stability, .. } => stability,
                WorldItem::Function(f) => f.stability,
                WorldItem::Type(id) => resolve.types@[id.spec_index() as int].stability,
            },
    {
        let types = &resolve.types;
        match self {
            WorldItem::Interface { stability, .. } => stability,
            WorldItem::Function(f) => &f.stability,
            WorldItem::Type(id) => &types.get(*id).unwrap().stability,
        }
    }
}

/// A renaming applied to an included world's item.
#[derive(Debug, Clone)]
pub struct IncludeName {
    /// The name of the item.
    pub name: String,
    /// The name it is given in the including world.
    pub as_: String,
}

/// A keyed list of world items, in insertion order. Keys are compared under
/// the collision rule of [`key_eq`], so the list is kept as a vector whose
/// keys are unique under that rule (see [`keys_unique`]) rather than as a
/// hashed map.
pub type WorldItems = Vec<(WorldKey, WorldItem)>;

/// Some entry of `items` has a key that collides with `k`.
pub open spec fn has_key(items: Seq<(WorldKey, WorldItem)>, k: WorldKey) -> bool {
    exists|i: int| 0 <= i < items.len() && key_eq(#[trigger] items[i].0, k)
}

/// No two entries of `items` have colliding keys.
pub open spec fn keys_unique(items: Seq<(WorldKey, WorldItem)>) -> bool {
    forall|i: int, j: int| 0 <= i < j < items.len() ==> !key_eq(#[trigger] items[i].0, #[trigger] items[j].0)
}

/// The position of the entry whose key collides with `key`, if any.
pub fn position_of(items: &WorldItems, key: &WorldKey) -> (r: Option<usize>)
    ensures
        r is None <==> !has_key(items@, *key),
        r matches Some(i) ==> i < items@.len() && key_eq(items@[i as int].0, *key),
{
    let mut i: usize = 0;
    while i < items.len()
        invariant
            i <= items@.len(),
            forall|j: int| 0 <= j < i ==> !key_eq(#[trigger] items@[j].0, *key),
        decreases items@.len() - i,
    {
        if items[i].0.same_key(key) {
            return Some(i);
        }
        i = i + 1;
    }
    None
}

/// Adds `(key, item)` to `items` unless its key collides with one there.
pub fn insert_item(items: &mut WorldItems, key: WorldKey, item: WorldItem) -> (r: Result<(), Error>)
    ensures
        r is Ok <==> !has_key(old(items)@, key),
        r is Ok ==> final(items)@ == old(items)@.push((key, item)),
        r is Err ==> final(items)@ == old(items)@,
        keys_unique(old(items)@) ==> keys_unique(final(items)@),
{
    match position_of(items, &key) {
        Some(_) => {
            let mut msg = String::from_str("cannot have both `");
            let name = key.into_string();
            msg.append(name.as_str());
            msg.append("` and an item of the same name, with or without `[async]`");
            Err(Error::without_span(msg))
        },
        None => {
            items.push((key, item));
            proof {
                assert forall|i: int, j: int| 0 <= i < j < final(items)@.len() && keys_unique(old(items)@)
                    implies !key_eq(#[trigger] final(items)@[i].0, #[trigger] final(items)@[j].0) by {
                    if j == old(items)@.len() {
                        assert(final(items)@[i] == old(items)@[i]);
                        if key_eq(final(items)@[i].0, final(items)@[j].0) {
                            assert(key_eq(old(items)@[i].0, key));
                        }
                    } else {
                        assert(final(items)@[i] == old(items)@[i]);
                        assert(final(items)@[j] == old(items)@[j]);
                    }
                }
            }
            Ok(())
        },
    }
}

/// A world: a named bundle of imported and exported items.
#[derive(Debug, Clone)]
pub struct World {
    pub name: String,
    pub imports: WorldItems,
    pub exports: WorldItems,
    /// The package that owns this world.
    pub package: Option<PackageId>,
    pub docs: Docs,
    pub stability: Stability,
    /// Worlds included by this one; empty once the world is resolved.
    pub includes: Vec<(Stability, WorldId)>,
    /// Renamings of the included worlds; empty once the world is resolved.
    pub include_names: Vec<Vec<IncludeName>>,
}

impl World {
    /// An empty world named `name`.
    pub fn new(name: String) -> (r: World)
        ensures
            r.name == name,
            r.imports@.len() == 0,
            r.exports@.len() == 0,
            r.package is None,
            r.includes@.len() == 0,
            r.include_names@.len() == 0,
    {
        World {
            name,
            imports: Vec::new(),
            exports: Vec::new(),
            package: None,
            docs: Docs { contents: None },
            stability: Stability::Unknown,
            includes: Vec::new(),
            include_names: Vec::new(),
        }
    }

    /// Adds an import, failing when its key collides with an existing
    /// import's, in particular when a name and its `[async]` form meet.
    pub fn insert_import(&mut self, key: WorldKey, item: WorldItem) -> (r: Result<(), Error>)
        ensures
            r is Ok <==> !has_key(old(self).imports@, key),
            r is Ok ==> final(self).imports@ == old(self).imports@.push((key, item)),
            r is Err ==> final(self).imports@ == old(self).imports@,
            keys_unique(old(self).imports@) ==> keys_unique(final(self).imports@),
            final(self).exports == old(self).exports,
            final(self).name == old(self).name,
            final(self).package == old(self).package,
    {
        insert_item(&mut self.imports, key, item)
    }

    /// Adds an export, failing when its key collides with an existing
    /// export's.
    pub fn insert_export(&mut self, key: WorldKey, item: WorldItem) -> (r: Result<(), Error>)
        ensures
            r is Ok <==> !has_key(old(self).exports@, key),
            r is Ok ==> final(self).exports@ == old(self).exports@.push((key, item)),
            r is Err ==> final(self).exports@ == old(self).exports@,
            keys_unique(old(self).exports@) ==> keys_unique(final(self).exports@),
            final(self).imports == old(self).imports,
            final(self).name == old(self).name,
            final(self).package == old(self).package,
    {
        insert_item(&mut self.exports, key, item)
    }
}

/// An interface: a namespace of types and functions.
#[derive(Debug, Clone)]
pub struct Interface {
    /// The name; `None` for an interface written inline in a world.
    pub name: Option<String>,
    pub types: Vec<(String, TypeId)>,
    pub functions: Vec<(String, Function)>,
    pub docs: Docs,
    pub stability: Stability,
    /// The package that owns this interface.
    pub package: Option<PackageId>,
}

} // verus!
