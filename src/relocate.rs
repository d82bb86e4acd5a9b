//! Whole-graph merge: the items of one graph are appended to the arenas of
//! another, every handle they hold shifted by the length the target arena
//! had, so that no handle of either graph is reused.
use vstd::prelude::*;
use crate::arena::{Arena, Id, shift_index};
use crate::function::{Function, FunctionKind};
use crate::resolve::{Package, Resolve};
use crate::types::{Case, Field, Handle, Result_, Tuple, Record, Type, TypeDef, TypeDefKind, TypeOwner, Variant};
use crate::world::{Interface, World, WorldItem, WorldKey};

verus! {

/// How far the handles of a merged graph move: the lengths the target's
/// arenas had before the merge.
#[derive(Debug, Clone, Copy)]
pub struct Remap {
    pub worlds: usize,
    pub interfaces: usize,
    pub types: usize,
    pub packages: usize,
}

/// `b` is the handle `a` moved `off` places along.
pub open spec fn moved_id<T>(a: Id<T>, b: Id<T>, off: usize) -> bool {
    b.spec_index() == shift_index(a.spec_index(), off as nat)
}

pub open spec fn moved_type(a: Type, b: Type, o: Remap) -> bool {
    match (a, b) {
        (Type::Id(x), Type::Id(y)) => moved_id(x, y, o.types),
        (Type::Id(_), _) => false,
        (_, Type::Id(_)) => false,
        _ => a == b,
    }
}

pub open spec fn moved_opt_type(a: Option<Type>, b: Option<Type>, o: Remap) -> bool {
    match (a, b) {
        (Some(x), Some(y)) => moved_type(x, y, o),
        (None, None) => true,
        _ => false,
    }
}

pub open spec fn moved_field(a: Field, b: Field, o: Remap) -> bool {
    a.name == b.name && a.docs == b.docs && moved_type(a.ty, b.ty, o)
}

pub open spec fn moved_case(a: Case, b: Case, o: Remap) -> bool {
    a.name == b.name && a.docs == b.docs && moved_opt_type(a.ty, b.ty, o)
}

/// Two sequences related element-wise by `rel`.
pub open spec fn pointwise<A, B>(a: Seq<A>, b: Seq<B>, rel: spec_fn(A, B) -> bool) -> bool {
    a.len() == b.len() && forall|i: int| 0 <= i < a.len() ==> #[trigger] rel(a[i], b[i])
}

pub open spec fn moved_kind(a: TypeDefKind, b: TypeDefKind, o: Remap) -> bool {
    match (a, b) {
        (TypeDefKind::Record(x), TypeDefKind::Record(y)) => pointwise(x.fields@, y.fields@, |p: Field, q: Field| moved_field(p, q, o)),
        (TypeDefKind::Resource, TypeDefKind::Resource) => true,
        (TypeDefKind::Handle(Handle::Own(x)), TypeDefKind::Handle(Handle::Own(y))) => moved_id(x, y, o.types),
        (TypeDefKind::Handle(Handle::Borrow(x)), TypeDefKind::Handle(Handle::Borrow(y))) => moved_id(x, y, o.types),
        (TypeDefKind::Flags(x), TypeDefKind::Flags(y)) => x == y,
        (TypeDefKind::Tuple(x), TypeDefKind::Tuple(y)) => pointwise(x.types@, y.types@, |p: Type, q: Type| moved_type(p, q, o)),
        (TypeDefKind::Variant(x), TypeDefKind::Variant(y)) => pointwise(x.cases@, y.cases@, |p: Case, q: Case| moved_case(p, q, o)),
        (TypeDefKind::Enum(x), TypeDefKind::Enum(y)) => x == y,
        (TypeDefKind::Option(x), TypeDefKind::Option(y)) => moved_type(x, y, o),
        (TypeDefKind::Result(x), TypeDefKind::Result(y)) => moved_opt_type(x.ok, y.ok, o) && moved_opt_type(x.err, y.err, o),
        (TypeDefKind::List(x), TypeDefKind::List(y)) => moved_type(x, y, o),
        (TypeDefKind::FixedSizeList(x, n), TypeDefKind::FixedSizeList(y, m)) => moved_type(x, y, o) && n == m,
        (TypeDefKind::Future(x), TypeDefKind::Future(y)) => moved_opt_type(x, y, o),
        (TypeDefKind::Stream(x), TypeDefKind::Stream(y)) => moved_opt_type(x, y, o),
        (TypeDefKind::Type(x), TypeDefKind::Type(y)) => moved_type(x, y, o),
        (TypeDefKind::Unknown, TypeDefKind::Unknown) => true,
        _ => false,
    }
}

pub open spec fn moved_owner(a: TypeOwner, b: TypeOwner, o: Remap) -> bool {
    match (a, b) {
        (TypeOwner::World(x), TypeOwner::World(y)) => moved_id(x, y, o.worlds),
        (TypeOwner::Interface(x), TypeOwner::Interface(y)) => moved_id(x, y, o.interfaces),
        (TypeOwner::Anonymous, TypeOwner::Anonymous) => true,
        _ => false,
    }
}

pub open spec fn moved_type_def(a: TypeDef, b: TypeDef, o: Remap) -> bool {
    &&& a.name == b.name
    &&& a.docs == b.docs
    &&& a.stability == b.stability
    &&& moved_kind(a.kind, b.kind, o)
    &&& moved_owner(a.owner, b.owner, o)
}

fn move_type(t: Type, o: &Remap) -> (r: Type)
    ensures
        moved_type(t, r, *o),
{
    match t {
        Type::Id(id) => Type::Id(id.shifted(o.types)),
        _ => t,
    }
}

fn move_opt_type(t: Option<Type>, o: &Remap) -> (r: Option<Type>)
    ensures
        moved_opt_type(t, r, *o),
{
    match t {
        Some(t) => Some(move_type(t, o)),
        None => None,
    }
}

fn move_fields(fields: Vec<Field>, o: &Remap) -> (r: Vec<Field>)
    ensures
        pointwise(fields@, r@, |p: Field, q: Field| moved_field(p, q, *o)),
{
    let ghost orig = fields@;
    let mut rest = fields;
    let n = rest.len();
    let mut out: Vec<Field> = Vec::new();
    let mut i: usize = 0;
    while i < n
        invariant
            n == orig.len(),
            i <= n,
            rest@ == orig.subrange(i as int, n as int),
            out@.len() == i,
            forall|k: int| 0 <= k < i ==> moved_field(orig[k], #[trigger] out@[k], *o),
        decreases n - i,
    {
        let f = rest.remove(0);
        assert(f == orig[i as int]);
        let Field { name, ty, docs } = f;
        out.push(Field { name, ty: move_type(ty, o), docs });
        assert(rest@ =~= orig.subrange(i + 1, n as int));
        i = i + 1;
    }
    out
}

fn move_types(types: Vec<Type>, o: &Remap) -> (r: Vec<Type>)
    ensures
        pointwise(types@, r@, |p: Type, q: Type| moved_type(p, q, *o)),
{
    let mut out: Vec<Type> = Vec::new();
    let mut i: usize = 0;
    while i < types.len()
        invariant
            i <= types@.len(),
            out@.len() == i,
            forall|k: int| 0 <= k < i ==> moved_type(types@[k], #[trigger] out@[k], *o),
        decreases types@.len() - i,
    {
        out.push(move_type(types[i], o));
        i = i + 1;
    }
    out
}

fn move_cases(cases: Vec<Case>, o: &Remap) -> (r: Vec<Case>)
    ensures
        pointwise(cases@, r@, |p: Case, q: Case| moved_case(p, q, *o)),
{
    let ghost orig = cases@;
    let mut rest = cases;
    let n = rest.len();
    let mut out: Vec<Case> = Vec::new();
    let mut i: usize = 0;
    while i < n
        invariant
            n == orig.len(),
            i <= n,
            rest@ == orig.subrange(i as int, n as int),
            out@.len() == i,
            forall|k: int| 0 <= k < i ==> moved_case(orig[k], #[trigger] out@[k], *o),
        decreases n - i,
    {
        let c = rest.remove(0);
        assert(c == orig[i as int]);
        let Case { name, ty, docs } = c;
        out.push(Case { name, ty: move_opt_type(ty, o), docs });
        assert(rest@ =~= orig.subrange(i + 1, n as int));
        i = i + 1;
    }
    out
}

fn move_kind(kind: TypeDefKind, o: &Remap) -> (r: TypeDefKind)
    ensures
        moved_kind(kind, r, *o),
{
    match kind {
        TypeDefKind::Record(r) => TypeDefKind::Record(Record { fields: move_fields(r.fields, o) }),
        TypeDefKind::Resource => TypeDefKind::Resource,
        TypeDefKind::Handle(Handle::Own(id)) => TypeDefKind::Handle(Handle::Own(id.shifted(o.types))),
        TypeDefKind::Handle(Handle::Borrow(id)) => TypeDefKind::Handle(Handle::Borrow(id.shifted(o.types))),
        TypeDefKind::Flags(f) => TypeDefKind::Flags(f),
        TypeDefKind::Tuple(t) => TypeDefKind::Tuple(Tuple { types: move_types(t.types, o) }),
        TypeDefKind::Variant(v) => TypeDefKind::Variant(Variant { cases: move_cases(v.cases, o) }),
        TypeDefKind::Enum(e) => TypeDefKind::Enum(e),
        TypeDefKind::Option(t) => TypeDefKind::Option(move_type(t, o)),
        TypeDefKind::Result(r) => TypeDefKind::Result(Result_ { ok: move_opt_type(r.ok, o), err: move_opt_type(r.err, o) }),
        TypeDefKind::List(t) => TypeDefKind::List(move_type(t, o)),
        TypeDefKind::FixedSizeList(t, n) => TypeDefKind::FixedSizeList(move_type(t, o), n),
        TypeDefKind::Future(t) => TypeDefKind::Future(move_opt_type(t, o)),
        TypeDefKind::Stream(t) => TypeDefKind::Stream(move_opt_type(t, o)),
        TypeDefKind::Type(t) => TypeDefKind::Type(move_type(t, o)),
        TypeDefKind::Unknown => TypeDefKind::Unknown,
    }
}

fn move_type_def(def: TypeDef, o: &Remap) -> (r: TypeDef)
    ensures
        moved_type_def(def, r, *o),
{
    let TypeDef { name, kind, owner, docs, stability } = def;
    let owner = match owner {
        TypeOwner::World(id) => TypeOwner::World(id.shifted(o.worlds)),
        TypeOwner::Interface(id) => TypeOwner::Interface(id.shifted(o.interfaces)),
        TypeOwner::Anonymous => TypeOwner::Anonymous,
    };
    TypeDef { name, kind: move_kind(kind, o), owner, docs, stability }
}

pub open spec fn moved_opt_id<T>(a: Option<Id<T>>, b: Option<Id<T>>, off: usize) -> bool {
    match (a, b) {
        (Some(x), Some(y)) => moved_id(x, y, off),
        (None, None) => true,
        _ => false,
    }
}

pub open spec fn moved_function_kind(a: FunctionKind, b: FunctionKind, o: Remap) -> bool {
    match (a, b) {
        (FunctionKind::Freestanding, FunctionKind::Freestanding) => true,
        (FunctionKind::AsyncFreestanding, FunctionKind::AsyncFreestanding) => true,
        (FunctionKind::Method(x), FunctionKind::Method(y)) => moved_id(x, y, o.types),
        (FunctionKind::AsyncMethod(x), FunctionKind::AsyncMethod(y)) => moved_id(x, y, o.types),
        (FunctionKind::Static(x), FunctionKind::Static(y)) => moved_id(x, y, o.types),
        (FunctionKind::AsyncStatic(x), FunctionKind::AsyncStatic(y)) => moved_id(x, y, o.types),
        (FunctionKind::Constructor(x), FunctionKind::Constructor(y)) => moved_id(x, y, o.types),
        _ => false,
    }
}

pub open spec fn moved_param(a: (String, Type), b: (String, Type), o: Remap) -> bool {
    a.0 == b.0 && moved_type(a.1, b.1, o)
}

pub open spec fn moved_function(a: Function, b: Function, o: Remap) -> bool {
    &&& a.name == b.name
    &&& a.docs == b.docs
    &&& a.stability == b.stability
    &&& moved_function_kind(a.kind, b.kind, o)
    &&& pointwise(a.params@, b.params@, |p: (String, Type), q: (String, Type)| moved_param(p, q, o))
    &&& moved_opt_type(a.result, b.result, o)
}

pub open spec fn moved_named<T>(a: (String, Id<T>), b: (String, Id<T>), off: usize) -> bool {
    a.0 == b.0 && moved_id(a.1, b.1, off)
}

pub open spec fn moved_named_function(a: (String, Function), b: (String, Function), o: Remap) -> bool {
    a.0 == b.0 && moved_function(a.1, b.1, o)
}

pub open spec fn moved_interface(a: Interface, b: Interface, o: Remap) -> bool {
    &&& a.name == b.name
    &&& a.docs == b.docs
    &&& a.stability == b.stability
    &&& moved_opt_id(a.package, b.package, o.packages)
    &&& pointwise(a.types@, b.types@, |p: (String, Id<TypeDef>), q: (String, Id<TypeDef>)| moved_named(p, q, o.types))
    &&& pointwise(a.functions@, b.functions@, |p: (String, Function), q: (String, Function)| moved_named_function(p, q, o))
}

pub open spec fn moved_key(a: WorldKey, b: WorldKey, o: Remap) -> bool {
    match (a, b) {
        (WorldKey::Name(x), WorldKey::Name(y)) => x == y,
        (WorldKey::Interface(x), WorldKey::Interface(y)) => moved_id(x, y, o.interfaces),
        _ => false,
    }
}

pub open spec fn moved_item(a: WorldItem, b: WorldItem, o: Remap) -> bool {
    match (a, b) {
        (WorldItem::Interface { id: x, stability: s }, WorldItem::Interface { id: y, stability: t }) => moved_id(x, y, o.interfaces) && s == t,
        (WorldItem::Function(f), WorldItem::Function(g)) => moved_function(f, g, o),
        (WorldItem::Type(x), WorldItem::Type(y)) => moved_id(x, y, o.types),
        _ => false,
    }
}

pub open spec fn moved_entry(a: (WorldKey, WorldItem), b: (WorldKey, WorldItem), o: Remap) -> bool {
    moved_key(a.0, b.0, o) && moved_item(a.1, b.1, o)
}

pub open spec fn moved_include(a: (crate::stability::Stability, Id<World>), b: (crate::stability::Stability, Id<World>), o: Remap) -> bool {
    a.0 == b.0 && moved_id(a.1, b.1, o.worlds)
}

pub open spec fn moved_world(a: World, b: World, o: Remap) -> bool {
    &&& a.name == b.name
    &&& a.docs == b.docs
    &&& a.stability == b.stability
    &&& moved_opt_id(a.package, b.package, o.packages)
    &&& pointwise(a.imports@, b.imports@, |p: (WorldKey, WorldItem), q: (WorldKey, WorldItem)| moved_entry(p, q, o))
    &&& pointwise(a.exports@, b.exports@, |p: (WorldKey, WorldItem), q: (WorldKey, WorldItem)| moved_entry(p, q, o))
    &&& pointwise(
        a.includes@,
        b.includes@,
        |p: (crate::stability::Stability, Id<World>), q: (crate::stability::Stability, Id<World>)| moved_include(p, q, o),
    )
    &&& a.include_names == b.include_names
}

pub open spec fn moved_package(a: Package, b: Package, o: Remap) -> bool {
    &&& a.name == b.name
    &&& a.docs == b.docs
    &&& pointwise(a.interfaces@, b.interfaces@, |p: (String, Id<Interface>), q: (String, Id<Interface>)| moved_named(p, q, o.interfaces))
    &&& pointwise(a.worlds@, b.worlds@, |p: (String, Id<World>), q: (String, Id<World>)| moved_named(p, q, o.worlds))
}

fn move_opt_id<T>(id: Option<Id<T>>, off: usize) -> (r: Option<Id<T>>)
    ensures
        moved_opt_id(id, r, off),
{
    match id {
        Some(id) => Some(id.shifted(off)),
        None => None,
    }
}

fn move_function(f: Function, o: &Remap) -> (r: Function)
    ensures
        moved_function(f, r, *o),
{
    let Function { name, kind, params, result, docs, stability } = f;
    let kind = match kind {
        FunctionKind::Freestanding => FunctionKind::Freestanding,
        FunctionKind::AsyncFreestanding => FunctionKind::AsyncFreestanding,
        FunctionKind::Method(id) => FunctionKind::Method(id.shifted(o.types)),
        FunctionKind::AsyncMethod(id) => FunctionKind::AsyncMethod(id.shifted(o.types)),
        FunctionKind::Static(id) => FunctionKind::Static(id.shifted(o.types)),
        FunctionKind::AsyncStatic(id) => FunctionKind::AsyncStatic(id.shifted(o.types)),
        FunctionKind::Constructor(id) => FunctionKind::Constructor(id.shifted(o.types)),
    };
    let ghost orig = params@;
    let mut rest = params;
    let n = rest.len();
    let mut out: Vec<(String, Type)> = Vec::new();
    let mut i: usize = 0;
    while i < n
        invariant
            n == orig.len(),
            i <= n,
            rest@ == orig.subrange(i as int, n as int),
            out@.len() == i,
            forall|k: int| 0 <= k < i ==> moved_param(orig[k], #[trigger] out@[k], *o),
        decreases n - i,
    {
        let (pn, pt) = rest.remove(0);
        assert((pn, pt) == orig[i as int]);
        out.push((pn, move_type(pt, o)));
        assert(rest@ =~= orig.subrange(i + 1, n as int));
        i = i + 1;
    }
    Function { name, kind, params: out, result: move_opt_type(result, o), docs, stability }
}

fn move_named<T>(items: Vec<(String, Id<T>)>, off: usize) -> (r: Vec<(String, Id<T>)>)
    ensures
        pointwise(items@, r@, |p: (String, Id<T>), q: (String, Id<T>)| moved_named(p, q, off)),
{
    let ghost orig = items@;
    let mut rest = items;
    let n = rest.len();
    let mut out: Vec<(String, Id<T>)> = Vec::new();
    let mut i: usize = 0;
    while i < n
        invariant
            n == orig.len(),
            i <= n,
            rest@ == orig.subrange(i as int, n as int),
            out@.len() == i,
            forall|k: int| 0 <= k < i ==> moved_named(orig[k], #[trigger] out@[k], off),
        decreases n - i,
    {
        let (name, id) = rest.remove(0);
        assert((name, id) == orig[i as int]);
        out.push((name, id.shifted(off)));
        assert(rest@ =~= orig.subrange(i + 1, n as int));
        i = i + 1;
    }
    out
}

fn move_interface(iface: Interface, o: &Remap) -> (r: Interface)
    ensures
        moved_interface(iface, r, *o),
{
    let Interface { name, types, functions, docs, stability, package } = iface;
    let ghost orig = functions@;
    let mut rest = functions;
    let n = rest.len();
    let mut out: Vec<(String, Function)> = Vec::new();
    let mut i: usize = 0;
    while i < n
        invariant
            n == orig.len(),
            i <= n,
            rest@ == orig.subrange(i as int, n as int),
            out@.len() == i,
            forall|k: int| 0 <= k < i ==> moved_named_function(orig[k], #[trigger] out@[k], *o),
        decreases n - i,
    {
        let (fname, f) = rest.remove(0);
        assert((fname, f) == orig[i as int]);
        out.push((fname, move_function(f, o)));
        assert(rest@ =~= orig.subrange(i + 1, n as int));
        i = i + 1;
    }
    Interface {
        name,
        types: move_named(types, o.types),
        functions: out,
        docs,
        stability,
        package: move_opt_id(package, o.packages),
    }
}

fn move_entries(items: Vec<(WorldKey, WorldItem)>, o: &Remap) -> (r: Vec<(WorldKey, WorldItem)>)
    ensures
        pointwise(items@, r@, |p: (WorldKey, WorldItem), q: (WorldKey, WorldItem)| moved_entry(p, q, *o)),
{
    let ghost orig = items@;
    let mut rest = items;
    let n = rest.len();
    let mut out: Vec<(WorldKey, WorldItem)> = Vec::new();
    let mut i: usize = 0;
    while i < n
        invariant
            n == orig.len(),
            i <= n,
            rest@ == orig.subrange(i as int, n as int),
            out@.len() == i,
            forall|k: int| 0 <= k < i ==> moved_entry(orig[k], #[trigger] out@[k], *o),
        decreases n - i,
    {
        let (key, item) = rest.remove(0);
        assert((key, item) == orig[i as int]);
        let key = match key {
            WorldKey::Name(n) => WorldKey::Name(n),
            WorldKey::Interface(id) => WorldKey::Interface(id.shifted(o.interfaces)),
        };
        let item = match item {
            WorldItem::Interface { id, stability } => WorldItem::Interface { id: id.shifted(o.interfaces), stability },
            WorldItem::Function(f) => WorldItem::Function(move_function(f, o)),
            WorldItem::Type(id) => WorldItem::Type(id.shifted(o.types)),
        };
        out.push((key, item));
        assert(rest@ =~= orig.subrange(i + 1, n as int));
        i = i + 1;
    }
    out
}

fn move_world(w: World, o: &Remap) -> (r: World)
    ensures
        moved_world(w, r, *o),
{
    let World { name, imports, exports, package, docs, stability, includes, include_names } = w;
    let ghost orig = includes@;
    let mut rest = includes;
    let n = rest.len();
    let mut out: Vec<(crate::stability::Stability, Id<World>)> = Vec::new();
    let mut i: usize = 0;
    while i < n
        invariant
            n == orig.len(),
            i <= n,
            rest@ == orig.subrange(i as int, n as int),
            out@.len() == i,
            forall|k: int| 0 <= k < i ==> moved_include(orig[k], #[trigger] out@[k], *o),
        decreases n - i,
    {
        let (st, id) = rest.remove(0);
        assert((st, id) == orig[i as int]);
        out.push((st, id.shifted(o.worlds)));
        assert(rest@ =~= orig.subrange(i + 1, n as int));
        i = i + 1;
    }
    World {
        name,
        imports: move_entries(imports, o),
        exports: move_entries(exports, o),
        package: move_opt_id(package, o.packages),
        docs,
        stability,
        includes: out,
        include_names,
    }
}

fn move_package(p: Package, o: &Remap) -> (r: Package)
    ensures
        moved_package(p, r, *o),
{
    let Package { name, docs, interfaces, worlds } = p;
    Package { name, docs, interfaces: move_named(interfaces, o.interfaces), worlds: move_named(worlds, o.worlds) }
}

fn append_types(dst: &mut Arena<TypeDef>, src: Arena<TypeDef>, o: &Remap) -> (r: usize)
    ensures
        r == old(dst)@.len(),
        final(dst)@.len() == old(dst)@.len() + src@.len(),
        final(dst)@.subrange(0, old(dst)@.len() as int) == old(dst)@,
        forall|i: int| 0 <= i < src@.len() ==> moved_type_def(src@[i], #[trigger] final(dst)@[old(dst)@.len() + i], *o),
{
    let start = dst.len();
    let ghost orig = src@;
    let ghost before = dst@;
    let mut rest = src.into_items();
    let n = rest.len();
    let mut i: usize = 0;
    assert(dst@.subrange(0, start as int) =~= before);
    while i < n
        invariant
            n == orig.len(),
            i <= n,
            start == before.len(),
            before == old(dst)@,
            rest@ == orig.subrange(i as int, n as int),
            dst@.len() == start + i,
            dst@.subrange(0, start as int) == before,
            forall|k: int| 0 <= k < i ==> moved_type_def(orig[k], #[trigger] dst@[start + k], *o),
        decreases n - i,
    {
        let item = rest.remove(0);
        assert(item == orig[i as int]);
        let ghost prev = dst@;
        let _ = dst.allocate(move_type_def(item, o));
        assert(dst@.subrange(0, start as int) =~= prev.subrange(0, start as int));
        assert(forall|k: int| 0 <= k < i ==> #[trigger] dst@[start + k] == prev[start + k]);
        assert(rest@ =~= orig.subrange(i + 1, n as int));
        i = i + 1;
    }
    start
}

fn append_interfaces(dst: &mut Arena<Interface>, src: Arena<Interface>, o: &Remap) -> (r: usize)
    ensures
        r == old(dst)@.len(),
        final(dst)@.len() == old(dst)@.len() + src@.len(),
        final(dst)@.subrange(0, old(dst)@.len() as int) == old(dst)@,
        forall|i: int| 0 <= i < src@.len() ==> moved_interface(src@[i], #[trigger] final(dst)@[old(dst)@.len() + i], *o),
{
    let start = dst.len();
    let ghost orig = src@;
    let ghost before = dst@;
    let mut rest = src.into_items();
    let n = rest.len();
    let mut i: usize = 0;
    assert(dst@.subrange(0, start as int) =~= before);
    while i < n
        invariant
            n == orig.len(),
            i <= n,
            start == before.len(),
            before == old(dst)@,
            rest@ == orig.subrange(i as int, n as int),
            dst@.len() == start + i,
            dst@.subrange(0, start as int) == before,
            forall|k: int| 0 <= k < i ==> moved_interface(orig[k], #[trigger] dst@[start + k], *o),
        decreases n - i,
    {
        let item = rest.remove(0);
        assert(item == orig[i as int]);
        let ghost prev = dst@;
        let _ = dst.allocate(move_interface(item, o));
        assert(dst@.subrange(0, start as int) =~= prev.subrange(0, start as int));
        assert(forall|k: int| 0 <= k < i ==> #[trigger] dst@[start + k] == prev[start + k]);
        assert(rest@ =~= orig.subrange(i + 1, n as int));
        i = i + 1;
    }
    start
}

fn append_worlds(dst: &mut Arena<World>, src: Arena<World>, o: &Remap) -> (r: usize)
    ensures
        r == old(dst)@.len(),
        final(dst)@.len() == old(dst)@.len() + src@.len(),
        final(dst)@.subrange(0, old(dst)@.len() as int) == old(dst)@,
        forall|i: int| 0 <= i < src@.len() ==> moved_world(src@[i], #[trigger] final(dst)@[old(dst)@.len() + i], *o),
{
    let start = dst.len();
    let ghost orig = src@;
    let ghost before = dst@;
    let mut rest = src.into_items();
    let n = rest.len();
    let mut i: usize = 0;
    assert(dst@.subrange(0, start as int) =~= before);
    while i < n
        invariant
            n == orig.len(),
            i <= n,
            start == before.len(),
            before == old(dst)@,
            rest@ == orig.subrange(i as int, n as int),
            dst@.len() == start + i,
            dst@.subrange(0, start as int) == before,
            forall|k: int| 0 <= k < i ==> moved_world(orig[k], #[trigger] dst@[start + k], *o),
        decreases n - i,
    {
        let item = rest.remove(0);
        assert(item == orig[i as int]);
        let ghost prev = dst@;
        let _ = dst.allocate(move_world(item, o));
        assert(dst@.subrange(0, start as int) =~= prev.subrange(0, start as int));
        assert(forall|k: int| 0 <= k < i ==> #[trigger] dst@[start + k] == prev[start + k]);
        assert(rest@ =~= orig.subrange(i + 1, n as int));
        i = i + 1;
    }
    start
}

fn append_packages(dst: &mut Arena<Package>, src: Arena<Package>, o: &Remap) -> (r: usize)
    ensures
        r == old(dst)@.len(),
        final(dst)@.len() == old(dst)@.len() + src@.len(),
        final(dst)@.subrange(0, old(dst)@.len() as int) == old(dst)@,
        forall|i: int| 0 <= i < src@.len() ==> moved_package(src@[i], #[trigger] final(dst)@[old(dst)@.len() + i], *o),
{
    let start = dst.len();
    let ghost orig = src@;
    let ghost before = dst@;
    let mut rest = src.into_items();
    let n = rest.len();
    let mut i: usize = 0;
    assert(dst@.subrange(0, start as int) =~= before);
    while i < n
        invariant
            n == orig.len(),
            i <= n,
            start == before.len(),
            before == old(dst)@,
            rest@ == orig.subrange(i as int, n as int),
            dst@.len() == start + i,
            dst@.subrange(0, start as int) == before,
            forall|k: int| 0 <= k < i ==> moved_package(orig[k], #[trigger] dst@[start + k], *o),
        decreases n - i,
    {
        let item = rest.remove(0);
        assert(item == orig[i as int]);
        let ghost prev = dst@;
        let _ = dst.allocate(move_package(item, o));
        assert(dst@.subrange(0, start as int) =~= prev.subrange(0, start as int));
        assert(forall|k: int| 0 <= k < i ==> #[trigger] dst@[start + k] == prev[start + k]);
        assert(rest@ =~= orig.subrange(i + 1, n as int));
        i = i + 1;
    }
    start
}

impl Resolve {
    /// Merges `other` into this graph: its packages, interfaces, types and
    /// worlds are appended to this graph's arenas, in order, with every
    /// handle they hold moved past this graph's items (see [`Remap`]); the
    /// items already here are untouched. Returns how far each kind of
    /// handle of `other` moved.
    pub fn merge(&mut self, other: Resolve) -> (r: Remap)
        ensures
            r == (Remap {
                worlds: old(self).worlds@.len() as usize,
                interfaces: old(self).interfaces@.len() as usize,
                types: old(self).types@.len() as usize,
                packages: old(self).packages@.len() as usize,
            }),
            final(self).types@.len() == old(self).types@.len() + other.types@.len(),
            final(self).types@.subrange(0, old(self).types@.len() as int) == old(self).types@,
            forall|i: int| 0 <= i < other.types@.len() ==> moved_type_def(other.types@[i], #[trigger] final(self).types@[old(self).types@.len() + i], r),
            final(self).interfaces@.len() == old(self).interfaces@.len() + other.interfaces@.len(),
            final(self).interfaces@.subrange(0, old(self).interfaces@.len() as int) == old(self).interfaces@,
            forall|i: int| 0 <= i < other.interfaces@.len() ==> moved_interface(other.interfaces@[i], #[trigger] final(self).interfaces@[old(self).interfaces@.len() + i], r),
            final(self).worlds@.len() == old(self).worlds@.len() + other.worlds@.len(),
            final(self).worlds@.subrange(0, old(self).worlds@.len() as int) == old(self).worlds@,
            forall|i: int| 0 <= i < other.worlds@.len() ==> moved_world(other.worlds@[i], #[trigger] final(self).worlds@[old(self).worlds@.len() + i], r),
            final(self).packages@.len() == old(self).packages@.len() + other.packages@.len(),
            final(self).packages@.subrange(0, old(self).packages@.len() as int) == old(self).packages@,
            forall|i: int| 0 <= i < other.packages@.len() ==> moved_package(other.packages@[i], #[trigger] final(self).packages@[old(self).packages@.len() + i], r),
            final(self).features == old(self).features,
            final(self).all_features == old(self).all_features,
    {
        let o = Remap {
            worlds: self.worlds.len(),
            interfaces: self.interfaces.len(),
            types: self.types.len(),
            packages: self.packages.len(),
        };
        let Resolve { worlds, interfaces, types, packages, .. } = other;
        append_types(&mut self.types, types, &o);
        append_interfaces(&mut self.interfaces, interfaces, &o);
        append_worlds(&mut self.worlds, worlds, &o);
        append_packages(&mut self.packages, packages, &o);
        o
    }
}

} // verus!
