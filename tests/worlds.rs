use std::collections::HashSet;
use wit_parser::{
    merge_world_items, Docs, Function, FunctionKind, Interface, Package, PackageName, Resolve, Stability, Version,
    World, WorldItem, WorldKey,
};

fn func(name: &str) -> WorldItem {
    WorldItem::Function(Function {
        name: name.into(),
        kind: FunctionKind::Freestanding,
        params: Vec::new(),
        result: None,
        docs: Docs::default(),
        stability: Stability::Unknown,
    })
}

fn key(s: &str) -> WorldKey {
    WorldKey::Name(s.to_string())
}

#[test]
fn async_name_collides_with_plain_name() {
    let mut w = World::new("w".to_string());
    assert!(w.insert_import(key("foo"), func("foo")).is_ok());
    assert!(w.insert_import(key("[async]foo"), func("[async]foo")).is_err());
    assert_eq!(w.imports.len(), 1);

    let mut w = World::new("w".to_string());
    assert!(w.insert_import(key("foo"), func("foo")).is_ok());
    assert!(w.insert_import(key("bar"), func("bar")).is_ok());
    assert_eq!(w.imports.len(), 2);

    let mut w = World::new("w".to_string());
    assert!(w.insert_import(key("[async]foo"), func("[async]foo")).is_ok());
    assert!(w.insert_export(key("foo"), func("foo")).is_ok());
    assert!(w.insert_export(key("[async]foo"), func("[async]foo")).is_err());
}

#[test]
fn world_key_equality_and_text() {
    assert_eq!(key("foo"), key("[async]foo"));
    assert_ne!(key("foo"), key("bar"));
    assert_ne!(key("[async]"), key("foo"));
    assert_eq!(key("x").into_string(), "x");
    assert_eq!(key("x").unwrap_name(), "x");
    let mut resolve = Resolve::default();
    let i = resolve.interfaces.allocate(iface("a", None));
    let j = resolve.interfaces.allocate(iface("b", None));
    assert_eq!(WorldKey::Interface(i), WorldKey::Interface(i));
    assert_ne!(WorldKey::Interface(i), WorldKey::Interface(j));
    assert_ne!(WorldKey::Interface(i), key("a"));
    assert_eq!(WorldKey::Interface(j).into_string(), "interface-1");
}

#[test]
fn world_key_hash_agrees_with_equality() {
    let mut set = HashSet::new();
    set.insert(key("foo"));
    assert!(set.contains(&key("[async]foo")));
    assert!(!set.contains(&key("bar")));
}

fn iface(name: &str, package: Option<wit_parser::PackageId>) -> Interface {
    Interface {
        name: Some(name.to_string()),
        types: Vec::new(),
        functions: Vec::new(),
        docs: Docs::default(),
        stability: Stability::Unknown,
        package,
    }
}

fn pkg(ns: &str, name: &str, v: Version) -> Package {
    Package {
        name: PackageName { namespace: ns.to_string(), name: name.to_string(), version: Some(v) },
        docs: Docs::default(),
        interfaces: Vec::new(),
        worlds: Vec::new(),
    }
}

fn import_iface(w: &mut World, id: wit_parser::InterfaceId) {
    w.insert_import(WorldKey::Interface(id), WorldItem::Interface { id, stability: Stability::Unknown }).unwrap();
}

fn imported_ids(w: &World) -> Vec<usize> {
    w.imports
        .iter()
        .map(|(k, _)| match k {
            WorldKey::Interface(id) => id.index(),
            WorldKey::Name(_) => usize::MAX,
        })
        .collect()
}

/// Two worlds in one graph: the first imports `wasi:io/poll@1.0.0`, the
/// second `wasi:io/poll@<second>`.
fn two_worlds(second: Version) -> (Resolve, wit_parser::WorldId, wit_parser::WorldId, usize, usize) {
    let mut resolve = Resolve::default();
    let p1 = resolve.packages.allocate(pkg("wasi", "io", Version::new(1, 0, 0)));
    let p2 = resolve.packages.allocate(pkg("wasi", "io", second));
    let i1 = resolve.interfaces.allocate(iface("poll", Some(p1)));
    let i2 = resolve.interfaces.allocate(iface("poll", Some(p2)));
    let mut a = World::new("a".to_string());
    import_iface(&mut a, i1);
    let mut b = World::new("b".to_string());
    import_iface(&mut b, i2);
    let a = resolve.worlds.allocate(a);
    let b = resolve.worlds.allocate(b);
    (resolve, a, b, i1.index(), i2.index())
}

fn merge_b_into_a(resolve: &mut Resolve, a: wit_parser::WorldId, b: wit_parser::WorldId) {
    let other = resolve.worlds.get(b).unwrap().clone();
    let mut into = resolve.worlds.get(a).unwrap().clone();
    into.merge_from(other).unwrap();
    resolve.worlds.replace(a, into);
    resolve.merge_world_imports_based_on_semver(a).unwrap();
}

#[test]
fn merging_same_track_keeps_the_newer_import() {
    let (mut resolve, a, b, _, newer) = two_worlds(Version::new(1, 0, 1));
    merge_b_into_a(&mut resolve, a, b);
    assert_eq!(imported_ids(resolve.worlds.get(a).unwrap()), vec![newer]);
}

#[test]
fn merging_different_tracks_keeps_both_imports() {
    let (mut resolve, a, b, older, newer) = two_worlds(Version::new(2, 0, 0));
    merge_b_into_a(&mut resolve, a, b);
    assert_eq!(imported_ids(resolve.worlds.get(a).unwrap()), vec![older, newer]);
}

#[test]
fn semver_merge_is_idempotent() {
    let (mut resolve, a, b, _, _) = two_worlds(Version::new(1, 0, 1));
    merge_b_into_a(&mut resolve, a, b);
    let once = imported_ids(resolve.worlds.get(a).unwrap());
    resolve.merge_world_imports_based_on_semver(a).unwrap();
    assert_eq!(imported_ids(resolve.worlds.get(a).unwrap()), once);

    let (mut resolve, a, _, older, _) = two_worlds(Version::new(1, 0, 1));
    resolve.merge_world_imports_based_on_semver(a).unwrap();
    assert_eq!(imported_ids(resolve.worlds.get(a).unwrap()), vec![older]);
}

#[test]
fn semver_merge_of_missing_world_fails() {
    let (mut resolve, _, _, _, _) = two_worlds(Version::new(1, 0, 1));
    let missing = wit_parser::Id::from_index(7);
    assert!(resolve.merge_world_imports_based_on_semver(missing).is_err());
}

#[test]
fn conflicting_items_fail_to_merge_and_leave_the_target_alone() {
    let mut into = vec![(key("f"), func("f"))];
    let from = vec![(key("g"), func("g")), (key("f"), func("other"))];
    assert!(merge_world_items(&mut into, from).is_err());
    assert_eq!(into.len(), 1);

    let mut into = vec![(key("f"), func("f"))];
    let from = vec![(key("g"), func("g")), (key("f"), func("f"))];
    assert!(merge_world_items(&mut into, from).is_ok());
    assert_eq!(into.len(), 2);
}

#[test]
fn item_stability() {
    let mut resolve = Resolve::default();
    let t = resolve.types.allocate(wit_parser::TypeDef {
        name: Some("t".to_string()),
        kind: wit_parser::TypeDefKind::Resource,
        owner: wit_parser::TypeOwner::Anonymous,
        docs: Docs::default(),
        stability: Stability::Unstable { feature: "x".to_string(), deprecated: None },
    });
    assert!(!WorldItem::Type(t).stability(&resolve).is_unknown());
    assert!(func("f").stability(&resolve).is_unknown());
}

#[test]
fn world_validity() {
    let (resolve, a, _, _, _) = two_worlds(Version::new(1, 0, 1));
    assert!(resolve.world_valid(resolve.worlds.get(a).unwrap()));
    let mut w = World::new("w".to_string());
    w.imports.push((key("foo"), func("foo")));
    w.imports.push((key("[async]foo"), func("[async]foo")));
    assert!(!resolve.world_valid(&w));
    let mut w = World::new("w".to_string());
    let far = wit_parser::Id::from_index(99);
    w.imports.push((WorldKey::Interface(far), WorldItem::Interface { id: far, stability: Stability::Unknown }));
    assert!(!resolve.world_valid(&w));
    let mut w = World::new("w".to_string());
    w.includes.push((Stability::Unknown, a));
    assert!(!resolve.world_valid(&w));
}

#[test]
fn feature_gating_on_the_graph() {
    let mut resolve = Resolve::default();
    let gated = Stability::Unstable { feature: "x".to_string(), deprecated: None };
    assert!(!resolve.include_stability(&gated));
    resolve.features.push("x".to_string());
    assert!(resolve.include_stability(&gated));
    let mut resolve = Resolve::default();
    resolve.all_features = true;
    assert!(resolve.include_stability(&gated));
    assert!(resolve.include_stability(&Stability::Stable { since: Version::new(1, 0, 0), deprecated: None }));
}

fn renaming(name: &str, as_: &str) -> wit_parser::IncludeName {
    wit_parser::IncludeName { name: name.to_string(), as_: as_.to_string() }
}

fn import_names(w: &World) -> Vec<String> {
    w.imports.iter().map(|(k, _)| k.clone().into_string()).collect()
}

#[test]
fn includes_are_spliced_with_renaming() {
    let mut resolve = Resolve::default();
    let mut base = World::new("base".to_string());
    base.insert_import(key("log"), func("log")).unwrap();
    base.insert_import(key("clock"), func("clock")).unwrap();
    base.insert_export(key("run"), func("run")).unwrap();
    let base = resolve.worlds.allocate(base);
    let mut top = World::new("top".to_string());
    top.insert_import(key("log"), func("log")).unwrap();
    top.includes.push((Stability::Unknown, base));
    top.include_names.push(vec![renaming("log", "base-log")]);
    let top = resolve.worlds.allocate(top);
    resolve.expand_includes(top).unwrap();
    let w = resolve.worlds.get(top).unwrap();
    assert_eq!(import_names(w), vec!["log", "base-log", "clock"]);
    assert_eq!(w.exports.len(), 1);
    assert!(w.includes.is_empty());
    assert!(w.include_names.is_empty());
    assert!(resolve.world_valid(w));
}

#[test]
fn colliding_include_fails_and_changes_nothing() {
    let mut resolve = Resolve::default();
    let mut base = World::new("base".to_string());
    base.insert_import(key("a"), func("a")).unwrap();
    base.insert_import(key("[async]log"), func("[async]log")).unwrap();
    let base = resolve.worlds.allocate(base);
    let mut top = World::new("top".to_string());
    top.insert_import(key("log"), func("log")).unwrap();
    top.includes.push((Stability::Unknown, base));
    top.include_names.push(Vec::new());
    let top = resolve.worlds.allocate(top);
    assert!(resolve.expand_includes(top).is_err());
    let w = resolve.worlds.get(top).unwrap();
    assert_eq!(import_names(w), vec!["log"]);
    assert_eq!(w.includes.len(), 1);
}

#[test]
fn self_and_unexpanded_includes_are_rejected() {
    let mut resolve = Resolve::default();
    let me = wit_parser::Id::from_index(0);
    let mut w = World::new("w".to_string());
    w.includes.push((Stability::Unknown, me));
    w.include_names.push(Vec::new());
    let w = resolve.worlds.allocate(w);
    assert!(resolve.expand_includes(w).is_err());

    let mut v = World::new("v".to_string());
    v.includes.push((Stability::Unknown, w));
    v.include_names.push(Vec::new());
    let v = resolve.worlds.allocate(v);
    assert!(resolve.expand_includes(v).is_err());
}

#[test]
fn shared_interfaces_are_included_once() {
    let mut resolve = Resolve::default();
    let p = resolve.packages.allocate(pkg("wasi", "io", Version::new(0, 2, 0)));
    let i = resolve.interfaces.allocate(iface("poll", Some(p)));
    let mut base = World::new("base".to_string());
    import_iface(&mut base, i);
    let base = resolve.worlds.allocate(base);
    let mut top = World::new("top".to_string());
    import_iface(&mut top, i);
    top.includes.push((Stability::Unknown, base));
    top.include_names.push(Vec::new());
    let top = resolve.worlds.allocate(top);
    resolve.expand_includes(top).unwrap();
    assert_eq!(imported_ids(resolve.worlds.get(top).unwrap()), vec![i.index()]);
}

/// A graph holding one package `wasi:io@<version>` with interface `poll`
/// and one world importing it.
fn single_world_graph(version: Version) -> (Resolve, wit_parser::WorldId) {
    let mut resolve = Resolve::default();
    let p = resolve.packages.allocate(pkg("wasi", "io", version));
    let i = resolve.interfaces.allocate(iface("poll", Some(p)));
    let mut w = World::new("w".to_string());
    import_iface(&mut w, i);
    let w = resolve.worlds.allocate(w);
    (resolve, w)
}

fn merge_graphs(second: Version) -> (Resolve, wit_parser::WorldId) {
    let (mut a, wa) = single_world_graph(Version::new(1, 0, 0));
    let (b, wb) = single_world_graph(second);
    let remap = a.merge(b);
    assert_eq!(remap.worlds, 1);
    assert_eq!(remap.interfaces, 1);
    assert_eq!(remap.packages, 1);
    let wb = wb.shifted(remap.worlds);
    assert_eq!(a.worlds.len(), 2);
    let other = a.worlds.get(wb).unwrap().clone();
    let mut into = a.worlds.get(wa).unwrap().clone();
    into.merge_from(other).unwrap();
    a.worlds.replace(wa, into);
    a.merge_world_imports_based_on_semver(wa).unwrap();
    (a, wa)
}

#[test]
fn merged_graphs_on_one_track_import_the_newer_version() {
    let (resolve, w) = merge_graphs(Version::new(1, 0, 1));
    let ids = imported_ids(resolve.worlds.get(w).unwrap());
    assert_eq!(ids, vec![1]);
    let iface = resolve.interfaces.get(wit_parser::Id::from_index(1)).unwrap();
    let pkg = resolve.packages.get(iface.package.unwrap()).unwrap();
    assert_eq!(pkg.name.to_string(), "wasi:io@1.0.1");
}

#[test]
fn merged_graphs_on_two_tracks_keep_both_imports() {
    let (resolve, w) = merge_graphs(Version::new(2, 0, 0));
    assert_eq!(imported_ids(resolve.worlds.get(w).unwrap()), vec![0, 1]);
    assert!(resolve.world_valid(resolve.worlds.get(w).unwrap()));
}

#[test]
fn merging_graphs_moves_type_handles() {
    let mut a = Resolve::default();
    a.types.allocate(wit_parser::TypeDef {
        name: None,
        kind: wit_parser::TypeDefKind::Resource,
        owner: wit_parser::TypeOwner::Anonymous,
        docs: Docs::default(),
        stability: Stability::Unknown,
    });
    let mut b = Resolve::default();
    let inner = b.types.allocate(wit_parser::TypeDef {
        name: None,
        kind: wit_parser::TypeDefKind::Future(None),
        owner: wit_parser::TypeOwner::Anonymous,
        docs: Docs::default(),
        stability: Stability::Unknown,
    });
    b.types.allocate(wit_parser::TypeDef {
        name: None,
        kind: wit_parser::TypeDefKind::List(wit_parser::Type::Id(inner)),
        owner: wit_parser::TypeOwner::Anonymous,
        docs: Docs::default(),
        stability: Stability::Unknown,
    });
    let remap = a.merge(b);
    assert_eq!(remap.types, 1);
    assert_eq!(a.types.len(), 3);
    match &a.types.get(wit_parser::Id::from_index(2)).unwrap().kind {
        wit_parser::TypeDefKind::List(wit_parser::Type::Id(id)) => assert_eq!(id.index(), 1),
        _ => panic!("expected a list"),
    }
    assert!(a.types_valid());
}

#[test]
fn whole_graph_validation() {
    let (resolve, _) = merge_graphs(Version::new(1, 0, 1));
    assert!(resolve.is_valid());
    let mut broken = resolve.clone();
    let mut w = World::new("bad".to_string());
    w.imports.push((key("x"), func("x")));
    w.imports.push((key("[async]x"), func("[async]x")));
    broken.worlds.allocate(w);
    assert!(!broken.is_valid());
    let mut broken = resolve.clone();
    broken.types.allocate(wit_parser::TypeDef {
        name: None,
        kind: wit_parser::TypeDefKind::Unknown,
        owner: wit_parser::TypeOwner::Anonymous,
        docs: Docs::default(),
        stability: Stability::Unknown,
    });
    assert!(!broken.is_valid());
}
