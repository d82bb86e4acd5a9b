use wit_parser::{Arena, AstItem, UnresolvedPackage};
use std::cmp::Ordering;
use wit_parser::{
    Package, PackageName, Resolve, Span, Stability, Version, Docs,
};

fn v(major: u64, minor: u64, patch: u64) -> Version {
    Version::new(major, minor, patch)
}

fn pre(major: u64, minor: u64, patch: u64, pre: &str) -> Version {
    let mut x = Version::new(major, minor, patch);
    x.pre = pre.to_string();
    x
}

fn track(x: &Version) -> (u64, u64, u64, String) {
    let t = PackageName::version_compat_track(x);
    (t.major, t.minor, t.patch, t.pre)
}

#[test]
fn compat_tracks() {
    assert_eq!(track(&v(1, 2, 0)), track(&v(1, 2, 9)));
    assert_eq!(track(&v(1, 2, 0)), (1, 0, 0, String::new()));
    assert_ne!(track(&v(0, 1, 0)), track(&v(0, 2, 0)));
    assert_eq!(track(&v(0, 2, 7)), (0, 2, 0, String::new()));
    assert_eq!(track(&v(0, 0, 3)), (0, 0, 3, String::new()));
    assert_ne!(track(&v(0, 0, 3)), track(&v(0, 0, 4)));
    assert_eq!(track(&pre(1, 2, 3, "rc1")), (1, 2, 3, "rc1".to_string()));
    let mut b = v(1, 2, 3);
    b.build = "abc".to_string();
    assert_eq!(PackageName::version_compat_track(&b).build, "");
}

#[test]
fn compat_track_strings() {
    assert_eq!(PackageName::version_compat_track_string(&v(1, 2, 3)), "1");
    assert_eq!(PackageName::version_compat_track_string(&v(0, 2, 3)), "0.2");
    assert_eq!(PackageName::version_compat_track_string(&v(0, 0, 3)), "0.0.3");
    assert_eq!(PackageName::version_compat_track_string(&pre(1, 2, 3, "rc.1")), "1.2.3-rc.1");
    assert_eq!(PackageName::version_compat_track_string(&v(12, 0, 0)), "12");
}

#[test]
fn version_text() {
    assert_eq!(v(1, 20, 300).to_string(), "1.20.300");
    let mut x = pre(0, 1, 0, "alpha.1");
    x.build = "b7".to_string();
    assert_eq!(x.to_string(), "0.1.0-alpha.1+b7");
}

#[test]
fn version_precedence() {
    assert_eq!(v(1, 0, 0).compare(&v(1, 0, 1)), Some(Ordering::Less));
    assert_eq!(v(2, 0, 0).compare(&v(1, 9, 9)), Some(Ordering::Greater));
    assert_eq!(v(1, 2, 3).compare(&v(1, 2, 3)), Some(Ordering::Equal));
    assert_eq!(pre(1, 0, 0, "alpha").compare(&v(1, 0, 0)), Some(Ordering::Less));
    assert_eq!(pre(1, 0, 0, "alpha").compare(&pre(1, 0, 0, "beta")), Some(Ordering::Less));
    assert_eq!(pre(1, 0, 0, "alpha.10").compare(&pre(1, 0, 0, "alpha.9")), Some(Ordering::Greater));
    assert_eq!(pre(1, 0, 0, "bad..pre").compare(&v(1, 0, 0)), None);
    let mut b = v(1, 0, 0);
    b.build = "2".to_string();
    let mut c = v(1, 0, 0);
    c.build = "10".to_string();
    assert_eq!(b.compare(&c), Some(Ordering::Less));
}

fn name(ns: &str, n: &str, version: Option<Version>) -> PackageName {
    PackageName { namespace: ns.to_string(), name: n.to_string(), version }
}

#[test]
fn package_name_text() {
    assert_eq!(name("wasi", "io", None).to_string(), "wasi:io");
    assert_eq!(name("wasi", "io", Some(v(0, 2, 0))).to_string(), "wasi:io@0.2.0");
    assert_eq!(name("wasi", "io", None).interface_id("poll"), "wasi:io/poll");
    assert_eq!(name("wasi", "io", Some(v(1, 0, 1))).interface_id("poll"), "wasi:io/poll@1.0.1");
}

fn package(n: PackageName) -> Package {
    Package { name: n, docs: Docs::default(), interfaces: Vec::new(), worlds: Vec::new() }
}

#[test]
fn package_lookup() {
    let mut resolve = Resolve::default();
    let a = resolve.packages.allocate(package(name("wasi", "io", Some(v(0, 2, 0)))));
    let b = resolve.packages.allocate(package(name("wasi", "io", Some(v(1, 0, 0)))));
    let span = Span { start: 1, end: 2 };
    assert_eq!(resolve.find_package(&name("wasi", "io", None), span).unwrap(), a);
    assert_eq!(resolve.find_package(&name("wasi", "io", Some(v(0, 2, 5))), span).unwrap(), a);
    assert_eq!(resolve.find_package(&name("wasi", "io", Some(v(1, 3, 0))), span).unwrap(), b);
    let err = resolve.find_package(&name("wasi", "cli", None), span).unwrap_err();
    assert_eq!(err.known.len(), 2);
    assert_eq!(
        err.message(),
        "package 'wasi:cli' not found. known packages:\n    wasi:io@0.2.0\n    wasi:io@1.0.0\n"
    );
    let err = resolve.find_package(&name("wasi", "io", Some(v(0, 3, 0))), span).unwrap_err();
    assert_eq!(err.requested.to_string(), "wasi:io@0.3.0");
}

#[test]
fn package_not_found_without_packages() {
    let resolve = Resolve::default();
    let err = resolve.find_package(&name("a", "b", None), Span { start: 0, end: 0 }).unwrap_err();
    assert_eq!(err.message(), "package 'a:b' not found. no known packages.");
}

fn unstable(feature: &str) -> Stability {
    Stability::Unstable { feature: feature.to_string(), deprecated: None }
}

fn stable(x: Version) -> Stability {
    Stability::Stable { since: x, deprecated: None }
}

#[test]
fn stability_order() {
    let unknown = Stability::Unknown;
    assert_eq!(unknown.compare(&unstable("x")), Some(Ordering::Less));
    assert_eq!(unstable("x").compare(&stable(v(1, 0, 0))), Some(Ordering::Less));
    assert_eq!(unknown.compare(&stable(v(1, 0, 0))), Some(Ordering::Less));
    assert_eq!(stable(v(1, 0, 0)).compare(&unstable("x")), Some(Ordering::Greater));
    assert_eq!(unstable("a").compare(&unstable("b")), Some(Ordering::Less));
    assert_eq!(stable(v(1, 0, 0)).compare(&stable(v(1, 1, 0))), Some(Ordering::Less));
    assert_eq!(unknown.compare(&Stability::default()), Some(Ordering::Equal));
    assert!(Stability::default().is_unknown());
    assert!(stable(v(1, 0, 0)).is_stable());
    assert!(!unstable("x").is_stable());
}

#[test]
fn stability_gating() {
    let none: Vec<String> = Vec::new();
    let x = vec!["x".to_string()];
    let y = vec!["y".to_string()];
    assert!(stable(v(1, 0, 0)).is_visible(&none, false));
    assert!(Stability::Unknown.is_visible(&none, false));
    assert!(!unstable("x").is_visible(&none, false));
    assert!(!unstable("x").is_visible(&y, false));
    assert!(unstable("x").is_visible(&x, false));
    assert!(unstable("x").is_visible(&none, true));
}

#[test]
fn foreign_packages_resolve_in_order() {
    let mut resolve = Resolve::default();
    let io = resolve.packages.allocate(package(name("wasi", "io", Some(v(0, 2, 1)))));
    let cli = resolve.packages.allocate(package(name("wasi", "cli", Some(v(0, 2, 0)))));
    let mut interfaces = Arena::new();
    let poll = interfaces.allocate(wit_parser::Interface {
        name: Some("poll".to_string()),
        types: Vec::new(),
        functions: Vec::new(),
        docs: Docs::default(),
        stability: Stability::Unknown,
        package: None,
    });
    let mut pkg = UnresolvedPackage {
        name: name("my", "app", None),
        worlds: Arena::new(),
        interfaces,
        types: Arena::new(),
        foreign_deps: vec![
            (name("wasi", "cli", Some(v(0, 2, 3))), Vec::new()),
            (name("wasi", "io", Some(v(0, 2, 0))), vec![("poll".to_string(), AstItem::Interface(poll))]),
        ],
        docs: Docs::default(),
    };
    let span = Span { start: 0, end: 4 };
    assert_eq!(resolve.find_foreign_packages(&pkg, span).unwrap(), vec![cli, io]);
    pkg.foreign_deps.push((name("wasi", "http", None), Vec::new()));
    let err = resolve.find_foreign_packages(&pkg, span).unwrap_err();
    assert_eq!(err.requested.to_string(), "wasi:http");
    assert_eq!(err.known.len(), 2);
}
