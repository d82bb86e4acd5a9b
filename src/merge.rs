//! Merging: folding one world's items into another's, and collapsing
//! interface imports that sit on one semver compatibility track.
use vstd::prelude::*;
use std::cmp::Ordering;
use crate::error::Error;
use crate::resolve::{Package, Resolve};
use crate::types::WorldId;
use crate::version::{PackageName, Version, compat_track, version_order};
use crate::world::{Interface, World, WorldItem, WorldItems, WorldKey, has_key, key_eq, keys_unique, position_of, same_shape};

verus! {

/// An entry of a world's import or export list.
pub type Entry = (WorldKey, WorldItem);

/// Every entry of `items` whose key collides with `e`'s describes the same
/// thing as `e`.
pub open spec fn agrees_with(items: Seq<Entry>, e: Entry) -> bool {
    forall|i: int| 0 <= i < items.len() && key_eq(#[trigger] items[i].0, e.0) ==> same_shape(items[i].1, e.1)
}

/// `into` with the entries of `from` folded in, in order: an entry whose key
/// is new is appended, one whose key is present must describe the same thing
/// as what is there, and any disagreement makes the merge fail (`None`).
pub open spec fn merged_items(into: Seq<Entry>, from: Seq<Entry>) -> Option<Seq<Entry>>
    decreases from.len(),
{
    if from.len() == 0 {
        Some(into)
    } else {
        match merged_items(into, from.drop_last()) {
            None => None,
            Some(acc) => {
                let e = from.last();
                if has_key(acc, e.0) {
                    if agrees_with(acc, e) {
                        Some(acc)
                    } else {
                        None
                    }
                } else {
                    Some(acc.push(e))
                }
            },
        }
    }
}

proof fn lemma_merge_failure_persists(into: Seq<Entry>, from: Seq<Entry>, k: int)
    requires
        0 <= k <= from.len(),
        merged_items(into, from.subrange(0, k)) is None,
    ensures
        merged_items(into, from) is None,
    decreases from.len() - k,
{
    if k < from.len() {
        assert(from.subrange(0, k + 1).drop_last() =~= from.subrange(0, k));
        lemma_merge_failure_persists(into, from, k + 1);
    } else {
        assert(from.subrange(0, k) =~= from);
    }
}

/// Folding items in keeps the keys of a list free of collisions.
pub proof fn lemma_merge_keeps_keys_unique(into: Seq<Entry>, from: Seq<Entry>)
    requires
        keys_unique(into),
        merged_items(into, from) is Some,
    ensures
        keys_unique(merged_items(into, from)->0),
    decreases from.len(),
{
    if from.len() > 0 {
        lemma_merge_keeps_keys_unique(into, from.drop_last());
        let acc = merged_items(into, from.drop_last())->0;
        let e = from.last();
        if !has_key(acc, e.0) {
            let out = acc.push(e);
            assert forall|i: int, j: int| 0 <= i < j < out.len() implies !key_eq(#[trigger] out[i].0, #[trigger] out[j].0) by {
                if j == acc.len() {
                    assert(out[i] == acc[i]);
                    if key_eq(out[i].0, out[j].0) {
                        assert(key_eq(acc[i].0, e.0));
                    }
                } else {
                    assert(out[i] == acc[i] && out[j] == acc[j]);
                }
            }
        }
    }
}

fn agrees_with_all(items: &WorldItems, e: &Entry) -> (r: bool)
    ensures
        r == agrees_with(items@, *e),
{
    let mut i: usize = 0;
    while i < items.len()
        invariant
            i <= items@.len(),
            forall|j: int| 0 <= j < i && key_eq(#[trigger] items@[j].0, e.0) ==> same_shape(items@[j].1, e.1),
        decreases items@.len() - i,
    {
        if items[i].0.same_key(&e.0) && !items[i].1.same_shape_as(&e.1) {
            return false;
        }
        i = i + 1;
    }
    true
}

/// Folds the entries of `from` into `into` (see [`merged_items`]); on
/// failure `into` is left as it was.
pub fn merge_world_items(into: &mut WorldItems, from: WorldItems) -> (r: Result<(), Error>)
    ensures
        r is Ok <==> merged_items(old(into)@, from@) is Some,
        r is Ok ==> final(into)@ == merged_items(old(into)@, from@)->0,
        r is Err ==> final(into)@ == old(into)@,
        r is Ok && keys_unique(old(into)@) ==> keys_unique(final(into)@),
{
    let ghost orig = from@;
    let ghost start = into@;
    let old_len = into.len();
    let mut rest = from;
    let n = rest.len();
    let mut k: usize = 0;
    assert(orig.subrange(0, 0) =~= Seq::<Entry>::empty());
    while k < n
        invariant
            n == orig.len(),
            k <= n,
            orig == from@,
            start == old(into)@,
            old_len == start.len(),
            rest@ == orig.subrange(k as int, n as int),
            merged_items(start, orig.subrange(0, k as int)) == Some(into@),
            old_len <= into@.len(),
            into@.subrange(0, old_len as int) == start,
        decreases n - k,
    {
        let e = rest.remove(0);
        assert(e == orig[k as int]);
        assert(orig.subrange(0, k + 1).drop_last() =~= orig.subrange(0, k as int));
        assert(orig.subrange(0, k + 1).last() == e);
        match position_of(into, &e.0) {
            Some(_) => {
                if !agrees_with_all(into, &e) {
                    proof {
                        let acc = into@;
                        assert(merged_items(start, orig.subrange(0, k as int)) == Some(acc));
                        assert(has_key(acc, e.0));
                        assert(merged_items(start, orig.subrange(0, k + 1)) is None);
                        lemma_merge_failure_persists(start, orig, k + 1);
                    }
                    into.truncate(old_len);

                    let mut msg = String::new();
                    msg.append("conflicting definitions of `");
                    msg.append(e.0.into_string().as_str());
                    msg.append("` in the worlds being merged");
                    return Err(Error::without_span(msg));
                }
            },
            None => {
                into.push(e);
                assert(into@.subrange(0, old_len as int) =~= start);
            },
        }
        assert(rest@ =~= orig.subrange(k + 1, n as int));
        k = k + 1;
    }
    assert(orig.subrange(0, n as int) =~= orig);
    proof {
        if keys_unique(start) {
            lemma_merge_keeps_keys_unique(start, orig);
        }
    }
    Ok(())
}

impl World {
    /// Folds the imports and exports of `other` into this world's. On
    /// failure neither list changes.
    pub fn merge_from(&mut self, other: World) -> (r: Result<(), Error>)
        ensures
            r is Ok <==> (merged_items(old(self).imports@, other.imports@) is Some && merged_items(
                old(self).exports@,
                other.exports@,
            ) is Some),
            r is Ok ==> final(self).imports@ == merged_items(old(self).imports@, other.imports@)->0,
            r is Ok ==> final(self).exports@ == merged_items(old(self).exports@, other.exports@)->0,
            r is Err ==> final(self).imports@ == old(self).imports@ && final(self).exports@ == old(self).exports@,
            r is Ok && keys_unique(old(self).imports@) ==> keys_unique(final(self).imports@),
            r is Ok && keys_unique(old(self).exports@) ==> keys_unique(final(self).exports@),
            final(self).name == old(self).name,
            final(self).package == old(self).package,
    {
        let imports_len = self.imports.len();
        let World { imports, exports, .. } = other;
        merge_world_items(&mut self.imports, imports)?;
        match merge_world_items(&mut self.exports, exports) {
            Ok(()) => Ok(()),
            Err(e) => {
                self.imports.truncate(imports_len);
                proof {
                    lemma_merge_extends(old(self).imports@, other.imports@);
                }
                Err(e)
            },
        }
    }
}

proof fn lemma_merge_extends(into: Seq<Entry>, from: Seq<Entry>)
    requires
        merged_items(into, from) is Some,
    ensures
        merged_items(into, from)->0.len() >= into.len(),
        merged_items(into, from)->0.subrange(0, into.len() as int) == into,
    decreases from.len(),
{
    if from.len() > 0 {
        lemma_merge_extends(into, from.drop_last());
        let acc = merged_items(into, from.drop_last())->0;
        assert(acc.push(from.last()).subrange(0, into.len() as int) =~= acc.subrange(0, into.len() as int));
    } else {
        assert(into.subrange(0, into.len() as int) =~= into);
    }
}

/// For an import of a named interface of a versioned package: the package's
/// namespace and name, the interface's name, and the package version.
pub open spec fn interface_track(interfaces: Seq<Interface>, packages: Seq<Package>, key: WorldKey) -> Option<
    (Seq<char>, Seq<char>, Seq<char>, Version),
> {
    match key {
        WorldKey::Interface(id) => if id.spec_index() < interfaces.len() {
            let iface = interfaces[id.spec_index() as int];
            match (iface.name, iface.package) {
                (Some(n), Some(p)) => if p.spec_index() < packages.len() {
                    let pn = packages[p.spec_index() as int].name;
                    match pn.version {
                        Some(v) => Some((pn.namespace@, pn.name@, n@, v)),
                        None => None,
                    }
                } else {
                    None
                },
                _ => None,
            }
        } else {
            None
        },
        _ => None,
    }
}

/// The import keyed `newer` names the same interface as the one keyed
/// `older`, on the same compatibility track, at a strictly higher version.
pub open spec fn supersedes(interfaces: Seq<Interface>, packages: Seq<Package>, newer: WorldKey, older: WorldKey) -> bool {
    match (interface_track(interfaces, packages, newer), interface_track(interfaces, packages, older)) {
        (Some(a), Some(b)) => a.0 == b.0 && a.1 == b.1 && a.2 == b.2 && compat_track(a.3) == compat_track(b.3)
            && version_order(a.3, b.3) == Some(Ordering::Greater),
        _ => false,
    }
}

/// Some import of `imports` supersedes `e`.
pub open spec fn superseded_in(interfaces: Seq<Interface>, packages: Seq<Package>, imports: Seq<Entry>, e: Entry) -> bool {
    exists|j: int| 0 <= j < imports.len() && supersedes(interfaces, packages, #[trigger] imports[j].0, e.0)
}

/// Keeps the imports that nothing in `imports` supersedes.
pub open spec fn keep_pred(interfaces: Seq<Interface>, packages: Seq<Package>, imports: Seq<Entry>) -> spec_fn(Entry) -> bool {
    |e: Entry| !superseded_in(interfaces, packages, imports, e)
}

/// The imports left once every import superseded by a newer version on the
/// same track has been absorbed into it.
pub open spec fn semver_merged(interfaces: Seq<Interface>, packages: Seq<Package>, imports: Seq<Entry>) -> Seq<Entry> {
    imports.filter(keep_pred(interfaces, packages, imports))
}

fn interface_track_exec<'a>(res: &'a Resolve, key: &WorldKey) -> (r: Option<(&'a String, &'a String, &'a String, &'a Version)>)
    ensures
        match interface_track(res.interfaces@, res.packages@, *key) {
            None => r is None,
            Some(t) => r matches Some(x) && x.0@ == t.0 && x.1@ == t.1 && x.2@ == t.2 && *x.3 == t.3,
        },
{
    let id = match key {
        WorldKey::Interface(id) => *id,
        _ => return None,
    };
    let iface = match res.interfaces.get(id) {
        Some(i) => i,
        None => return None,
    };
    let (name, pkg) = match (&iface.name, &iface.package) {
        (Some(n), Some(p)) => (n, *p),
        _ => return None,
    };
    let package = match res.packages.get(pkg) {
        Some(p) => p,
        None => return None,
    };
    match &package.name.version {
        Some(v) => Some((&package.name.namespace, &package.name.name, name, v)),
        None => None,
    }
}

fn supersedes_exec(res: &Resolve, newer: &WorldKey, older: &WorldKey) -> (r: bool)
    ensures
        r == supersedes(res.interfaces@, res.packages@, *newer, *older),
{
    let a = match interface_track_exec(res, newer) {
        Some(a) => a,
        None => return false,
    };
    let b = match interface_track_exec(res, older) {
        Some(b) => b,
        None => return false,
    };
    if !(*a.0 == *b.0 && *a.1 == *b.1 && *a.2 == *b.2) {
        return false;
    }
    let ta = PackageName::version_compat_track(a.3);
    let tb = PackageName::version_compat_track(b.3);
    if !(ta.major == tb.major && ta.minor == tb.minor && ta.patch == tb.patch && ta.pre == tb.pre) {
        return false;
    }
    match a.3.compare(b.3) {
        Some(Ordering::Greater) => true,
        _ => false,
    }
}

fn semver_keep_mask(res: &Resolve, imports: &WorldItems) -> (r: Vec<bool>)
    ensures
        r@.len() == imports@.len(),
        forall|i: int| 0 <= i < imports@.len() ==> r@[i] == !superseded_in(
            res.interfaces@,
            res.packages@,
            imports@,
            #[trigger] imports@[i],
        ),
{
    let mut keep: Vec<bool> = Vec::new();
    let mut i: usize = 0;
    while i < imports.len()
        invariant
            i <= imports@.len(),
            keep@.len() == i,
            forall|k: int| 0 <= k < i ==> keep@[k] == !superseded_in(
                res.interfaces@,
                res.packages@,
                imports@,
                #[trigger] imports@[k],
            ),
        decreases imports@.len() - i,
    {
        let mut j: usize = 0;
        let mut superseded = false;
        while j < imports.len()
            invariant
                i < imports@.len(),
                j <= imports@.len(),
                superseded == exists|m: int| 0 <= m < j && supersedes(res.interfaces@, res.packages@, #[trigger] imports@[m].0, imports@[i as int].0),
            decreases imports@.len() - j,
        {
            if !superseded && supersedes_exec(res, &imports[j].0, &imports[i].0) {
                superseded = true;
            }
            j = j + 1;
        }
        keep.push(!superseded);
        i = i + 1;
    }
    keep
}

impl Resolve {
    /// Collapses the interface imports of `world` that lie on one semver
    /// compatibility track: each import superseded by a higher version of the
    /// same interface on the same track is dropped in favour of it. Imports
    /// on different tracks, and imports that are not versioned interfaces,
    /// stay. Fails, changing nothing, when `world` is not in the graph.
    pub fn merge_world_imports_based_on_semver(&mut self, world: WorldId) -> (r: Result<(), Error>)
        ensures
            r is Ok <==> world.spec_index() < old(self).worlds@.len(),
            r is Err ==> *final(self) == *old(self),
            r is Ok ==> {
                let w = world.spec_index() as int;
                let before = old(self).worlds@[w];
                let after = final(self).worlds@[w];
                &&& final(self).worlds@.len() == old(self).worlds@.len()
                &&& forall|i: int| 0 <= i < old(self).worlds@.len() && i != w ==> final(self).worlds@[i] == old(self).worlds@[i]
                &&& after.imports@ == semver_merged(old(self).interfaces@, old(self).packages@, before.imports@)
                &&& after.exports == before.exports
                &&& after.name == before.name
                &&& after.package == before.package
                &&& after.includes == before.includes
                &&& final(self).interfaces == old(self).interfaces
                &&& final(self).types == old(self).types
                &&& final(self).packages == old(self).packages
            },
    {
        if world.index() >= self.worlds.len() {
            let msg = String::from_str("world not found in the graph");
            return Err(Error::without_span(msg));
        }
        let keep = semver_keep_mask(self, &self.worlds.get(world).unwrap().imports);
        let ghost ifs = self.interfaces@;
        let ghost pkgs = self.packages@;
        let mut w = self.worlds.replace(world, World::new(String::new()));
        let ghost before = w;
        let mut rest: WorldItems = Vec::new();
        core::mem::swap(&mut w.imports, &mut rest);
        let ghost orig = rest@;
        let ghost p = keep_pred(ifs, pkgs, orig);
        let n = rest.len();
        let mut out: WorldItems = Vec::new();
        let mut i: usize = 0;
        proof {
            reveal(Seq::filter);
            assert(orig.subrange(0, 0) =~= Seq::<Entry>::empty());
        }
        while i < n
            invariant
                n == orig.len(),
                i <= n,
                keep@.len() == n,
                forall|k: int| 0 <= k < n ==> keep@[k] == p(#[trigger] orig[k]),
                rest@ == orig.subrange(i as int, n as int),
                out@ == orig.subrange(0, i as int).filter(p),
            decreases n - i,
        {
            let e = rest.remove(0);
            assert(e == orig[i as int]);
            proof {
                reveal(Seq::filter);
                assert(orig.subrange(0, i + 1).drop_last() =~= orig.subrange(0, i as int));
                assert(orig.subrange(0, i + 1).last() == e);
            }
            if keep[i] {
                out.push(e);
            }
            assert(rest@ =~= orig.subrange(i + 1, n as int));
            i = i + 1;
        }
        assert(orig.subrange(0, n as int) =~= orig);
        w.imports = out;
        let _ = self.worlds.replace(world, w);
        Ok(())
    }
}

proof fn lemma_filter_all(s: Seq<Entry>, p: spec_fn(Entry) -> bool)
    requires
        forall|i: int| 0 <= i < s.len() ==> p(#[trigger] s[i]),
    ensures
        s.filter(p) == s,
    decreases s.len(),
{
    reveal(Seq::filter);
    if s.len() > 0 {
        lemma_filter_all(s.drop_last(), p);
        assert(s.drop_last().push(s.last()) =~= s);
    }
}

/// Merging a world's imports by semver a second time changes nothing.
pub proof fn lemma_semver_merge_idempotent(interfaces: Seq<Interface>, packages: Seq<Package>, imports: Seq<Entry>)
    ensures
        semver_merged(interfaces, packages, semver_merged(interfaces, packages, imports)) == semver_merged(
            interfaces,
            packages,
            imports,
        ),
{
    broadcast use vstd::seq_lib::group_filter_ensures;

    let p = keep_pred(interfaces, packages, imports);
    let m = imports.filter(p);
    assert forall|i: int| 0 <= i < m.len() implies #[trigger] keep_pred(interfaces, packages, m)(m[i]) by {
        assert(p(m[i]));
        if superseded_in(interfaces, packages, m, m[i]) {
            let j = choose|j: int| 0 <= j < m.len() && supersedes(interfaces, packages, #[trigger] m[j].0, m[i].0);
            assert(m.contains(m[j]));
            imports.lemma_filter_contains_rev(p, m[j]);
            let k = choose|k: int| 0 <= k < imports.len() && imports[k] == m[j];
            assert(supersedes(interfaces, packages, imports[k].0, m[i].0));
            assert(superseded_in(interfaces, packages, imports, m[i]));
        }
    }
    lemma_filter_all(m, keep_pred(interfaces, packages, m));
}

/// Of two imports, one superseding the other, only the newer stays; two
/// imports where neither supersedes the other (different interfaces, or
/// different tracks) both stay, in order.
pub proof fn lemma_semver_merge_pair(interfaces: Seq<Interface>, packages: Seq<Package>, older: Entry, newer: Entry)
    requires
        !supersedes(interfaces, packages, older.0, older.0),
        !supersedes(interfaces, packages, newer.0, newer.0),
    ensures
        supersedes(interfaces, packages, newer.0, older.0) && !supersedes(interfaces, packages, older.0, newer.0)
            ==> semver_merged(interfaces, packages, seq![older, newer]) == seq![newer],
        !supersedes(interfaces, packages, newer.0, older.0) && !supersedes(interfaces, packages, older.0, newer.0)
            ==> semver_merged(interfaces, packages, seq![older, newer]) == seq![older, newer],
{
    reveal(Seq::filter);
    let s = seq![older, newer];
    let p = keep_pred(interfaces, packages, s);
    assert(s.drop_last() =~= seq![older]);
    assert(seq![older].drop_last() =~= Seq::<Entry>::empty());
    if supersedes(interfaces, packages, newer.0, older.0) {
        assert(s[1].0 == newer.0);
        assert(superseded_in(interfaces, packages, s, older));
        assert(!p(older));
    }
    if !supersedes(interfaces, packages, older.0, newer.0) {
        assert forall|j: int| 0 <= j < s.len() implies !supersedes(interfaces, packages, #[trigger] s[j].0, newer.0) by {
            if j == 0 {
                assert(s[j] == older);
            } else {
                assert(s[j] == newer);
            }
        }
        assert(p(newer));
    }
    if !supersedes(interfaces, packages, newer.0, older.0) {
        assert forall|j: int| 0 <= j < s.len() implies !supersedes(interfaces, packages, #[trigger] s[j].0, older.0) by {
            if j == 0 {
                assert(s[j] == older);
            } else {
                assert(s[j] == newer);
            }
        }
        assert(p(older));
    }
    assert(Seq::<Entry>::empty().filter(p) =~= Seq::<Entry>::empty());
    if supersedes(interfaces, packages, newer.0, older.0) && !supersedes(interfaces, packages, older.0, newer.0) {
        assert(seq![older].filter(p) =~= Seq::<Entry>::empty());
        assert(s.filter(p) =~= seq![newer]);
    }
    if !supersedes(interfaces, packages, newer.0, older.0) && !supersedes(interfaces, packages, older.0, newer.0) {
        assert(seq![older].filter(p) =~= seq![older]);
        assert(s.filter(p) =~= seq![older, newer]);
    }
}

/// When no import supersedes another, merging by semver keeps every import,
/// in order.
pub proof fn lemma_semver_merge_keeps_unrelated(interfaces: Seq<Interface>, packages: Seq<Package>, imports: Seq<Entry>)
    requires
        forall|i: int, j: int| 0 <= i < imports.len() && 0 <= j < imports.len() ==> !supersedes(
            interfaces,
            packages,
            #[trigger] imports[j].0,
            #[trigger] imports[i].0,
        ),
    ensures
        semver_merged(interfaces, packages, imports) == imports,
{
    lemma_filter_all(imports, keep_pred(interfaces, packages, imports));
}

} // verus!
