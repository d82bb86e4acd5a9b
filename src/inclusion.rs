//! Include expansion: splicing the items of included worlds into a world,
//! under the renamings declared for each included world.
use vstd::prelude::*;
use crate::error::Error;
use crate::function::Function;
use crate::merge::Entry;
use crate::resolve::Resolve;
use crate::types::{Type, WorldId};
use crate::world::{IncludeName, World, WorldItem, WorldItems, WorldKey, has_key, key_eq, position_of};

verus! {

/// `b` is a copy of `a`: equal in every field, lists equal element-wise.
pub open spec fn copy_of(a: WorldItem, b: WorldItem) -> bool {
    match (a, b) {
        (WorldItem::Function(f), WorldItem::Function(g)) => {
            &&& f.name == g.name
            &&& f.kind == g.kind
            &&& f.params@ == g.params@
            &&& f.result == g.result
            &&& f.docs == g.docs
            &&& f.stability == g.stability
        },
        _ => a == b,
    }
}

/// `b` holds copies of the entries of `a`, under the same keys.
pub open spec fn copies(a: Seq<Entry>, b: Seq<Entry>) -> bool {
    &&& a.len() == b.len()
    &&& forall|i: int| 0 <= i < a.len() ==> #[trigger] b[i].0 == a[i].0 && copy_of(a[i].1, b[i].1)
}

fn copy_function(f: &Function) -> (r: Function)
    ensures
        copy_of(WorldItem::Function(*f), WorldItem::Function(r)),
{
    let mut params: Vec<(String, Type)> = Vec::new();
    let mut i: usize = 0;
    while i < f.params.len()
        invariant
            i <= f.params@.len(),
            params@ == f.params@.subrange(0, i as int),
        decreases f.params@.len() - i,
    {
        let p = &f.params[i];
        params.push((p.0.clone(), p.1));
        assert(params@ =~= f.params@.subrange(0, i + 1));
        i = i + 1;
    }
    assert(params@ =~= f.params@);
    Function {
        name: f.name.clone(),
        kind: f.kind,
        params,
        result: f.result,
        docs: crate::types::Docs {
            contents: match &f.docs.contents {
                Some(c) => Some(c.clone()),
                None => None,
            },
        },
        stability: f.stability.duplicate(),
    }
}

impl WorldItem {
    /// A copy of this item.
    pub fn copy(&self) -> (r: WorldItem)
        ensures
            copy_of(*self, r),
    {
        match self {
            WorldItem::Interface { id, stability } => WorldItem::Interface { id: *id, stability: stability.duplicate() },
            WorldItem::Function(f) => WorldItem::Function(copy_function(f)),
            WorldItem::Type(id) => WorldItem::Type(*id),
        }
    }
}

/// Position `i` holds the first renaming of the name `n`.
pub open spec fn is_first_rename(names: Seq<IncludeName>, n: Seq<char>, i: int) -> bool {
    &&& 0 <= i < names.len()
    &&& names[i].name@ == n
    &&& forall|j: int| 0 <= j < i ==> names[j].name@ != n
}

/// The key an included entry takes: a name renamed by its first renaming,
/// if there is one; anything else unchanged.
pub open spec fn include_key(key: WorldKey, names: Seq<IncludeName>) -> WorldKey {
    match key {
        WorldKey::Name(n) => if exists|i: int| is_first_rename(names, n@, i) {
            WorldKey::Name(names[choose|i: int| is_first_rename(names, n@, i)].as_)
        } else {
            key
        },
        _ => key,
    }
}

/// `acc` with the entries of `src` spliced in, in order, under their
/// renamed keys: an interface already present is skipped, a name already
/// present is a collision and fails the splice (`None`).
pub open spec fn included_items(acc: Seq<Entry>, src: Seq<Entry>, names: Seq<IncludeName>) -> Option<Seq<Entry>>
    decreases src.len(),
{
    if src.len() == 0 {
        Some(acc)
    } else {
        match included_items(acc, src.drop_last(), names) {
            None => None,
            Some(a) => {
                let e = src.last();
                let k = include_key(e.0, names);
                if has_key(a, k) {
                    if k is Interface {
                        Some(a)
                    } else {
                        None
                    }
                } else {
                    Some(a.push((k, e.1)))
                }
            },
        }
    }
}

/// Splicing in the includes `k..` in order, each with its renamings,
/// starting from `acc`; `imports` picks the import or the export lists.
pub open spec fn expanded_items(
    acc: Seq<Entry>,
    worlds: Seq<World>,
    includes: Seq<(crate::stability::Stability, WorldId)>,
    names: Seq<Vec<IncludeName>>,
    imports: bool,
) -> Option<Seq<Entry>>
    decreases includes.len(),
{
    if includes.len() == 0 {
        Some(acc)
    } else {
        match expanded_items(acc, worlds, includes.drop_last(), names, imports) {
            None => None,
            Some(a) => {
                let k = includes.len() - 1;
                let inc = worlds[includes[k].1.spec_index() as int];
                included_items(a, if imports { inc.imports@ } else { inc.exports@ }, names[k]@)
            },
        }
    }
}

fn renamed_key(key: &WorldKey, names: &Vec<IncludeName>) -> (r: WorldKey)
    ensures
        r == include_key(*key, names@),
{
    match key {
        WorldKey::Name(n) => {
            let mut i: usize = 0;
            while i < names.len()
                invariant
                    *key == WorldKey::Name(*n),
                    i <= names@.len(),
                    forall|j: int| 0 <= j < i ==> names@[j].name@ != n@,
                decreases names@.len() - i,
            {
                if names[i].name == *n {
                    proof {
                        assert(is_first_rename(names@, n@, i as int));
                        let c = choose|c: int| is_first_rename(names@, n@, c);
                        if c < i {
                            assert(names@[c].name@ != n@);
                        }
                        if c > i {
                            assert(names@[i as int].name@ != n@);
                        }
                    }
                    return WorldKey::Name(names[i].as_.clone());
                }
                i = i + 1;
            }
            WorldKey::Name(n.clone())
        },
        WorldKey::Interface(id) => WorldKey::Interface(*id),
    }
}

proof fn lemma_copies_has_key(a: Seq<Entry>, b: Seq<Entry>, k: WorldKey)
    requires
        copies(a, b),
    ensures
        has_key(a, k) == has_key(b, k),
{
    if has_key(a, k) {
        let i = choose|i: int| 0 <= i < a.len() && key_eq(#[trigger] a[i].0, k);
        assert(b[i].0 == a[i].0);
    }
    if has_key(b, k) {
        let i = choose|i: int| 0 <= i < b.len() && key_eq(#[trigger] b[i].0, k);
        assert(b[i].0 == a[i].0);
    }
}

proof fn lemma_include_failure_persists(acc: Seq<Entry>, src: Seq<Entry>, names: Seq<IncludeName>, k: int)
    requires
        0 <= k <= src.len(),
        included_items(acc, src.subrange(0, k), names) is None,
    ensures
        included_items(acc, src, names) is None,
    decreases src.len() - k,
{
    if k < src.len() {
        assert(src.subrange(0, k + 1).drop_last() =~= src.subrange(0, k));
        lemma_include_failure_persists(acc, src, names, k + 1);
    } else {
        assert(src.subrange(0, k) =~= src);
    }
}

/// Splices copies of the entries of `src` into `into`, whose entries are
/// copies of `model`. On success the result copies
/// `included_items(model, src, names)`; on failure `into` has only grown.
fn include_into(into: &mut WorldItems, src: &WorldItems, names: &Vec<IncludeName>, Ghost(model): Ghost<Seq<Entry>>) -> (r: bool)
    requires
        copies(model, old(into)@),
    ensures
        r <==> included_items(model, src@, names@) is Some,
        r ==> copies(included_items(model, src@, names@)->0, final(into)@),
        final(into)@.len() >= old(into)@.len(),
        final(into)@.subrange(0, old(into)@.len() as int) == old(into)@,
{
    let ghost start = into@;
    let n = src.len();
    let mut k: usize = 0;
    let ghost mut acc = model;
    assert(src@.subrange(0, 0) =~= Seq::<Entry>::empty());
    assert(into@.subrange(0, start.len() as int) =~= start);
    while k < n
        invariant
            n == src@.len(),
            k <= n,
            start == old(into)@,
            included_items(model, src@.subrange(0, k as int), names@) == Some(acc),
            copies(acc, into@),
            into@.len() >= start.len(),
            into@.subrange(0, start.len() as int) == start,
        decreases n - k,
    {
        let e = &src[k];
        assert(src@.subrange(0, k + 1).drop_last() =~= src@.subrange(0, k as int));
        assert(src@.subrange(0, k + 1).last() == src@[k as int]);
        let key = renamed_key(&e.0, names);
        proof {
            lemma_copies_has_key(acc, into@, key);
        }
        match position_of(into, &key) {
            Some(_) => {
                if let WorldKey::Name(_) = key {
                    proof {
                        lemma_include_failure_persists(model, src@, names@, k + 1);
                    }
                    return false;
                }
            },
            None => {
                let item = e.1.copy();
                let ghost before = into@;
                into.push((key, item));
                proof {
                    let next = acc.push((key, src@[k as int].1));
                    assert forall|i: int| 0 <= i < next.len() implies #[trigger] into@[i].0 == next[i].0 && copy_of(
                        next[i].1,
                        into@[i].1,
                    ) by {
                        if i < acc.len() {
                            assert(into@[i] == before[i]);
                        }
                    }
                    acc = next;
                    assert(into@.subrange(0, start.len() as int) =~= before.subrange(0, start.len() as int));
                }
            },
        }
        k = k + 1;
    }
    assert(src@.subrange(0, n as int) =~= src@);
    true
}

proof fn lemma_expanded_failure_persists(
    acc: Seq<Entry>,
    worlds: Seq<World>,
    includes: Seq<(crate::stability::Stability, WorldId)>,
    names: Seq<Vec<IncludeName>>,
    imports: bool,
    k: int,
)
    requires
        0 <= k <= includes.len(),
        expanded_items(acc, worlds, includes.subrange(0, k), names, imports) is None,
    ensures
        expanded_items(acc, worlds, includes, names, imports) is None,
    decreases includes.len() - k,
{
    if k < includes.len() {
        assert(includes.subrange(0, k + 1).drop_last() =~= includes.subrange(0, k));
        lemma_expanded_failure_persists(acc, worlds, includes, names, imports, k + 1);
    } else {
        assert(includes.subrange(0, k) =~= includes);
    }
}

/// The includes of world `w` can be expanded: each names another world of
/// the arena, one whose own includes are already expanded, and each has its
/// list of renamings.
pub open spec fn includes_ready(worlds: Seq<World>, w: int) -> bool {
    let world = worlds[w];
    &&& world.include_names@.len() == world.includes@.len()
    &&& forall|k: int| 0 <= k < world.includes@.len() ==> {
        let i = (#[trigger] world.includes@[k]).1.spec_index();
        &&& i < worlds.len()
        &&& i != w
        &&& worlds[i as int].includes@.len() == 0
    }
}

impl Resolve {
    fn includes_ready_exec(&self, world: WorldId) -> (r: bool)
        requires
            world.spec_index() < self.worlds@.len(),
        ensures
            r == includes_ready(self.worlds@, world.spec_index() as int),
    {
        let w = self.worlds.get(world).unwrap();
        if w.include_names.len() != w.includes.len() {
            return false;
        }
        let mut k: usize = 0;
        while k < w.includes.len()
            invariant
                world.spec_index() < self.worlds@.len(),
                *w == self.worlds@[world.spec_index() as int],
                k <= w.includes@.len(),
                forall|j: int| 0 <= j < k ==> {
                    let i = (#[trigger] w.includes@[j]).1.spec_index();
                    &&& i < self.worlds@.len()
                    &&& i != world.spec_index()
                    &&& self.worlds@[i as int].includes@.len() == 0
                },
            decreases w.includes@.len() - k,
        {
            let id = w.includes[k].1;
            if id.index() == world.index() {
                return false;
            }
            match self.worlds.get(id) {
                None => return false,
                Some(other) => {
                    if other.includes.len() != 0 {
                        return false;
                    }
                },
            }
            k = k + 1;
        }
        true
    }

    /// Expands the includes of `world`: the imports and exports of each
    /// included world, in order, are copied into `world` under the
    /// renamings declared for that include (see [`included_items`]), and the
    /// includes are then cleared. Fails when `world` is not in the graph,
    /// when an include is not ready (it names `world` itself, a missing
    /// world, or a world whose own includes are not expanded yet), or when
    /// a copied name collides; on failure the import and export lists of
    /// `world` are as they were.
    pub fn expand_includes(&mut self, world: WorldId) -> (r: Result<(), Error>)
        ensures
            ({
                let w = world.spec_index() as int;
                let before = old(self).worlds@[w];
                let imports = expanded_items(before.imports@, old(self).worlds@, before.includes@, before.include_names@, true);
                let exports = expanded_items(before.exports@, old(self).worlds@, before.includes@, before.include_names@, false);
                &&& r is Ok <==> (w < old(self).worlds@.len() && includes_ready(old(self).worlds@, w) && imports is Some
                    && exports is Some)
                &&& final(self).worlds@.len() == old(self).worlds@.len()
                &&& forall|i: int| 0 <= i < old(self).worlds@.len() && i != w ==> final(self).worlds@[i] == old(self).worlds@[i]
                &&& w < old(self).worlds@.len() ==> final(self).worlds@[w].name == before.name
                &&& r is Ok ==> {
                    let after = final(self).worlds@[w];
                    &&& copies(imports->0, after.imports@)
                    &&& copies(exports->0, after.exports@)
                    &&& after.includes@.len() == 0
                    &&& after.include_names@.len() == 0
                }
                &&& r is Err && w < old(self).worlds@.len() ==> {
                    let after = final(self).worlds@[w];
                    &&& after.imports@ == before.imports@
                    &&& after.exports@ == before.exports@
                    &&& after.includes == before.includes
                }
                &&& final(self).interfaces == old(self).interfaces
                &&& final(self).types == old(self).types
                &&& final(self).packages == old(self).packages
            }),
    {
        if world.index() >= self.worlds.len() {
            return Err(Error::without_span(String::from_str("world not found in the graph")));
        }
        if !self.includes_ready_exec(world) {
            return Err(Error::without_span(String::from_str("an included world is missing, is the world itself, or has unexpanded includes")));
        }
        let ghost old_worlds = self.worlds@;
        let ghost wi = world.spec_index() as int;
        let mut w = self.worlds.replace(world, World::new(String::new()));
        let ghost before = w;
        let imports_len = w.imports.len();
        let exports_len = w.exports.len();
        let ghost mut imp = w.imports@;
        let ghost mut exp = w.exports@;
        let n = w.includes.len();
        let mut k: usize = 0;
        assert(before.includes@.subrange(0, 0) =~= Seq::<(crate::stability::Stability, WorldId)>::empty());
        assert(w.imports@.subrange(0, imports_len as int) =~= before.imports@);
        assert(w.exports@.subrange(0, exports_len as int) =~= before.exports@);
        while k < n
            invariant
                n == before.includes@.len(),
                k <= n,
                wi == world.spec_index(),
                0 <= wi < old_worlds.len(),
                old_worlds == old(self).worlds@,
                before == old_worlds[wi],
                includes_ready(old_worlds, wi),
                w.includes == before.includes,
                w.include_names == before.include_names,
                w.name == before.name,
                self.worlds@.len() == old_worlds.len(),
                forall|i: int| 0 <= i < old_worlds.len() && i != wi ==> self.worlds@[i] == old_worlds[i],
                self.interfaces == old(self).interfaces,
                self.types == old(self).types,
                self.packages == old(self).packages,
                imports_len == before.imports@.len(),
                exports_len == before.exports@.len(),
                expanded_items(before.imports@, old_worlds, before.includes@.subrange(0, k as int), before.include_names@, true) == Some(imp),
                expanded_items(before.exports@, old_worlds, before.includes@.subrange(0, k as int), before.include_names@, false) == Some(exp),
                copies(imp, w.imports@),
                copies(exp, w.exports@),
                w.imports@.len() >= imports_len,
                w.exports@.len() >= exports_len,
                w.imports@.subrange(0, imports_len as int) == before.imports@,
                w.exports@.subrange(0, exports_len as int) == before.exports@,
            decreases n - k,
        {
            let id = w.includes[k].1;
            assert(before.includes@[k as int] == w.includes@[k as int]);
            let other = self.worlds.get(id).unwrap();
            assert(*other == old_worlds[id.spec_index() as int]);
            let ghost sub = before.includes@.subrange(0, k + 1);
            assert(sub.drop_last() =~= before.includes@.subrange(0, k as int));
            assert(sub.len() - 1 == k);
            assert(sub[k as int] == before.includes@[k as int]);
            let ghost imp_prev = w.imports@;
            let ok_imports = include_into(&mut w.imports, &other.imports, &w.include_names[k], Ghost(imp));
            let ghost exp_prev = w.exports@;
            let ok_exports = ok_imports && include_into(&mut w.exports, &other.exports, &w.include_names[k], Ghost(exp));
            if !ok_exports {
                proof {
                    assert(w.imports@.subrange(0, imports_len as int) =~= imp_prev.subrange(0, imports_len as int));
                    if !ok_imports {
                        lemma_expanded_failure_persists(before.imports@, old_worlds, before.includes@, before.include_names@, true, k + 1);
                    } else {
                        assert(w.exports@.subrange(0, exports_len as int) =~= exp_prev.subrange(0, exports_len as int));
                        lemma_expanded_failure_persists(before.exports@, old_worlds, before.includes@, before.include_names@, false, k + 1);
                    }
                }
                w.imports.truncate(imports_len);
                w.exports.truncate(exports_len);
                let _ = self.worlds.replace(world, w);
                return Err(Error::without_span(String::from_str("an included name collides with an item already in the world")));
            }
            proof {
                assert(w.imports@.subrange(0, imports_len as int) =~= imp_prev.subrange(0, imports_len as int));
                assert(w.exports@.subrange(0, exports_len as int) =~= exp_prev.subrange(0, exports_len as int));
                imp = included_items(imp, other.imports@, w.include_names@[k as int]@)->0;
                exp = included_items(exp, other.exports@, w.include_names@[k as int]@)->0;
            }
            k = k + 1;
        }
        assert(before.includes@.subrange(0, n as int) =~= before.includes@);
        w.includes = Vec::new();
        w.include_names = Vec::new();
        let _ = self.worlds.replace(world, w);
        Ok(())
    }
}

} // verus!
