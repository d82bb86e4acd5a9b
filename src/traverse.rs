//! Depth-first discovery of `future` and `stream` types.
use vstd::prelude::*;
use crate::types::{Type, TypeDef, TypeDefKind, TypeId, Case};

verus! {

/// The types a definition refers to directly, in declaration order.
pub open spec fn child_types(kind: TypeDefKind) -> Seq<Type> {
    match kind {
        TypeDefKind::Record(r) => r.fields@.map_values(|f: crate::types::Field| f.ty),
        TypeDefKind::Tuple(t) => t.types@,
        TypeDefKind::Variant(v) => case_types(v.cases@),
        TypeDefKind::Option(t) => seq![t],
        TypeDefKind::List(t) => seq![t],
        TypeDefKind::FixedSizeList(t, _) => seq![t],
        TypeDefKind::Type(t) => seq![t],
        TypeDefKind::Result(r) => opt_seq(r.ok) + opt_seq(r.err),
        TypeDefKind::Future(t) => opt_seq(t),
        TypeDefKind::Stream(t) => opt_seq(t),
        _ => seq![],
    }
}

/// The payload types of a list of variant cases.
pub open spec fn case_types(cases: Seq<Case>) -> Seq<Type>
    decreases cases.len(),
{
    if cases.len() == 0 {
        seq![]
    } else {
        case_types(cases.drop_last()) + opt_seq(cases.last().ty)
    }
}

pub open spec fn opt_seq(t: Option<Type>) -> Seq<Type> {
    match t {
        Some(t) => seq![t],
        None => seq![],
    }
}

/// Zero for a primitive, one past the arena position for a handle.
pub open spec fn type_rank(t: Type) -> nat {
    match t {
        Type::Id(id) => id.spec_index() + 1,
        _ => 0,
    }
}

/// A definition at position `i` refers only to earlier positions and is not
/// an unresolved placeholder.
pub open spec fn type_def_wf(def: TypeDef, i: int) -> bool {
    &&& !(def.kind is Unknown)
    &&& forall|k: int| 0 <= k < child_types(def.kind).len() ==> type_rank(#[trigger] child_types(def.kind)[k]) <= i
}

/// Every definition of a type arena refers only to earlier ones, so the
/// arena order is a topological order.
pub open spec fn types_wf(types: Seq<TypeDef>) -> bool {
    forall|i: int| 0 <= i < types.len() ==> type_def_wf(#[trigger] types[i], i)
}

/// The `future` and `stream` types reachable from `t`, inner ones first.
pub open spec fn found_in(types: Seq<TypeDef>, t: Type) -> Seq<TypeId>
    decreases type_rank(t), 0nat, 0nat,
{
    match t {
        Type::Id(id) => if id.spec_index() < types.len() {
            let kind = types[id.spec_index() as int].kind;
            found_in_list(types, child_types(kind), id.spec_index()) + if kind is Future || kind is Stream {
                seq![id]
            } else {
                seq![]
            }
        } else {
            seq![]
        },
        _ => seq![],
    }
}

/// `found_in` over a list of types, in order; types that do not rank below
/// `bound` are skipped.
pub open spec fn found_in_list(types: Seq<TypeDef>, tys: Seq<Type>, bound: nat) -> Seq<TypeId>
    decreases bound, 1nat, tys.len(),
{
    if tys.len() == 0 {
        seq![]
    } else {
        found_in_list(types, tys.drop_last(), bound) + if type_rank(tys.last()) <= bound {
            found_in(types, tys.last())
        } else {
            seq![]
        }
    }
}

/// Appends the `future` and `stream` types reachable from `ty` to `results`.
pub fn find_futures_and_streams(resolve: &crate::resolve::Resolve, ty: Type, results: &mut Vec<TypeId>)
    requires
        types_wf(resolve.types@),
    ensures
        final(results)@ == old(results)@ + found_in(resolve.types@, ty),
    decreases type_rank(ty),
{
    let types = &resolve.types;
    let id = match ty {
        Type::Id(id) => id,
        _ => {
            assert(results@ =~= old(results)@ + found_in(types@, ty));
            return;
        },
    };
    let def = match types.get(id) {
        Some(d) => d,
        None => {
            assert(results@ =~= old(results)@ + found_in(types@, ty));
            return;
        },
    };
    let ghost idx = id.spec_index() as int;
    let ghost kids = child_types(def.kind);
    let ghost start = results@;
    assert(type_def_wf(types@[idx], idx));
    assert(found_in(types@, ty) == found_in_list(types@, kids, idx as nat) + if def.kind is Future || def.kind is Stream {
        seq![id]
    } else {
        seq![]
    });
    match &def.kind {
        TypeDefKind::Resource | TypeDefKind::Handle(_) | TypeDefKind::Flags(_) | TypeDefKind::Enum(_) => {},
        TypeDefKind::Record(r) => {
            let mut i: usize = 0;
            while i < r.fields.len()
                invariant
                    types_wf(types@),
                    types == &resolve.types,
                    kids == child_types(def.kind),
                    kids == r.fields@.map_values(|f: crate::types::Field| f.ty),
                    0 <= idx < types@.len(),
                    type_def_wf(types@[idx], idx),
                    types@[idx] == *def,
                    type_rank(ty) == idx + 1,
                    i <= r.fields@.len(),
                    results@ == start + found_in_list(types@, kids.subrange(0, i as int), idx as nat),
                decreases r.fields@.len() - i,
            {
                let t = r.fields[i].ty;
                assert(kids[i as int] == t);
                find_futures_and_streams(resolve, t, results);
                assert(kids.subrange(0, i + 1).drop_last() =~= kids.subrange(0, i as int));
                i = i + 1;
            }
            assert(kids.subrange(0, i as int) =~= kids);
            assert(results@ =~= start + found_in_list(types@, kids, idx as nat));
        },
        TypeDefKind::Tuple(t) => {
            let mut i: usize = 0;
            while i < t.types.len()
                invariant
                    types_wf(types@),
                    types == &resolve.types,
                    kids == t.types@,
                    0 <= idx < types@.len(),
                    type_def_wf(types@[idx], idx),
                    types@[idx] == *def,
                    kids == child_types(def.kind),
                    type_rank(ty) == idx + 1,
                    i <= t.types@.len(),
                    results@ == start + found_in_list(types@, kids.subrange(0, i as int), idx as nat),
                decreases t.types@.len() - i,
            {
                let c = t.types[i];
                assert(kids[i as int] == c);
                find_futures_and_streams(resolve, c, results);
                assert(kids.subrange(0, i + 1).drop_last() =~= kids.subrange(0, i as int));
                i = i + 1;
            }
            assert(kids.subrange(0, i as int) =~= kids);
            assert(results@ =~= start + found_in_list(types@, kids, idx as nat));
        },
        TypeDefKind::Variant(v) => {
            let mut i: usize = 0;
            while i < v.cases.len()
                invariant
                    types_wf(types@),
                    types == &resolve.types,
                    kids == case_types(v.cases@),
                    0 <= idx < types@.len(),
                    type_def_wf(types@[idx], idx),
                    types@[idx] == *def,
                    kids == child_types(def.kind),
                    type_rank(ty) == idx + 1,
                    i <= v.cases@.len(),
                    results@ == start + found_in_list(types@, case_types(v.cases@.subrange(0, i as int)), idx as nat),
                decreases v.cases@.len() - i,
            {
                let ghost before = case_types(v.cases@.subrange(0, i as int));
                proof {
                    lemma_case_types_prefix(v.cases@, i as int);
                }
                if let Some(c) = v.cases[i].ty {
                    assert(case_types(v.cases@.subrange(0, i + 1)) == before.push(c));
                    assert(kids[before.len() as int] == c);
                    find_futures_and_streams(resolve, c, results);
                    assert(before.push(c).drop_last() =~= before);
                } else {
                    assert(case_types(v.cases@.subrange(0, i + 1)) =~= before);
                }
                i = i + 1;
            }
            assert(v.cases@.subrange(0, i as int) =~= v.cases@);
            assert(results@ =~= start + found_in_list(types@, kids, idx as nat));
        },
        TypeDefKind::Option(c) | TypeDefKind::List(c) | TypeDefKind::FixedSizeList(c, ..) | TypeDefKind::Type(c) => {
            proof {
                lemma_found_in_short_list(types@, kids, idx as nat);
            }
            assert(kids[0] == *c);
            find_futures_and_streams(resolve, *c, results);
            assert(kids.drop_last() =~= Seq::<Type>::empty());
            assert(results@ =~= start + found_in_list(types@, kids, idx as nat));
        },
        TypeDefKind::Result(r) => {
            proof {
                lemma_found_in_short_list(types@, kids, idx as nat);
            }
            if let Some(c) = r.ok {
                assert(kids[0] == c);
                find_futures_and_streams(resolve, c, results);
            }
            if let Some(c) = r.err {
                assert(kids.last() == c);
                find_futures_and_streams(resolve, c, results);
            }
            proof {
                if kids.len() > 0 {
                    assert(kids.drop_last().len() == 0 || kids.drop_last().drop_last() =~= Seq::<Type>::empty());
                }
            }
            assert(results@ =~= start + found_in_list(types@, kids, idx as nat));

        },
        TypeDefKind::Future(c) | TypeDefKind::Stream(c) => {
            proof {
                lemma_found_in_short_list(types@, kids, idx as nat);
            }
            if let Some(c) = c {
                assert(kids[0] == *c);
                find_futures_and_streams(resolve, *c, results);
                assert(kids.drop_last() =~= Seq::<Type>::empty());
            }
            assert(results@ =~= start + found_in_list(types@, kids, idx as nat));
            results.push(id);
        },
        TypeDefKind::Unknown => {},
    }
    assert(def.kind is Future || def.kind is Stream ==> results@ =~= start + found_in_list(types@, kids, idx as nat).push(id));
    assert(!(def.kind is Future || def.kind is Stream) ==> results@ =~= start + found_in_list(types@, kids, idx as nat));
    assert(results@ =~= start + found_in(types@, ty));
}

fn rank_at_most(t: Type, bound: usize) -> (r: bool)
    ensures
        r == (type_rank(t) <= bound),
{
    match t {
        Type::Id(id) => id.index() < bound,
        _ => true,
    }
}

fn fields_rank_at_most(fields: &Vec<crate::types::Field>, bound: usize) -> (r: bool)
    ensures
        r == forall|k: int| 0 <= k < fields@.len() ==> type_rank(#[trigger] fields@[k].ty) <= bound,
{
    let mut i: usize = 0;
    while i < fields.len()
        invariant
            i <= fields@.len(),
            forall|k: int| 0 <= k < i ==> type_rank(#[trigger] fields@[k].ty) <= bound,
        decreases fields@.len() - i,
    {
        if !rank_at_most(fields[i].ty, bound) {
            return false;
        }
        i = i + 1;
    }
    true
}

/// Whether every type that `kind` refers to ranks at most `bound`.
pub fn children_rank_at_most(kind: &TypeDefKind, bound: usize) -> (r: bool)
    ensures
        r == forall|k: int| 0 <= k < child_types(*kind).len() ==> type_rank(#[trigger] child_types(*kind)[k]) <= bound,
{
    let ghost kids = child_types(*kind);
    match kind {
        TypeDefKind::Record(rec) => {
            let r = fields_rank_at_most(&rec.fields, bound);
            proof {
                assert(kids.len() == rec.fields@.len());
                if r {
                    assert forall|k: int| 0 <= k < kids.len() implies type_rank(#[trigger] kids[k]) <= bound by {
                        assert(kids[k] == rec.fields@[k].ty);
                    }
                } else {
                    let k = choose|k: int| 0 <= k < rec.fields@.len() && !(type_rank(#[trigger] rec.fields@[k].ty) <= bound);
                    assert(kids[k] == rec.fields@[k].ty);
                }
            }
            return r;
        },
        TypeDefKind::Tuple(t) => {
            let mut i: usize = 0;
            while i < t.types.len()
                invariant
                    kids == t.types@,
                    kids == child_types(*kind),
                    i <= t.types@.len(),
                    forall|k: int| 0 <= k < i ==> type_rank(#[trigger] kids[k]) <= bound,
                decreases t.types@.len() - i,
            {
                if !rank_at_most(t.types[i], bound) {
                    assert(kids[i as int] == t.types@[i as int]);
                    return false;
                }
                i = i + 1;
            }
            return true;
        },
        TypeDefKind::Variant(v) => {
            let mut i: usize = 0;
            while i < v.cases.len()
                invariant
                    kids == case_types(v.cases@),
                    kids == child_types(*kind),
                    i <= v.cases@.len(),
                    forall|k: int| 0 <= k < case_types(v.cases@.subrange(0, i as int)).len() && k < kids.len() ==> type_rank(
                        #[trigger] kids[k],
                    ) <= bound,
                decreases v.cases@.len() - i,
            {
                proof {
                    lemma_case_types_prefix(v.cases@, i as int);
                }
                let ghost before = case_types(v.cases@.subrange(0, i as int));
                if let Some(c) = v.cases[i].ty {
                    if !rank_at_most(c, bound) {
                        assert(case_types(v.cases@.subrange(0, i + 1)) == before.push(c));
                        assert(kids[before.len() as int] == c);
                        return false;
                    }
                }
                i = i + 1;
            }
            assert(v.cases@.subrange(0, i as int) =~= v.cases@);
            return true;
        },
        TypeDefKind::Option(t) | TypeDefKind::List(t) | TypeDefKind::FixedSizeList(t, ..) | TypeDefKind::Type(t) => {
            assert(kids.len() == 1 && kids[0] == *t);
            return rank_at_most(*t, bound);
        },
        TypeDefKind::Result(r) => {
            let a = match r.ok {
                Some(t) => rank_at_most(t, bound),
                None => true,
            };
            let b = match r.err {
                Some(t) => rank_at_most(t, bound),
                None => true,
            };
            proof {
                let o = opt_seq(r.ok);
                let e = opt_seq(r.err);
                assert(kids == o + e);
                if r.ok is Some {
                    assert(kids[0] == r.ok->0);
                }
                if r.err is Some {
                    assert(kids[o.len() as int] == r.err->0);
                }
                assert forall|k: int| 0 <= k < kids.len() implies (kids[k] == r.ok->0 && r.ok is Some && k == 0) || (
                kids[k] == r.err->0 && r.err is Some && k == o.len()) by {
                    if k < o.len() {
                        assert(kids[k] == o[k]);
                    } else {
                        assert(kids[k] == e[k - o.len()]);
                    }
                }
            }
            return a && b;
        },
        TypeDefKind::Future(t) | TypeDefKind::Stream(t) => {
            return match t {
                Some(t) => {
                    assert(kids.len() == 1 && kids[0] == *t);
                    rank_at_most(*t, bound)
                },
                None => true,
            };
        },
        _ => {
            return true;
        },
    }
}

/// Whether a type arena is in topological order with no placeholder left.
pub fn types_valid(types: &crate::arena::Arena<TypeDef>) -> (r: bool)
    ensures
        r == types_wf(types@),
{
    let n = types.len();
    let mut i: usize = 0;
    while i < n
        invariant
            n == types@.len(),
            i <= n,
            forall|k: int| 0 <= k < i ==> type_def_wf(#[trigger] types@[k], k),
        decreases n - i,
    {
        let def = types.get(crate::arena::Id::from_index(i)).unwrap();
        if let TypeDefKind::Unknown = def.kind {
            assert(!type_def_wf(types@[i as int], i as int));
            return false;
        }
        if !children_rank_at_most(&def.kind, i) {
            assert(!type_def_wf(types@[i as int], i as int));
            return false;
        }
        i = i + 1;
    }
    true
}

/// `found_in_list` on lists of at most two types.
proof fn lemma_found_in_short_list(types: Seq<TypeDef>, tys: Seq<Type>, bound: nat)
    requires
        tys.len() <= 2,
        forall|k: int| 0 <= k < tys.len() ==> type_rank(#[trigger] tys[k]) <= bound,
    ensures
        tys.len() == 0 ==> found_in_list(types, tys, bound) == Seq::<TypeId>::empty(),
        tys.len() == 1 ==> found_in_list(types, tys, bound) == found_in(types, tys[0]),
        tys.len() == 2 ==> found_in_list(types, tys, bound) == found_in(types, tys[0]) + found_in(types, tys[1]),
{
    if tys.len() == 1 {
        let d = tys.drop_last();
        assert(d.len() == 0);
        assert(found_in_list(types, d, bound) == Seq::<TypeId>::empty());
        assert(found_in_list(types, tys, bound) =~= found_in(types, tys[0]));
    } else if tys.len() == 2 {
        let d = tys.drop_last();
        let e = d.drop_last();
        assert(e.len() == 0);
        assert(found_in_list(types, e, bound) == Seq::<TypeId>::empty());
        assert(d[0] == tys[0]);
        assert(found_in_list(types, d, bound) =~= found_in(types, tys[0]));
    }
}

proof fn lemma_case_types_prefix(cases: Seq<Case>, i: int)
    requires
        0 <= i < cases.len(),
    ensures
        case_types(cases.subrange(0, i + 1)) == case_types(cases.subrange(0, i)) + opt_seq(cases[i].ty),
        case_types(cases.subrange(0, i + 1)).len() <= case_types(cases).len(),
        forall|k: int| 0 <= k < case_types(cases.subrange(0, i + 1)).len() ==>
            case_types(cases.subrange(0, i + 1))[k] == case_types(cases)[k],
{
    assert(cases.subrange(0, i + 1).drop_last() =~= cases.subrange(0, i));
    lemma_case_types_prefix_of(cases, i + 1);
}

proof fn lemma_case_types_prefix_of(cases: Seq<Case>, j: int)
    requires
        0 <= j <= cases.len(),
    ensures
        case_types(cases.subrange(0, j)).len() <= case_types(cases).len(),
        forall|k: int| 0 <= k < case_types(cases.subrange(0, j)).len() ==>
            case_types(cases.subrange(0, j))[k] == case_types(cases)[k],
    decreases cases.len(),
{
    if j == cases.len() {
        assert(cases.subrange(0, j) =~= cases);
    } else {
        assert(cases.drop_last().subrange(0, j) =~= cases.subrange(0, j));
        lemma_case_types_prefix_of(cases.drop_last(), j);
    }
}

} // verus!
