use wit_parser::{
    Docs, Function, FunctionKind, Mangling, Record, Field, Resolve, Stability, Type, TypeDef, TypeDefKind, TypeOwner,
    Result_, Tuple,
};

fn anon(kind: TypeDefKind) -> TypeDef {
    TypeDef { name: None, kind, owner: TypeOwner::Anonymous, docs: Docs::default(), stability: Stability::Unknown }
}

fn func(name: &str, kind: FunctionKind, params: Vec<(String, Type)>, result: Option<Type>) -> Function {
    Function { name: name.into(), kind, params, result, docs: Docs::default(), stability: Stability::Unknown }
}

#[test]
fn test_find_futures_and_streams() {
    let mut resolve = Resolve::default();
    let t0 = resolve.types.allocate(TypeDef {
        name: None,
        kind: TypeDefKind::Future(Some(Type::U32)),
        owner: TypeOwner::Anonymous,
        docs: Docs::default(),
        stability: Stability::Unknown,
    });
    let t1 = resolve.types.allocate(TypeDef {
        name: None,
        kind: TypeDefKind::Future(Some(Type::Id(t0))),
        owner: TypeOwner::Anonymous,
        docs: Docs::default(),
        stability: Stability::Unknown,
    });
    let t2 = resolve.types.allocate(TypeDef {
        name: None,
        kind: TypeDefKind::Stream(Some(Type::U32)),
        owner: TypeOwner::Anonymous,
        docs: Docs::default(),
        stability: Stability::Unknown,
    });
    let found = Function {
        name: "foo".into(),
        kind: FunctionKind::Freestanding,
        params: vec![("p1".into(), Type::Id(t1)), ("p2".into(), Type::U32)],
        result: Some(Type::Id(t2)),
        docs: Docs::default(),
        stability: Stability::Unknown,
    }
    .find_futures_and_streams(&resolve);
    assert_eq!(3, found.len());
    assert_eq!(t0, found[0]);
    assert_eq!(t1, found[1]);
    assert_eq!(t2, found[2]);
}

#[test]
fn futures_and_streams_of_stream_of_u8() {
    let mut resolve = Resolve::default();
    let inner = resolve.types.allocate(anon(TypeDefKind::Future(Some(Type::U32))));
    let outer = resolve.types.allocate(anon(TypeDefKind::Future(Some(Type::Id(inner)))));
    let bytes = resolve.types.allocate(anon(TypeDefKind::Stream(Some(Type::U8))));
    let f = func(
        "foo",
        FunctionKind::Freestanding,
        vec![("x".into(), Type::Id(outer)), ("y".into(), Type::U32)],
        Some(Type::Id(bytes)),
    );
    assert_eq!(f.find_futures_and_streams(&resolve), vec![inner, outer, bytes]);
}

#[test]
fn futures_inside_records_results_and_tuples() {
    let mut resolve = Resolve::default();
    let fut = resolve.types.allocate(anon(TypeDefKind::Future(None)));
    let st = resolve.types.allocate(anon(TypeDefKind::Stream(None)));
    let rec = resolve.types.allocate(anon(TypeDefKind::Record(Record {
        fields: vec![
            Field { name: "a".into(), ty: Type::Id(st), docs: Docs::default() },
            Field { name: "b".into(), ty: Type::Bool, docs: Docs::default() },
            Field { name: "c".into(), ty: Type::Id(fut), docs: Docs::default() },
        ],
    })));
    let res = resolve.types.allocate(anon(TypeDefKind::Result(Result_ { ok: Some(Type::Id(fut)), err: Some(Type::Id(st)) })));
    let tup = resolve.types.allocate(anon(TypeDefKind::Tuple(Tuple { types: vec![Type::Id(res), Type::Id(rec)] })));
    let f = func("g", FunctionKind::Freestanding, vec![("t".into(), Type::Id(tup))], None);
    assert_eq!(f.find_futures_and_streams(&resolve), vec![fut, st, st, fut]);
    let plain = func("h", FunctionKind::Freestanding, vec![("x".into(), Type::String)], Some(Type::U64));
    assert!(plain.find_futures_and_streams(&resolve).is_empty());
}

#[test]
fn item_names() {
    let mut resolve = Resolve::default();
    let r = resolve.types.allocate(anon(TypeDefKind::Resource));
    assert_eq!(func("foo", FunctionKind::Freestanding, vec![], None).item_name(), "foo");
    assert_eq!(func("[async]foo", FunctionKind::AsyncFreestanding, vec![], None).item_name(), "foo");
    assert_eq!(func("[method]res.get", FunctionKind::Method(r), vec![], None).item_name(), "get");
    assert_eq!(func("[static]res.make.it", FunctionKind::Static(r), vec![], None).item_name(), "make.it");
    assert_eq!(func("[constructor]res", FunctionKind::Constructor(r), vec![], None).item_name(), "constructor");
}

#[test]
fn parameter_and_result_types() {
    let f = func("f", FunctionKind::Freestanding, vec![("a".into(), Type::U8), ("b".into(), Type::String)], Some(Type::Bool));
    let tys = f.parameter_and_result_types();
    assert_eq!(tys.len(), 3);
    assert!(matches!(tys[0], Type::U8));
    assert!(matches!(tys[1], Type::String));
    assert!(matches!(tys[2], Type::Bool));
}

#[test]
fn core_export_names() {
    let f = func("run", FunctionKind::Freestanding, vec![], None);
    assert_eq!(f.core_export_name(Some("wasi:cli/run@0.2.0"), Mangling::Standard32), "cm32p2|wasi:cli/run@0.2.0|run");
    assert_eq!(f.core_export_name(Some("wasi:cli/run@0.2.0"), Mangling::Legacy), "wasi:cli/run@0.2.0#run");
    assert_eq!(f.core_export_name(None, Mangling::Standard32), "cm32p2||run");
    assert_eq!(f.core_export_name(None, Mangling::Legacy), "run");
    assert_eq!(f.standard32_core_export_name(Some("i")), "cm32p2|i|run");
    assert_eq!(f.legacy_core_export_name(Some("i")), "i#run");
}

#[test]
fn function_kind_resource() {
    let mut resolve = Resolve::default();
    let r = resolve.types.allocate(anon(TypeDefKind::Resource));
    let s = resolve.types.allocate(anon(TypeDefKind::Resource));
    assert_eq!(FunctionKind::Freestanding.resource(), None);
    assert_eq!(FunctionKind::AsyncMethod(r).resource(), Some(r));
    let mut k = FunctionKind::Static(r);
    *k.resource_mut().unwrap() = s;
    assert_eq!(k.resource(), Some(s));
    let mut k = FunctionKind::AsyncFreestanding;
    assert!(k.resource_mut().is_none());
}

#[test]
fn type_arena_validity() {
    let mut resolve = Resolve::default();
    assert!(resolve.types_valid());
    let a = resolve.types.allocate(anon(TypeDefKind::Future(Some(Type::U8))));
    resolve.types.allocate(anon(TypeDefKind::List(Type::Id(a))));
    assert!(resolve.types_valid());
    let forward = wit_parser::Id::from_index(5);
    resolve.types.allocate(anon(TypeDefKind::Option(Type::Id(forward))));
    assert!(!resolve.types_valid());

    let mut resolve = Resolve::default();
    resolve.types.allocate(anon(TypeDefKind::Unknown));
    assert!(!resolve.types_valid());

    let mut resolve = Resolve::default();
    let me = wit_parser::Id::from_index(0);
    resolve.types.allocate(anon(TypeDefKind::Record(Record {
        fields: vec![Field { name: "x".into(), ty: Type::Id(me), docs: Docs::default() }],
    })));
    assert!(!resolve.types_valid());
}
