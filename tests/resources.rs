use wit_parser::{Docs, Resource, ResourceFunc, ResourceFuncKind, Type};

#[test]
fn resource_builders() {
    let mut r = Resource::empty();
    assert!(r.funcs().is_empty());
    let mut m = ResourceFunc::method("get".to_string(), false);
    m.set_params(vec![("key".to_string(), Type::String)]);
    m.set_result(Some(Type::U32));
    m.set_docs(Some(Docs { contents: Some("reads".to_string()) }));
    r.func(m);
    r.func(ResourceFunc::constructor());
    r.func(ResourceFunc::static_("make".to_string(), true));
    assert_eq!(r.funcs().len(), 3);
    let m = &r.funcs()[0];
    assert!(matches!(m.kind(), ResourceFuncKind::Method(n, false, Some(Type::U32)) if n == "get"));
    assert_eq!(m.params().len(), 1);
    assert!(matches!(m.result(), Some(Some(Type::U32))));
    assert_eq!(m.docs().as_ref().unwrap().contents.as_deref(), Some("reads"));
    assert!(r.funcs()[1].result().is_none());
    assert!(matches!(r.funcs()[2].kind(), ResourceFuncKind::Static(n, true, None) if n == "make"));
    r.funcs_mut().pop();
    assert_eq!(r.funcs().len(), 2);
}

#[test]
fn resource_func_mutators() {
    let mut f = ResourceFunc::static_("a".to_string(), false);
    f.set_name("b".to_string());
    assert!(matches!(f.kind(), ResourceFuncKind::Static(n, false, None) if n == "b"));
    *f.result_mut().unwrap() = Some(Type::Bool);
    assert!(matches!(f.result(), Some(Some(Type::Bool))));
    f.params_mut().push(("x".to_string(), Type::U8));
    assert_eq!(f.params().len(), 1);
    let mut c = ResourceFunc::constructor();
    assert!(c.result_mut().is_none());
    assert!(c.docs().is_none());
}
