use wit_parser::{
    discriminant_type, flags_repr, AbiVariant, Docs, Enum, EnumCase, Flag, Flags, FlagsRepr, Int, LiftLowerAbi,
    Mangling, ManglingAndAbi, TypeDefKind, Type, validate_id,
};

#[test]
fn test_discriminant_type() {
    assert_eq!(discriminant_type(1), Int::U8);
    assert_eq!(discriminant_type(0x100), Int::U8);
    assert_eq!(discriminant_type(0x101), Int::U16);
    assert_eq!(discriminant_type(0x10000), Int::U16);
    assert_eq!(discriminant_type(0x10001), Int::U32);
    if let Ok(num_cases) = usize::try_from(0x100000000_u64) {
        assert_eq!(discriminant_type(num_cases), Int::U32);
    }
}

#[test]
fn discriminant_of_no_cases_is_a_byte() {
    assert_eq!(discriminant_type(0), Int::U8);
    assert_eq!(discriminant_type(256), Int::U8);
    assert_eq!(discriminant_type(257), Int::U16);
    assert_eq!(discriminant_type(65536), Int::U16);
    assert_eq!(discriminant_type(65537), Int::U32);
}

fn flags(n: usize) -> Flags {
    let mut flags = Vec::new();
    for i in 0..n {
        flags.push(Flag { name: format!("f{i}"), docs: Docs::default() });
    }
    Flags { flags }
}

#[test]
fn flags_representation_by_count() {
    assert_eq!(flags_repr(0), FlagsRepr::U32(0));
    assert_eq!(flags(0).repr(), FlagsRepr::U32(0));
    assert_eq!(flags(1).repr(), FlagsRepr::U8);
    assert_eq!(flags(8).repr(), FlagsRepr::U8);
    assert_eq!(flags(9).repr(), FlagsRepr::U16);
    assert_eq!(flags(16).repr(), FlagsRepr::U16);
    assert_eq!(flags(17).repr(), FlagsRepr::U32(1));
    assert_eq!(flags(32).repr(), FlagsRepr::U32(1));
    assert_eq!(flags(33).repr(), FlagsRepr::U32(2));
    assert_eq!(flags_repr(64), FlagsRepr::U32(2));
    assert_eq!(flags_repr(65), FlagsRepr::U32(3));
}

#[test]
fn flags_repr_count() {
    assert_eq!(FlagsRepr::U8.count(), 1);
    assert_eq!(FlagsRepr::U16.count(), 1);
    assert_eq!(FlagsRepr::U32(0).count(), 0);
    assert_eq!(FlagsRepr::U32(3).count(), 3);
}

#[test]
fn enum_tag_follows_case_count() {
    let mut cases = Vec::new();
    for i in 0..300 {
        cases.push(EnumCase { name: format!("c{i}"), docs: Docs::default() });
    }
    assert_eq!(Enum { cases: cases[..3].to_vec() }.tag(), Int::U8);
    assert_eq!(Enum { cases }.tag(), Int::U16);
}

#[test]
fn abi_prefixes_and_variants() {
    assert_eq!(LiftLowerAbi::Sync.import_prefix(), "");
    assert_eq!(LiftLowerAbi::AsyncCallback.import_prefix(), "[async-lower]");
    assert_eq!(LiftLowerAbi::AsyncStackful.import_prefix(), "[async-lower]");
    assert_eq!(LiftLowerAbi::Sync.export_prefix(), "");
    assert_eq!(LiftLowerAbi::AsyncCallback.export_prefix(), "[async-lift]");
    assert_eq!(LiftLowerAbi::AsyncStackful.export_prefix(), "[async-lift-stackful]");
    assert_eq!(LiftLowerAbi::Sync.import_variant(), AbiVariant::GuestImport);
    assert_eq!(LiftLowerAbi::AsyncStackful.import_variant(), AbiVariant::GuestImportAsync);
    assert_eq!(LiftLowerAbi::AsyncCallback.export_variant(), AbiVariant::GuestExportAsync);
    assert_eq!(LiftLowerAbi::AsyncStackful.export_variant(), AbiVariant::GuestExportAsyncStackful);
    assert_eq!(ManglingAndAbi::Standard32.import_variant(), AbiVariant::GuestImport);
    assert_eq!(ManglingAndAbi::Standard32.export_variant(), AbiVariant::GuestExport);
    assert_eq!(
        ManglingAndAbi::Legacy(LiftLowerAbi::AsyncCallback).export_variant(),
        AbiVariant::GuestExportAsync
    );
}

#[test]
fn sync_projection_and_is_async() {
    let cb = ManglingAndAbi::Legacy(LiftLowerAbi::AsyncCallback);
    let st = ManglingAndAbi::Legacy(LiftLowerAbi::AsyncStackful);
    let sync = ManglingAndAbi::Legacy(LiftLowerAbi::Sync);
    assert!(cb.is_async());
    assert!(st.is_async());
    assert!(!sync.is_async());
    assert!(!ManglingAndAbi::Standard32.is_async());
    assert_eq!(cb.sync(), sync);
    assert_eq!(st.sync(), sync);
    assert_eq!(ManglingAndAbi::Standard32.sync(), ManglingAndAbi::Standard32);
}

#[test]
fn mangling_from_str() {
    assert_eq!("legacy".parse::<Mangling>().unwrap(), Mangling::Legacy);
    assert_eq!("standard32".parse::<Mangling>().unwrap(), Mangling::Standard32);
    let err = "other".parse::<Mangling>().unwrap_err();
    assert!(err.message().contains("unknown name mangling `other`"));
}

#[test]
fn type_def_kind_names() {
    assert_eq!(TypeDefKind::Resource.as_str(), "resource");
    assert_eq!(TypeDefKind::List(Type::U8).as_str(), "list");
    assert_eq!(TypeDefKind::FixedSizeList(Type::U8, 4).as_str(), "fixed size list");
    assert_eq!(TypeDefKind::Future(None).as_str(), "future");
    assert_eq!(TypeDefKind::Unknown.as_str(), "unknown");
}

#[test]
fn identifiers() {
    assert!(validate_id("foo").is_ok());
    assert!(validate_id("foo-bar").is_ok());
    assert!(validate_id("FOO-bar2").is_ok());
    assert!(validate_id("a1-b").is_ok());
    assert!(validate_id("").is_err());
    assert!(validate_id("1foo").is_err());
    assert!(validate_id("foo-").is_err());
    assert!(validate_id("foo--bar").is_err());
    assert!(validate_id("-foo").is_err());
    assert!(validate_id("fooBar").is_err());
    assert!(validate_id("foo_bar").is_err());
}
