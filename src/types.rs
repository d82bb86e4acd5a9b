//! The type model: primitive types, type definitions and their shapes.
use vstd::prelude::*;
use crate::abi::{Int, FlagsRepr, discriminant_type, discriminant_type_spec, flags_repr, flags_repr_spec};
use crate::arena::Id;
use crate::stability::Stability;
use crate::world::{World, Interface};

verus! {

pub type TypeId = Id<TypeDef>;
pub type InterfaceId = Id<Interface>;
pub type WorldId = Id<World>;

/// Documentation attached to an item.
#[derive(Clone, Default, Debug, PartialEq, Eq, Hash)]
pub struct Docs {
    pub contents: Option<String>,
}

impl Docs {
    pub fn is_empty(&self) -> (r: bool)
        ensures
            r == (self.contents is None),
    {
        self.contents.is_none()
    }
}

/// A value type: a primitive or a handle to a type definition.
#[derive(Debug, Copy, Clone)]
pub enum Type {
    Bool,
    U8,
    U16,
    U32,
    U64,
    S8,
    S16,
    S32,
    S64,
    F32,
    F64,
    Char,
    String,
    ErrorContext,
    Id(TypeId),
}

/// A type definition of an arena.
#[derive(Debug, Clone)]
pub struct TypeDef {
    pub name: Option<String>,
    pub kind: TypeDefKind,
    pub owner: TypeOwner,
    pub docs: Docs,
    pub stability: Stability,
}

/// The shape of a type definition.
#[derive(Debug, Clone)]
pub enum TypeDefKind {
    Record(Record),
    Resource,
    Handle(Handle),
    Flags(Flags),
    Tuple(Tuple),
    Variant(Variant),
    Enum(Enum),
    Option(Type),
    Result(Result_),
    List(Type),
    FixedSizeList(Type, u32),
    Future(Option<Type>),
    Stream(Option<Type>),
    Type(Type),
    /// A placeholder for a type of a foreign package that is not resolved
    /// yet; it never survives into a resolved graph.
    Unknown,
}

/// The word that names each shape.
pub open spec fn kind_name(kind: TypeDefKind) -> Seq<char> {
    match kind {
        TypeDefKind::Record(_) => "record"@,
        TypeDefKind::Resource => "resource"@,
        TypeDefKind::Handle(Handle::Own(_)) => "own"@,
        TypeDefKind::Handle(Handle::Borrow(_)) => "borrow"@,
        TypeDefKind::Flags(_) => "flags"@,
        TypeDefKind::Tuple(_) => "tuple"@,
        TypeDefKind::Variant(_) => "variant"@,
        TypeDefKind::Enum(_) => "enum"@,
        TypeDefKind::Option(_) => "option"@,
        TypeDefKind::Result(_) => "result"@,
        TypeDefKind::List(_) => "list"@,
        TypeDefKind::FixedSizeList(..) => "fixed size list"@,
        TypeDefKind::Future(_) => "future"@,
        TypeDefKind::Stream(_) => "stream"@,
        TypeDefKind::Type(_) => "type"@,
        TypeDefKind::Unknown => "unknown"@,
    }
}

impl TypeDefKind {
    pub fn as_str(&self) -> (r: &'static str)
        ensures
            r@ == kind_name(*self),
    {
        match self {
            TypeDefKind::Record(_) => "record",
            TypeDefKind::Resource => "resource",
            TypeDefKind::Handle(handle) => match handle {
                Handle::Own(_) => "own",
                Handle::Borrow(_) => "borrow",
            },
            TypeDefKind::Flags(_) => "flags",
            TypeDefKind::Tuple(_) => "tuple",
            TypeDefKind::Variant(_) => "variant",
            TypeDefKind::Enum(_) => "enum",
            TypeDefKind::Option(_) => "option",
            TypeDefKind::Result(_) => "result",
            TypeDefKind::List(_) => "list",
            TypeDefKind::FixedSizeList(..) => "fixed size list",
            TypeDefKind::Future(_) => "future",
            TypeDefKind::Stream(_) => "stream",
            TypeDefKind::Type(_) => "type",
            TypeDefKind::Unknown => "unknown",
        }
    }
}

/// Where a type definition was declared.
#[derive(Debug, Copy, Clone)]
pub enum TypeOwner {
    World(WorldId),
    Interface(InterfaceId),
    /// An anonymous structural type, such as `list<T>`, that needs no owner.
    Anonymous,
}

/// An owned or borrowed handle to a resource type.
#[derive(Debug, Copy, Clone)]
pub enum Handle {
    Own(TypeId),
    Borrow(TypeId),
}

#[derive(Debug, Clone)]
pub struct Record {
    pub fields: Vec<Field>,
}

#[derive(Debug, Clone)]
pub struct Field {
    pub name: String,
    pub ty: Type,
    pub docs: Docs,
}

#[derive(Debug, Clone)]
pub struct Flags {
    pub flags: Vec<Flag>,
}

#[derive(Debug, Clone)]
pub struct Flag {
    pub name: String,
    pub docs: Docs,
}

impl Flags {
    /// The storage of these flags.
    pub fn repr(&self) -> (r: FlagsRepr)
        ensures
            r == flags_repr_spec(self.flags@.len()),
    {
        flags_repr(self.flags.len())
    }
}

#[derive(Debug, Clone)]
pub struct Tuple {
    pub types: Vec<Type>,
}

#[derive(Debug, Clone)]
pub struct Variant {
    pub cases: Vec<Case>,
}

#[derive(Debug, Clone)]
pub struct Case {
    pub name: String,
    pub ty: Option<Type>,
    pub docs: Docs,
}

impl Variant {
    /// The discriminant width of this variant.
    pub fn tag(&self) -> (r: Int)
        requires
            self.cases@.len() <= 0x1_0000_0000,
        ensures
            r == discriminant_type_spec(self.cases@.len()),
    {
        discriminant_type(self.cases.len())
    }
}

#[derive(Debug, Clone)]
pub struct Enum {
    pub cases: Vec<EnumCase>,
}

#[derive(Debug, Clone)]
pub struct EnumCase {
    pub name: String,
    pub docs: Docs,
}

impl Enum {
    /// The discriminant width of this enum.
    pub fn tag(&self) -> (r: Int)
        requires
            self.cases@.len() <= 0x1_0000_0000,
        ensures
            r == discriminant_type_spec(self.cases@.len()),
    {
        discriminant_type(self.cases.len())
    }
}

#[derive(Debug, Clone)]
pub struct Result_ {
    pub ok: Option<Type>,
    pub err: Option<Type>,
}

} // verus!
