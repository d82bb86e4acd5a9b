//! Resolution and linking model for a typed interface-definition language:
//! arenas of worlds, interfaces and types, the rules that pick binary
//! representations and mangled names, stability gating, and world merging.
pub mod abi;
pub mod arena;
pub mod error;
pub mod function;
pub mod ident;
pub mod inclusion;
pub mod merge;
pub mod relocate;
pub mod resolve;
pub mod resource;
pub mod stability;
pub mod text;
pub mod traverse;
pub mod types;
pub mod version;
pub mod world;

pub use abi::{AbiVariant, FlagsRepr, Int, LiftLowerAbi, Mangling, ManglingAndAbi, discriminant_type, flags_repr};
pub use arena::{Arena, Id};
pub use error::{Error, Span};
pub use function::{Function, FunctionKind};
pub use ident::validate_id;
pub use merge::merge_world_items;
pub use relocate::Remap;
pub use resolve::{AstItem, Package, PackageId, Resolve, UnresolvedPackage};
pub use resource::{Params, Resource, ResourceFunc, ResourceFuncKind};
pub use stability::Stability;
pub use traverse::find_futures_and_streams;
pub use types::{
    Case, Docs, Enum, EnumCase, Field, Flag, Flags, Handle, InterfaceId, Record, Result_, Tuple, Type, TypeDef,
    TypeDefKind, TypeId, TypeOwner, Variant, WorldId,
};
pub use version::{PackageName, PackageNotFoundError, Version};
pub use world::{IncludeName, Interface, World, WorldItem, WorldItems, WorldKey};
