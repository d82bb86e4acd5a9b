//! Representation rules (discriminant width, flag storage) and the ABI and
//! name-mangling choices used when naming core imports and exports.
use vstd::prelude::*;
use crate::error::Error;
use crate::text::str_eq;

verus! {

/// An unsigned integer width used to store a discriminant.
#[derive(Debug, Copy, Clone, PartialEq, Eq, Structural)]
pub enum Int {
    U8,
    U16,
    U32,
    U64,
}

/// The narrowest width that can hold the discriminants `0 .. n - 1`.
pub open spec fn discriminant_type_spec(n: nat) -> Int {
    if n <= 0x100 {
        Int::U8
    } else if n <= 0x1_0000 {
        Int::U16
    } else {
        Int::U32
    }
}

/// Picks the discriminant width for a variant or enum with `num_cases` cases.
pub fn discriminant_type(num_cases: usize) -> (r: Int)
    requires
        num_cases <= 0x1_0000_0000,
    ensures
        r == discriminant_type_spec(num_cases as nat),
{
    if num_cases <= 0x100 {
        Int::U8
    } else if num_cases <= 0x1_0000 {
        Int::U16
    } else {
        Int::U32
    }
}

/// How a set of flags is stored.
#[derive(Debug, Clone, PartialEq, Eq, Structural)]
pub enum FlagsRepr {
    U8,
    U16,
    U32(usize),
}

/// The number of 32-bit words needed for `n` bits.
pub open spec fn words_for(n: nat) -> nat {
    (n + 31) / 32
}

/// The storage chosen for `n` flags.
pub open spec fn flags_repr_spec(n: nat) -> FlagsRepr {
    if n == 0 {
        FlagsRepr::U32(0)
    } else if n <= 8 {
        FlagsRepr::U8
    } else if n <= 16 {
        FlagsRepr::U16
    } else {
        FlagsRepr::U32(words_for(n) as usize)
    }
}

/// Picks the storage for `n` flags.
pub fn flags_repr(n: usize) -> (r: FlagsRepr)
    ensures
        r == flags_repr_spec(n as nat),
{
    if n == 0 {
        FlagsRepr::U32(0)
    } else if n <= 8 {
        FlagsRepr::U8
    } else if n <= 16 {
        FlagsRepr::U16
    } else {
        let words = n / 32 + if n % 32 == 0 { 0usize } else { 1usize };
        assert(words == words_for(n as nat));
        FlagsRepr::U32(words)
    }
}

impl FlagsRepr {
    /// The number of storage units of this representation.
    pub open spec fn count_spec(&self) -> nat {
        match self {
            FlagsRepr::U8 => 1,
            FlagsRepr::U16 => 1,
            FlagsRepr::U32(n) => *n as nat,
        }
    }

    pub fn count(&self) -> (r: usize)
        ensures
            r == self.count_spec(),
    {
        match self {
            FlagsRepr::U8 => 1,
            FlagsRepr::U16 => 1,
            FlagsRepr::U32(n) => *n,
        }
    }
}

/// Possible forms of name mangling.
#[derive(Clone, Copy, Debug, PartialEq, Eq, Hash, Structural)]
pub enum Mangling {
    /// The standard scheme for 32-bit linear memories.
    Standard32,
    /// The older scheme, kept while tools move to the standard one.
    Legacy,
}

impl Mangling {
    /// Reads a mangling from its name, `legacy` or `standard32`.
    pub fn parse(s: &str) -> (r: Result<Mangling, Error>)
        ensures
            s@ == "legacy"@ ==> r == Ok::<Mangling, Error>(Mangling::Legacy),
            s@ == "standard32"@ ==> r == Ok::<Mangling, Error>(Mangling::Standard32),
            s@ != "legacy"@ && s@ != "standard32"@ ==> r is Err,
    {
        proof {
            reveal_strlit("legacy");
            reveal_strlit("standard32");
            assert("legacy"@.len() != "standard32"@.len());
        }
        if str_eq(s, "legacy") {
            Ok(Mangling::Legacy)
        } else if str_eq(s, "standard32") {
            Ok(Mangling::Standard32)
        } else {
            let mut msg = String::from_str("unknown name mangling `");
            msg.append(s);
            msg.append("`, supported values are `legacy` or `standard32`");
            Err(Error::without_span(msg))
        }
    }
}

impl std::str::FromStr for Mangling {
    type Err = Error;

    fn from_str(s: &str) -> Result<Mangling, Error> {
        Mangling::parse(s)
    }
}

/// Which calling convention a generated core function uses.
#[derive(Clone, Copy, Debug, PartialEq, Eq, Hash, Structural)]
pub enum AbiVariant {
    GuestImport,
    GuestExport,
    GuestImportAsync,
    GuestExportAsync,
    GuestExportAsyncStackful,
}

/// Possible lift/lower ABI choices.
#[derive(Clone, Copy, Debug, PartialEq, Eq, Hash, Structural)]
pub enum LiftLowerAbi {
    /// Imports and exports both use the synchronous ABI.
    Sync,
    /// Imports and exports both use the async ABI, exports with a callback.
    AsyncCallback,
    /// Imports and exports both use the async ABI, exports without a callback.
    AsyncStackful,
}

impl LiftLowerAbi {
    pub open spec fn import_prefix_spec(self) -> Seq<char> {
        match self {
            LiftLowerAbi::Sync => seq![],
            _ => "[async-lower]"@,
        }
    }

    pub open spec fn export_prefix_spec(self) -> Seq<char> {
        match self {
            LiftLowerAbi::Sync => seq![],
            LiftLowerAbi::AsyncCallback => "[async-lift]"@,
            LiftLowerAbi::AsyncStackful => "[async-lift-stackful]"@,
        }
    }

    pub open spec fn import_variant_spec(self) -> AbiVariant {
        match self {
            LiftLowerAbi::Sync => AbiVariant::GuestImport,
            _ => AbiVariant::GuestImportAsync,
        }
    }

    pub open spec fn export_variant_spec(self) -> AbiVariant {
        match self {
            LiftLowerAbi::Sync => AbiVariant::GuestExport,
            LiftLowerAbi::AsyncCallback => AbiVariant::GuestExportAsync,
            LiftLowerAbi::AsyncStackful => AbiVariant::GuestExportAsyncStackful,
        }
    }

    /// The prefix put on generated import names.
    pub fn import_prefix(self) -> (r: &'static str)
        ensures
            r@ == self.import_prefix_spec(),
    {
        proof {
            reveal_strlit("");
        }
        match self {
            LiftLowerAbi::Sync => "",
            LiftLowerAbi::AsyncCallback | LiftLowerAbi::AsyncStackful => "[async-lower]",
        }
    }

    /// The import ABI variant of this choice.
    pub fn import_variant(self) -> (r: AbiVariant)
        ensures
            r == self.import_variant_spec(),
    {
        match self {
            LiftLowerAbi::Sync => AbiVariant::GuestImport,
            LiftLowerAbi::AsyncCallback | LiftLowerAbi::AsyncStackful => AbiVariant::GuestImportAsync,
        }
    }

    /// The prefix put on generated export names.
    pub fn export_prefix(self) -> (r: &'static str)
        ensures
            r@ == self.export_prefix_spec(),
    {
        proof {
            reveal_strlit("");
        }
        match self {
            LiftLowerAbi::Sync => "",
            LiftLowerAbi::AsyncCallback => "[async-lift]",
            LiftLowerAbi::AsyncStackful => "[async-lift-stackful]",
        }
    }

    /// The export ABI variant of this choice.
    pub fn export_variant(self) -> (r: AbiVariant)
        ensures
            r == self.export_variant_spec(),
    {
        match self {
            LiftLowerAbi::Sync => AbiVariant::GuestExport,
            LiftLowerAbi::AsyncCallback => AbiVariant::GuestExportAsync,
            LiftLowerAbi::AsyncStackful => AbiVariant::GuestExportAsyncStackful,
        }
    }
}

/// A name mangling together with an ABI choice; the standard mangling is
/// synchronous only.
#[derive(Clone, Copy, Debug, PartialEq, Eq, Hash, Structural)]
pub enum ManglingAndAbi {
    Standard32,
    Legacy(LiftLowerAbi),
}

impl ManglingAndAbi {
    pub open spec fn is_async_spec(self) -> bool {
        match self {
            ManglingAndAbi::Legacy(LiftLowerAbi::AsyncCallback) => true,
            ManglingAndAbi::Legacy(LiftLowerAbi::AsyncStackful) => true,
            _ => false,
        }
    }

    pub fn import_variant(self) -> (r: AbiVariant)
        ensures
            r == match self {
                ManglingAndAbi::Standard32 => AbiVariant::GuestImport,
                ManglingAndAbi::Legacy(abi) => abi.import_variant_spec(),
            },
    {
        match self {
            ManglingAndAbi::Standard32 => AbiVariant::GuestImport,
            ManglingAndAbi::Legacy(abi) => abi.import_variant(),
        }
    }

    pub fn export_variant(self) -> (r: AbiVariant)
        ensures
            r == match self {
                ManglingAndAbi::Standard32 => AbiVariant::GuestExport,
                ManglingAndAbi::Legacy(abi) => abi.export_variant_spec(),
            },
    {
        match self {
            ManglingAndAbi::Standard32 => AbiVariant::GuestExport,
            ManglingAndAbi::Legacy(abi) => abi.export_variant(),
        }
    }

    /// The synchronous counterpart: async legacy choices become legacy sync,
    /// anything else stays as it is.
    pub fn sync(self) -> (r: Self)
        ensures
            r == (if self.is_async_spec() { ManglingAndAbi::Legacy(LiftLowerAbi::Sync) } else { self }),
            !r.is_async_spec(),
    {
        match self {
            ManglingAndAbi::Standard32 | ManglingAndAbi::Legacy(LiftLowerAbi::Sync) => self,
            ManglingAndAbi::Legacy(LiftLowerAbi::AsyncCallback)
            | ManglingAndAbi::Legacy(LiftLowerAbi::AsyncStackful) => ManglingAndAbi::Legacy(LiftLowerAbi::Sync),
        }
    }

    /// Whether this choice uses an async lowering.
    pub fn is_async(&self) -> (r: bool)
        ensures
            r == self.is_async_spec(),
    {
        match self {
            ManglingAndAbi::Standard32 | ManglingAndAbi::Legacy(LiftLowerAbi::Sync) => false,
            ManglingAndAbi::Legacy(LiftLowerAbi::AsyncCallback)
            | ManglingAndAbi::Legacy(LiftLowerAbi::AsyncStackful) => true,
        }
    }
}

} // verus!
