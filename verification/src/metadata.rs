//! The schema model: what this library reads out of a runtime's metadata.
//!
//! Eight historic metadata layouts are normalised into two families. The
//! legacy family (everything before self-describing type tables) names its
//! types by strings; the portable family indexes a type table by number.
//! The conversion from a fetched metadata document into this model is plain
//! value-for-value copying and lives with the binary around the library.

use vstd::prelude::*;

verus! {

/// Hasher used by storage maps.
#[derive(Debug, Clone, Copy, PartialEq, Eq, Structural)]
pub enum StorageHasher {
    /// 128-bit Blake2 hash.
    Blake2_128,
    /// 256-bit Blake2 hash.
    Blake2_256,
    /// 128-bit Blake2 hash of the key, followed by the key itself.
    Blake2_128Concat,
    /// 128-bit XX hash.
    Twox128,
    /// 256-bit XX hash.
    Twox256,
    /// 64-bit XX hash of the key, followed by the key itself.
    Twox64Concat,
    /// Identity hashing (no hashing).
    Identity,
}

impl StorageHasher {
    /// The number of hash bytes this hasher contributes to a storage key.
    pub open spec fn spec_hash_len(self) -> int {
        match self {
            StorageHasher::Blake2_128 => 16,
            StorageHasher::Blake2_256 => 32,
            StorageHasher::Blake2_128Concat => 16,
            StorageHasher::Twox128 => 16,
            StorageHasher::Twox256 => 32,
            StorageHasher::Twox64Concat => 8,
            StorageHasher::Identity => 0,
        }
    }

    /// The hash bytes for this hasher are followed by the encoded key, so
    /// the original key can be read back from the storage key bytes.
    pub open spec fn spec_is_reversible(self) -> bool {
        match self {
            StorageHasher::Blake2_128Concat => true,
            StorageHasher::Twox64Concat => true,
            StorageHasher::Identity => true,
            _ => false,
        }
    }

    /// Executable form of [`Self::spec_hash_len`].
    pub fn hash_len(self) -> (r: usize)
        ensures
            r == self.spec_hash_len(),
    {
        match self {
            StorageHasher::Blake2_128 => 16,
            StorageHasher::Blake2_256 => 32,
            StorageHasher::Blake2_128Concat => 16,
            StorageHasher::Twox128 => 16,
            StorageHasher::Twox256 => 32,
            StorageHasher::Twox64Concat => 8,
            StorageHasher::Identity => 0,
        }
    }

    /// Executable form of [`Self::spec_is_reversible`].
    pub fn is_reversible(self) -> (r: bool)
        ensures
            r == self.spec_is_reversible(),
    {
        match self {
            StorageHasher::Blake2_128Concat => true,
            StorageHasher::Twox64Concat => true,
            StorageHasher::Identity => true,
            _ => false,
        }
    }
}

/// One declared argument of a call: its name and the type name to decode it at.
#[derive(Debug)]
pub struct ArgMeta {
    pub name: String,
    pub ty: String,
}

/// One call of a module: its name and declared arguments, in order.
#[derive(Debug)]
pub struct CallMeta {
    pub name: String,
    pub args: Vec<ArgMeta>,
}

/// One event of a module: its name and argument type names, in order.
#[derive(Debug)]
pub struct EventMeta {
    pub name: String,
    pub args: Vec<String>,
}

/// The shape of one legacy storage entry.
#[derive(Debug)]
pub enum LegacyStorageTy {
    /// A single value, not iterable.
    Plain { value: String },
    /// A map with one key.
    SingleMap { hasher: StorageHasher, key: String, value: String },
    /// A map with two keys, each with its own hasher.
    DoubleMap {
        hasher: StorageHasher,
        key1: String,
        key2: String,
        key2_hasher: StorageHasher,
        value: String,
    },
    /// A map with N keys; hashers are paired with keys by the rule in
    /// `StorageTypeInfo`.
    NMap { hashers: Vec<StorageHasher>, keys: Vec<String>, value: String },
}

/// One legacy storage entry: its name and shape.
#[derive(Debug)]
pub struct LegacyStorageEntryMeta {
    pub name: String,
    pub ty: LegacyStorageTy,
}

/// One module (pallet) of a legacy runtime.
#[derive(Debug)]
pub struct ModuleMeta {
    pub name: String,
    /// The module's declared index. Only meaningful for layouts with
    /// explicit indices; position-based layouts leave it zero.
    pub index: u8,
    pub calls: Option<Vec<CallMeta>>,
    pub events: Option<Vec<EventMeta>>,
    pub storage: Option<Vec<LegacyStorageEntryMeta>>,
}

/// A legacy (string-typed) metadata document.
#[derive(Debug)]
pub struct LegacyMetadata {
    pub modules: Vec<ModuleMeta>,
    /// Whether a call's pallet is selected by the module's declared `index`
    /// field; if not, it is selected by position among the modules that
    /// declare calls.
    pub explicit_indices: bool,
    /// Whether the document names its signed extensions; if not, a
    /// hand-authored `hardcoded::ExtrinsicSignedExtensions` type stands for
    /// all of them.
    pub named_extensions: bool,
    /// The declared signed-extension type names, where `named_extensions`.
    pub signed_extensions: Vec<String>,
}

/// One field of a variant in the portable type table.
#[derive(Debug)]
pub struct FieldMeta {
    pub name: Option<String>,
    pub ty: u32,
}

/// One variant of a tagged-union type in the portable type table.
#[derive(Debug)]
pub struct VariantMeta {
    pub index: u8,
    pub name: String,
    pub fields: Vec<FieldMeta>,
}

/// What this library needs to know of a portable type's definition.
#[derive(Debug)]
pub enum TypeDefMeta {
    Variant { variants: Vec<VariantMeta> },
    Tuple { fields: Vec<u32> },
    Other,
}

/// One generic parameter of a portable type.
#[derive(Debug)]
pub struct TypeParamMeta {
    pub name: String,
    pub ty: Option<u32>,
}

/// One entry of the portable type table.
#[derive(Debug)]
pub struct PortableTypeMeta {
    pub id: u32,
    pub params: Vec<TypeParamMeta>,
    pub def: TypeDefMeta,
}

/// The shape of one portable storage entry.
#[derive(Debug)]
pub enum PortableStorageTy {
    Plain { value: u32 },
    Keyed { hashers: Vec<StorageHasher>, key: u32, value: u32 },
}

/// One portable storage entry: its name and shape.
#[derive(Debug)]
pub struct PortableStorageEntryMeta {
    pub name: String,
    pub ty: PortableStorageTy,
}

/// One pallet of a portable runtime; its calls type, if any, points into
/// the type table.
#[derive(Debug)]
pub struct PortablePalletMeta {
    pub name: String,
    pub index: u8,
    pub calls: Option<u32>,
    pub storage: Option<Vec<PortableStorageEntryMeta>>,
}

/// One signed extension: its name and the type to decode it at.
#[derive(Debug)]
pub struct SignedExtMeta {
    pub name: String,
    pub ty: u32,
}

/// What the portable metadata says of the extrinsic envelope.
#[derive(Debug)]
pub struct ExtrinsicMeta {
    /// The extrinsic type itself; its `Address`/`Signature` parameters are
    /// consulted where the address and signature types are not given
    /// directly.
    pub ty: u32,
    pub address_ty: Option<u32>,
    pub signature_ty: Option<u32>,
    pub signed_extensions: Vec<SignedExtMeta>,
}

/// A portable (self-describing) metadata document: the model read by the
/// schema logic, plus the type registry the byte decoder resolves against.
pub struct PortableMetadata {
    pub pallets: Vec<PortablePalletMeta>,
    pub types: Vec<PortableTypeMeta>,
    pub extrinsic: ExtrinsicMeta,
    pub registry: scale_info::PortableRegistry,
}

impl PortableMetadata {
    /// The position of type `id` in the type table, if present.
    pub open spec fn spec_resolve(&self, id: u32) -> Option<int> {
        find_type_index(self.types@, id, 0)
    }

    /// Look `id` up in the type table.
    pub fn resolve(&self, id: u32) -> (r: Option<&PortableTypeMeta>)
        ensures
            match self.spec_resolve(id) {
                Some(i) => r matches Some(t) && t == &self.types@[i] && t.id == id,
                None => r is None,
            },
    {
        let mut i: usize = 0;
        while i < self.types.len()
            invariant
                i <= self.types.len(),
                find_type_index(self.types@, id, 0) == find_type_index(self.types@, id, i as int),
                forall|j: int| 0 <= j < i ==> (#[trigger] self.types@[j]).id != id,
            decreases self.types.len() - i,
        {
            if self.types[i].id == id {
                return Some(&self.types[i]);
            }
            i += 1;
        }
        None
    }
}

/// The first position at or after `i` whose type has the given id.
pub open spec fn find_type_index(types: Seq<PortableTypeMeta>, id: u32, i: int) -> Option<int>
    decreases types.len() - i,
        when 0 <= i <= types.len()
{
    if i >= types.len() {
        None
    } else if types[i].id == id {
        Some(i)
    } else {
        find_type_index(types, id, i + 1)
    }
}

/// A runtime metadata document, tagged by the historic layout version it
/// arrived in. The layout quirks live in the two family models; the tag
/// selects which decoding rules apply.
pub enum Metadata {
    V8(LegacyMetadata),
    V9(LegacyMetadata),
    V10(LegacyMetadata),
    V11(LegacyMetadata),
    V12(LegacyMetadata),
    V13(LegacyMetadata),
    V14(PortableMetadata),
    V15(PortableMetadata),
}

impl Metadata {
    /// The legacy document, for versions of the legacy family.
    pub open spec fn spec_as_legacy(&self) -> Option<&LegacyMetadata> {
        match self {
            Metadata::V8(m) => Some(m),
            Metadata::V9(m) => Some(m),
            Metadata::V10(m) => Some(m),
            Metadata::V11(m) => Some(m),
            Metadata::V12(m) => Some(m),
            Metadata::V13(m) => Some(m),
            _ => None,
        }
    }

    /// The portable document, for versions of the portable family.
    pub open spec fn spec_as_portable(&self) -> Option<&PortableMetadata> {
        match self {
            Metadata::V14(m) => Some(m),
            Metadata::V15(m) => Some(m),
            _ => None,
        }
    }
}

} // verus!
