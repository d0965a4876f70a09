//! Extracting, from either metadata family, the hasher/key/value schema of
//! a storage entry, including the hasher-pairing rule for multi-key maps:
//! one declared hasher serves every key, one hasher per key pairs
//! positionally, and any other combination is a schema error.

use crate::errors::SchemaError;
use crate::metadata::{
    LegacyMetadata, LegacyStorageEntryMeta, LegacyStorageTy, ModuleMeta, PortableMetadata,
    PortablePalletMeta, PortableStorageEntryMeta, PortableStorageTy, StorageHasher, TypeDefMeta,
    Metadata,
};
use crate::extrinsic_type_info::LookupId;
use crate::type_resolver::{lookup_name_parses, parses_as_type_name};
use crate::utils::{sanitize_type_name, str_eq};
use vstd::prelude::*;

verus! {

/// The decode schema of one storage entry: no keys for a plain entry, or
/// one `(hasher, type)` pair per map key, plus the value's type.
#[derive(Debug)]
pub struct StorageInfo<TypeId> {
    /// No entries if a plain storage entry, or N entries for N maps.
    pub keys: Vec<StorageKey<TypeId>>,
    /// The type of the values.
    pub value_id: TypeId,
}

/// How one key of a storage map is hashed, and the type of the key.
#[derive(Debug)]
pub struct StorageKey<TypeId> {
    pub hasher: StorageHasher,
    pub key_id: TypeId,
}

/// This is implemented by both metadata families and is responsible for
/// extracting the info needed to decode storage entries.
pub trait StorageTypeInfo {
    type TypeId;

    /// Get the information needed to decode a specific storage entry's
    /// key/value.
    fn get_storage_info(&self, pallet_name: &str, storage_entry: &str) -> Result<
        StorageInfo<Self::TypeId>,
        SchemaError,
    >;
}

/// A type name as the storage schema presents it: newlines stripped out.
pub open spec fn san(s: Seq<char>) -> Seq<char> {
    s.filter(|c: char| c != '\n')
}

/// The position, at or after `i`, of the first module with the given name.
pub open spec fn find_module_by_name(modules: Seq<ModuleMeta>, i: int, name: Seq<char>) -> Option<
    int,
>
    decreases modules.len() - i,
        when 0 <= i <= modules.len()
{
    if i >= modules.len() {
        None
    } else if modules[i].name@ == name {
        Some(i)
    } else {
        find_module_by_name(modules, i + 1, name)
    }
}

/// The position, at or after `i`, of the first legacy entry with the name.
pub open spec fn find_legacy_entry(
    entries: Seq<LegacyStorageEntryMeta>,
    i: int,
    name: Seq<char>,
) -> Option<int>
    decreases entries.len() - i,
        when 0 <= i <= entries.len()
{
    if i >= entries.len() {
        None
    } else if entries[i].name@ == name {
        Some(i)
    } else {
        find_legacy_entry(entries, i + 1, name)
    }
}

/// The position, at or after `i`, of the first portable pallet with the name.
pub open spec fn find_pallet_by_name(
    pallets: Seq<PortablePalletMeta>,
    i: int,
    name: Seq<char>,
) -> Option<int>
    decreases pallets.len() - i,
        when 0 <= i <= pallets.len()
{
    if i >= pallets.len() {
        None
    } else if pallets[i].name@ == name {
        Some(i)
    } else {
        find_pallet_by_name(pallets, i + 1, name)
    }
}

/// The position, at or after `i`, of the first portable entry with the name.
pub open spec fn find_portable_entry(
    entries: Seq<PortableStorageEntryMeta>,
    i: int,
    name: Seq<char>,
) -> Option<int>
    decreases entries.len() - i,
        when 0 <= i <= entries.len()
{
    if i >= entries.len() {
        None
    } else if entries[i].name@ == name {
        Some(i)
    } else {
        find_portable_entry(entries, i + 1, name)
    }
}

/// The `(hasher, key type name)` pairs a legacy entry's keys decode with,
/// or nothing if the entry declares mismatched hasher and key counts.
/// If exactly one hasher is declared for N keys, it applies to every key;
/// if the hasher count equals the key count, they pair positionally.
pub open spec fn expected_legacy_keys(ty: LegacyStorageTy) -> Option<
    Seq<(StorageHasher, Seq<char>)>,
> {
    match ty {
        LegacyStorageTy::Plain { .. } => Some(Seq::empty()),
        LegacyStorageTy::SingleMap { hasher, key, .. } => Some(seq![(hasher, san(key@))]),
        LegacyStorageTy::DoubleMap { hasher, key1, key2, key2_hasher, .. } => Some(
            seq![(hasher, san(key1@)), (key2_hasher, san(key2@))],
        ),
        LegacyStorageTy::NMap { hashers, keys, .. } => {
            if hashers@.len() == 1 {
                Some(Seq::new(keys@.len(), |i: int| (hashers@[0], keys@[i]@)))
            } else if hashers@.len() == keys@.len() {
                Some(Seq::new(keys@.len(), |i: int| (hashers@[i], keys@[i]@)))
            } else {
                None
            }
        },
    }
}

/// The type name a legacy entry's values decode with.
pub open spec fn expected_legacy_value(ty: LegacyStorageTy) -> Seq<char> {
    match ty {
        LegacyStorageTy::Plain { value } => san(value@),
        LegacyStorageTy::SingleMap { value, .. } => san(value@),
        LegacyStorageTy::DoubleMap { value, .. } => san(value@),
        LegacyStorageTy::NMap { value, .. } => san(value@),
    }
}

/// Every key type name of a legacy entry parses as a type path.
pub open spec fn legacy_key_names_parse(ty: LegacyStorageTy) -> bool {
    match ty {
        LegacyStorageTy::Plain { .. } => true,
        LegacyStorageTy::SingleMap { key, .. } => parses_as_type_name(san(key@)),
        LegacyStorageTy::DoubleMap { key1, key2, .. } => parses_as_type_name(san(key1@))
            && parses_as_type_name(san(key2@)),
        LegacyStorageTy::NMap { keys, .. } => forall|i: int|
            0 <= i < keys@.len() ==> parses_as_type_name((#[trigger] keys@[i])@),
    }
}

/// Key list against the expected pairs, each key's type scoped to the pallet.
pub open spec fn legacy_keys_match(
    keys: Seq<StorageKey<LookupId>>,
    exp: Seq<(StorageHasher, Seq<char>)>,
    pallet: Seq<char>,
) -> bool {
    &&& keys.len() == exp.len()
    &&& forall|i: int|
        0 <= i < exp.len() ==> {
            &&& (#[trigger] keys[i]).hasher == exp[i].0
            &&& keys[i].key_id.name@ == exp[i].1
            &&& keys[i].key_id.pallet matches Some(p) && p@ == pallet
        }
}

/// The shape of the entry a legacy document declares under
/// `pallet.entry`, if the pallet, its storage, and the entry all exist.
pub open spec fn legacy_entry_ty(m: &LegacyMetadata, pallet: Seq<char>, entry: Seq<char>) -> Option<
    LegacyStorageTy,
> {
    match find_module_by_name(m.modules@, 0, pallet) {
        None => None,
        Some(mi) => match m.modules@[mi].storage {
            None => None,
            Some(entries) => match find_legacy_entry(entries@, 0, entry) {
                None => None,
                Some(ei) => Some(entries@[ei].ty),
            },
        },
    }
}

/// The whole legacy storage schema lookup succeeds for this entry: it
/// exists, its declared type names parse, and its hashers are consistent.
pub open spec fn legacy_storage_schema_ok(
    m: &LegacyMetadata,
    pallet: Seq<char>,
    entry: Seq<char>,
) -> bool {
    match legacy_entry_ty(m, pallet, entry) {
        Some(ty) => parses_as_type_name(expected_legacy_value(ty)) && legacy_key_names_parse(ty)
            && expected_legacy_keys(ty) is Some,
        None => false,
    }
}

impl LegacyMetadata {
    /// The storage schema of `pallet_name.storage_entry`. Fails when the
    /// pallet, its storage, or the entry is missing, when a declared type
    /// name does not parse, or when a multi-key entry's hasher count
    /// neither is one nor matches its key count.
    pub fn storage_info(&self, pallet_name: &str, storage_entry: &str) -> (r: Result<
        StorageInfo<LookupId>,
        SchemaError,
    >)
        ensures
            match find_module_by_name(self.modules@, 0, pallet_name@) {
                None => r matches Err(SchemaError::PalletNotFound { name }) && name@
                    == pallet_name@,
                Some(mi) => match self.modules@[mi].storage {
                    None => r matches Err(SchemaError::NoStorageInPallet { pallet }) && pallet@
                        == pallet_name@,
                    Some(entries) => match find_legacy_entry(entries@, 0, storage_entry@) {
                        None => r matches Err(SchemaError::StorageEntryNotFound { pallet, entry })
                            && pallet@ == pallet_name@ && entry@ == storage_entry@,
                        Some(ei) => {
                            let ty = entries@[ei].ty;
                            if !parses_as_type_name(expected_legacy_value(ty)) {
                                r matches Err(SchemaError::InvalidTypeName { .. })
                            } else {
                                match expected_legacy_keys(ty) {
                                    None => r matches Err(SchemaError::HasherKeyCountMismatch {
                                        hashers,
                                        keys,
                                    }) && (ty matches LegacyStorageTy::NMap {
                                        hashers: hs,
                                        keys: ks,
                                        ..
                                    } && hashers == hs@.len() && keys == ks@.len()),
                                    Some(exp) => {
                                        if legacy_key_names_parse(ty) {
                                            r matches Ok(info) && legacy_keys_match(
                                                info.keys@,
                                                exp,
                                                pallet_name@,
                                            ) && info.value_id.name@ == expected_legacy_value(ty)
                                                && (info.value_id.pallet matches Some(p) && p@
                                                == pallet_name@)
                                        } else {
                                            r matches Err(SchemaError::InvalidTypeName { .. })
                                        }
                                    },
                                }
                            }
                        },
                    },
                },
            },
    {
        let mi = match self.module_named(pallet_name) {
            Some(mi) => mi,
            None => {
                return Err(SchemaError::PalletNotFound { name: pallet_name.to_owned() });
            },
        };
        let m = &self.modules[mi];
        let entries = match &m.storage {
            Some(entries) => entries,
            None => {
                return Err(SchemaError::NoStorageInPallet { pallet: pallet_name.to_owned() });
            },
        };
        let ei = match Self::entry_named(entries, storage_entry) {
            Some(ei) => ei,
            None => {
                return Err(
                    SchemaError::StorageEntryNotFound {
                        pallet: pallet_name.to_owned(),
                        entry: storage_entry.to_owned(),
                    },
                );
            },
        };
        let entry = &entries[ei];
        match &entry.ty {
            LegacyStorageTy::Plain { value } => {
                let value_id = lookup_name_in_pallet(value, pallet_name)?;
                Ok(StorageInfo { keys: Vec::new(), value_id })
            },
            LegacyStorageTy::SingleMap { hasher, key, value } => {
                let value_id = lookup_name_in_pallet(value, pallet_name)?;
                let key_id = lookup_name_in_pallet(key, pallet_name)?;
                let mut keys: Vec<StorageKey<LookupId>> = Vec::new();
                keys.push(StorageKey { hasher: *hasher, key_id });
                Ok(StorageInfo { keys, value_id })
            },
            LegacyStorageTy::DoubleMap { hasher, key1, key2, key2_hasher, value } => {
                let value_id = lookup_name_in_pallet(value, pallet_name)?;
                let key1_id = lookup_name_in_pallet(key1, pallet_name)?;
                let key2_id = lookup_name_in_pallet(key2, pallet_name)?;
                let mut keys: Vec<StorageKey<LookupId>> = Vec::new();
                keys.push(StorageKey { hasher: *hasher, key_id: key1_id });
                keys.push(StorageKey { hasher: *key2_hasher, key_id: key2_id });
                Ok(StorageInfo { keys, value_id })
            },
            LegacyStorageTy::NMap { hashers, keys, value } => {
                let value_id = lookup_name_in_pallet(value, pallet_name)?;
                // If one hasher and many keys then hash each key the same.
                // If one hasher per key then unique hasher per key.
                // Else, the declaration is in error.
                if hashers.len() == 1 {
                    let key_list = nmap_keys_uniform(keys, hashers[0], pallet_name)?;
                    Ok(StorageInfo { keys: key_list, value_id })
                } else if hashers.len() == keys.len() {
                    let key_list = nmap_keys_positional(keys, hashers, pallet_name)?;
                    Ok(StorageInfo { keys: key_list, value_id })
                } else {
                    Err(
                        SchemaError::HasherKeyCountMismatch {
                            hashers: hashers.len(),
                            keys: keys.len(),
                        },
                    )
                }
            },
        }
    }

    fn module_named(&self, name: &str) -> (r: Option<usize>)
        ensures
            match find_module_by_name(self.modules@, 0, name@) {
                Some(i) => 0 <= i < self.modules@.len() && (r matches Some(u) && u == i),
                None => r is None,
            },
    {
        let mut i: usize = 0;
        while i < self.modules.len()
            invariant
                i <= self.modules@.len(),
                find_module_by_name(self.modules@, 0, name@) == find_module_by_name(
                    self.modules@,
                    i as int,
                    name@,
                ),
            decreases self.modules@.len() - i,
        {
            if str_eq(self.modules[i].name.as_str(), name) {
                return Some(i);
            }
            i += 1;
        }
        None
    }

    fn entry_named(entries: &Vec<LegacyStorageEntryMeta>, name: &str) -> (r: Option<usize>)
        ensures
            match find_legacy_entry(entries@, 0, name@) {
                Some(i) => 0 <= i < entries@.len() && (r matches Some(u) && u == i),
                None => r is None,
            },
    {
        let mut i: usize = 0;
        while i < entries.len()
            invariant
                i <= entries@.len(),
                find_legacy_entry(entries@, 0, name@) == find_legacy_entry(
                    entries@,
                    i as int,
                    name@,
                ),
            decreases entries@.len() - i,
        {
            if str_eq(entries[i].name.as_str(), name) {
                return Some(i);
            }
            i += 1;
        }
        None
    }
}

impl StorageTypeInfo for LegacyMetadata {
    type TypeId = LookupId;

    fn get_storage_info(&self, pallet_name: &str, storage_entry: &str) -> Result<
        StorageInfo<LookupId>,
        SchemaError,
    > {
        self.storage_info(pallet_name, storage_entry)
    }
}

/// Sanitize a declared type name and check it parses; scope it to the pallet.
fn lookup_name_in_pallet(ty: &String, pallet_name: &str) -> (r: Result<LookupId, SchemaError>)
    ensures
        if parses_as_type_name(san(ty@)) {
            r matches Ok(id) && id.name@ == san(ty@) && (id.pallet matches Some(p) && p@
                == pallet_name@)
        } else {
            r matches Err(SchemaError::InvalidTypeName { name }) && name@ == san(ty@)
        },
{
    let name = sanitize_type_name(ty.as_str());
    if !lookup_name_parses(name.as_str()) {
        return Err(SchemaError::InvalidTypeName { name });
    }
    Ok(LookupId { name, pallet: Some(pallet_name.to_owned()) })
}

/// Pair every key with the single declared hasher; key names are used as
/// declared (unsanitized) and must parse.
fn nmap_keys_uniform(keys: &Vec<String>, hasher: StorageHasher, pallet_name: &str) -> (r: Result<
    Vec<StorageKey<LookupId>>,
    SchemaError,
>)
    ensures
        if forall|i: int| 0 <= i < keys@.len() ==> parses_as_type_name((#[trigger] keys@[i])@) {
            r matches Ok(ks) && ks@.len() == keys@.len() && forall|i: int|
                0 <= i < keys@.len() ==> {
                    &&& (#[trigger] ks@[i]).hasher == hasher
                    &&& ks@[i].key_id.name@ == keys@[i]@
                    &&& ks@[i].key_id.pallet matches Some(p) && p@ == pallet_name@
                }
        } else {
            r matches Err(SchemaError::InvalidTypeName { .. })
        },
{
    let mut ks: Vec<StorageKey<LookupId>> = Vec::new();
    let mut i: usize = 0;
    while i < keys.len()
        invariant
            i <= keys@.len(),
            ks@.len() == i,
            forall|k: int| 0 <= k < i ==> parses_as_type_name((#[trigger] keys@[k])@),
            forall|k: int|
                0 <= k < i ==> {
                    &&& (#[trigger] ks@[k]).hasher == hasher
                    &&& ks@[k].key_id.name@ == keys@[k]@
                    &&& ks@[k].key_id.pallet matches Some(p) && p@ == pallet_name@
                },
        decreases keys@.len() - i,
    {
        let key = &keys[i];
        if !lookup_name_parses(key.as_str()) {
            return Err(SchemaError::InvalidTypeName { name: key.clone() });
        }
        ks.push(
            StorageKey {
                hasher,
                key_id: LookupId { name: key.clone(), pallet: Some(pallet_name.to_owned()) },
            },
        );
        i += 1;
    }
    Ok(ks)
}

/// Pair keys and hashers positionally; the counts must match.
fn nmap_keys_positional(
    keys: &Vec<String>,
    hashers: &Vec<StorageHasher>,
    pallet_name: &str,
) -> (r: Result<Vec<StorageKey<LookupId>>, SchemaError>)
    requires
        keys@.len() == hashers@.len(),
    ensures
        if forall|i: int| 0 <= i < keys@.len() ==> parses_as_type_name((#[trigger] keys@[i])@) {
            r matches Ok(ks) && ks@.len() == keys@.len() && forall|i: int|
                0 <= i < keys@.len() ==> {
                    &&& (#[trigger] ks@[i]).hasher == hashers@[i]
                    &&& ks@[i].key_id.name@ == keys@[i]@
                    &&& ks@[i].key_id.pallet matches Some(p) && p@ == pallet_name@
                }
        } else {
            r matches Err(SchemaError::InvalidTypeName { .. })
        },
{
    let mut ks: Vec<StorageKey<LookupId>> = Vec::new();
    let mut i: usize = 0;
    while i < keys.len()
        invariant
            keys@.len() == hashers@.len(),
            i <= keys@.len(),
            ks@.len() == i,
            forall|k: int| 0 <= k < i ==> parses_as_type_name((#[trigger] keys@[k])@),
            forall|k: int|
                0 <= k < i ==> {
                    &&& (#[trigger] ks@[k]).hasher == hashers@[k]
                    &&& ks@[k].key_id.name@ == keys@[k]@
                    &&& ks@[k].key_id.pallet matches Some(p) && p@ == pallet_name@
                },
        decreases keys@.len() - i,
    {
        let key = &keys[i];
        if !lookup_name_parses(key.as_str()) {
            return Err(SchemaError::InvalidTypeName { name: key.clone() });
        }
        ks.push(
            StorageKey {
                hasher: hashers[i],
                key_id: LookupId { name: key.clone(), pallet: Some(pallet_name.to_owned()) },
            },
        );
        i += 1;
    }
    Ok(ks)
}

/// The `(hasher, type id)` pairs a portable entry's keys decode with:
/// `None` for a missing key type, `Some(None)` for mismatched counts.
pub open spec fn expected_portable_keys(m: &PortableMetadata, ty: PortableStorageTy) -> Option<
    Option<Seq<(StorageHasher, u32)>>,
> {
    match ty {
        PortableStorageTy::Plain { .. } => Some(Some(Seq::empty())),
        PortableStorageTy::Keyed { hashers, key, .. } => match m.spec_resolve(key) {
            None => None,
            Some(ti) => match m.types@[ti].def {
                TypeDefMeta::Tuple { fields } => {
                    if hashers@.len() == 1 {
                        Some(Some(Seq::new(fields@.len(), |i: int| (hashers@[0], fields@[i]))))
                    } else if hashers@.len() == fields@.len() {
                        Some(Some(Seq::new(fields@.len(), |i: int| (hashers@[i], fields@[i]))))
                    } else {
                        Some(None)
                    }
                },
                _ => {
                    if hashers@.len() == 1 {
                        Some(Some(seq![(hashers@[0], key)]))
                    } else {
                        Some(None)
                    }
                },
            },
        },
    }
}

/// The type id a portable entry's values decode with.
pub open spec fn expected_portable_value(ty: PortableStorageTy) -> u32 {
    match ty {
        PortableStorageTy::Plain { value } => value,
        PortableStorageTy::Keyed { value, .. } => value,
    }
}

/// Key list against the expected pairs.
pub open spec fn portable_keys_match(
    keys: Seq<StorageKey<u32>>,
    exp: Seq<(StorageHasher, u32)>,
) -> bool {
    &&& keys.len() == exp.len()
    &&& forall|i: int|
        0 <= i < exp.len() ==> {
            &&& (#[trigger] keys[i]).hasher == exp[i].0
            &&& keys[i].key_id == exp[i].1
        }
}

/// The shape of the entry a portable document declares under `pallet.entry`.
pub open spec fn portable_entry_ty(
    m: &PortableMetadata,
    pallet: Seq<char>,
    entry: Seq<char>,
) -> Option<PortableStorageTy> {
    match find_pallet_by_name(m.pallets@, 0, pallet) {
        None => None,
        Some(pi) => match m.pallets@[pi].storage {
            None => None,
            Some(entries) => match find_portable_entry(entries@, 0, entry) {
                None => None,
                Some(ei) => Some(entries@[ei].ty),
            },
        },
    }
}

/// The whole portable storage schema lookup succeeds for this entry: it
/// exists, its key type resolves, and its hashers are consistent.
pub open spec fn portable_storage_schema_ok(
    m: &PortableMetadata,
    pallet: Seq<char>,
    entry: Seq<char>,
) -> bool {
    match portable_entry_ty(m, pallet, entry) {
        Some(ty) => expected_portable_keys(m, ty) matches Some(Some(_)),
        None => false,
    }
}

impl PortableMetadata {
    /// The storage schema of `pallet_name.storage_entry`. A map's key type
    /// is looked up in the type table; a tuple key carries one key per
    /// field, paired with the hashers by the multi-key rule, and any other
    /// key type is a single key requiring exactly one hasher.
    pub fn storage_info(&self, pallet_name: &str, storage_entry: &str) -> (r: Result<
        StorageInfo<u32>,
        SchemaError,
    >)
        ensures
            match find_pallet_by_name(self.pallets@, 0, pallet_name@) {
                None => r matches Err(SchemaError::PalletNotFound { name }) && name@
                    == pallet_name@,
                Some(pi) => match self.pallets@[pi].storage {
                    None => r matches Err(SchemaError::NoStorageInPallet { pallet }) && pallet@
                        == pallet_name@,
                    Some(entries) => match find_portable_entry(entries@, 0, storage_entry@) {
                        None => r matches Err(SchemaError::StorageEntryNotFound { pallet, entry })
                            && pallet@ == pallet_name@ && entry@ == storage_entry@,
                        Some(ei) => {
                            let ty = entries@[ei].ty;
                            match expected_portable_keys(self, ty) {
                                None => r matches Err(SchemaError::TypeNotFound { id }) && (
                                ty matches PortableStorageTy::Keyed { key, .. } && id == key),
                                Some(None) => r matches Err(
                                    SchemaError::HasherKeyCountMismatch { .. },
                                ),
                                Some(Some(exp)) => r matches Ok(info) && portable_keys_match(
                                    info.keys@,
                                    exp,
                                ) && info.value_id == expected_portable_value(ty),
                            }
                        },
                    },
                },
            },
    {
        let pi = match self.pallet_named(pallet_name) {
            Some(pi) => pi,
            None => {
                return Err(SchemaError::PalletNotFound { name: pallet_name.to_owned() });
            },
        };
        let pallet = &self.pallets[pi];
        let entries = match &pallet.storage {
            Some(entries) => entries,
            None => {
                return Err(SchemaError::NoStorageInPallet { pallet: pallet_name.to_owned() });
            },
        };
        let ei = match Self::portable_entry_named(entries, storage_entry) {
            Some(ei) => ei,
            None => {
                return Err(
                    SchemaError::StorageEntryNotFound {
                        pallet: pallet_name.to_owned(),
                        entry: storage_entry.to_owned(),
                    },
                );
            },
        };
        let entry = &entries[ei];
        match &entry.ty {
            PortableStorageTy::Plain { value } => {
                Ok(StorageInfo { keys: Vec::new(), value_id: *value })
            },
            PortableStorageTy::Keyed { hashers, key, value } => {
                let key_ty = match self.resolve(*key) {
                    Some(t) => t,
                    None => {
                        return Err(SchemaError::TypeNotFound { id: *key });
                    },
                };
                match &key_ty.def {
                    TypeDefMeta::Tuple { fields } => {
                        if hashers.len() == 1 {
                            Ok(
                                StorageInfo {
                                    keys: portable_keys_uniform(fields, hashers[0]),
                                    value_id: *value,
                                },
                            )
                        } else if hashers.len() == fields.len() {
                            Ok(
                                StorageInfo {
                                    keys: portable_keys_positional(fields, hashers),
                                    value_id: *value,
                                },
                            )
                        } else {
                            Err(
                                SchemaError::HasherKeyCountMismatch {
                                    hashers: hashers.len(),
                                    keys: fields.len(),
                                },
                            )
                        }
                    },
                    _ => {
                        if hashers.len() == 1 {
                            let mut keys: Vec<StorageKey<u32>> = Vec::new();
                            keys.push(StorageKey { hasher: hashers[0], key_id: *key });
                            Ok(StorageInfo { keys, value_id: *value })
                        } else {
                            Err(
                                SchemaError::HasherKeyCountMismatch {
                                    hashers: hashers.len(),
                                    keys: 1,
                                },
                            )
                        }
                    },
                }
            },
        }
    }

    fn pallet_named(&self, name: &str) -> (r: Option<usize>)
        ensures
            match find_pallet_by_name(self.pallets@, 0, name@) {
                Some(i) => 0 <= i < self.pallets@.len() && (r matches Some(u) && u == i),
                None => r is None,
            },
    {
        let mut i: usize = 0;
        while i < self.pallets.len()
            invariant
                i <= self.pallets@.len(),
                find_pallet_by_name(self.pallets@, 0, name@) == find_pallet_by_name(
                    self.pallets@,
                    i as int,
                    name@,
                ),
            decreases self.pallets@.len() - i,
        {
            if str_eq(self.pallets[i].name.as_str(), name) {
                return Some(i);
            }
            i += 1;
        }
        None
    }

    fn portable_entry_named(entries: &Vec<PortableStorageEntryMeta>, name: &str) -> (r: Option<
        usize,
    >)
        ensures
            match find_portable_entry(entries@, 0, name@) {
                Some(i) => 0 <= i < entries@.len() && (r matches Some(u) && u == i),
                None => r is None,
            },
    {
        let mut i: usize = 0;
        while i < entries.len()
            invariant
                i <= entries@.len(),
                find_portable_entry(entries@, 0, name@) == find_portable_entry(
                    entries@,
                    i as int,
                    name@,
                ),
            decreases entries@.len() - i,
        {
            if str_eq(entries[i].name.as_str(), name) {
                return Some(i);
            }
            i += 1;
        }
        None
    }
}

impl StorageTypeInfo for PortableMetadata {
    type TypeId = u32;

    fn get_storage_info(&self, pallet_name: &str, storage_entry: &str) -> Result<
        StorageInfo<u32>,
        SchemaError,
    > {
        self.storage_info(pallet_name, storage_entry)
    }
}

fn portable_keys_uniform(fields: &Vec<u32>, hasher: StorageHasher) -> (r: Vec<StorageKey<u32>>)
    ensures
        r@.len() == fields@.len(),
        forall|i: int|
            0 <= i < fields@.len() ==> (#[trigger] r@[i]).hasher == hasher && r@[i].key_id
                == fields@[i],
{
    let mut ks: Vec<StorageKey<u32>> = Vec::new();
    let mut i: usize = 0;
    while i < fields.len()
        invariant
            i <= fields@.len(),
            ks@.len() == i,
            forall|k: int|
                0 <= k < i ==> (#[trigger] ks@[k]).hasher == hasher && ks@[k].key_id == fields@[k],
        decreases fields@.len() - i,
    {
        ks.push(StorageKey { hasher, key_id: fields[i] });
        i += 1;
    }
    ks
}

fn portable_keys_positional(fields: &Vec<u32>, hashers: &Vec<StorageHasher>) -> (r: Vec<
    StorageKey<u32>,
>)
    requires
        fields@.len() == hashers@.len(),
    ensures
        r@.len() == fields@.len(),
        forall|i: int|
            0 <= i < fields@.len() ==> (#[trigger] r@[i]).hasher == hashers@[i] && r@[i].key_id
                == fields@[i],
{
    let mut ks: Vec<StorageKey<u32>> = Vec::new();
    let mut i: usize = 0;
    while i < fields.len()
        invariant
            fields@.len() == hashers@.len(),
            i <= fields@.len(),
            ks@.len() == i,
            forall|k: int|
                0 <= k < i ==> (#[trigger] ks@[k]).hasher == hashers@[k] && ks@[k].key_id
                    == fields@[k],
        decreases fields@.len() - i,
    {
        ks.push(StorageKey { hasher: hashers[i], key_id: fields[i] });
        i += 1;
    }
    ks
}

/// Is this storage entry iterable? If so, it must be iterated over all
/// matching keys under its prefix; if not, its single value is fetched
/// once. An entry is iterable exactly when it declares at least one key.
pub fn is_iterable(pallet_name: &str, storage_entry: &str, metadata: &Metadata) -> (r: Result<
    bool,
    SchemaError,
>)
    ensures
        (match metadata.spec_as_legacy() {
            Some(m) => match legacy_entry_ty(m, pallet_name@, storage_entry@) {
                None => r is Err,
                Some(ty) => {
                    if !parses_as_type_name(expected_legacy_value(ty)) {
                        r is Err
                    } else {
                        match expected_legacy_keys(ty) {
                            None => r is Err,
                            Some(exp) => {
                                if legacy_key_names_parse(ty) {
                                    r == Ok::<bool, SchemaError>(exp.len() > 0)
                                } else {
                                    r is Err
                                }
                            },
                        }
                    }
                },
            },
            None => true,
        }),
        (match metadata.spec_as_portable() {
            Some(m) => match portable_entry_ty(m, pallet_name@, storage_entry@) {
                None => r is Err,
                Some(ty) => match expected_portable_keys(m, ty) {
                    None => r is Err,
                    Some(None) => r is Err,
                    Some(Some(exp)) => r == Ok::<bool, SchemaError>(exp.len() > 0),
                },
            },
            None => true,
        }),
{
    let info_keys_empty = match metadata {
        Metadata::V8(m) => m.storage_info(pallet_name, storage_entry)?.keys.is_empty(),
        Metadata::V9(m) => m.storage_info(pallet_name, storage_entry)?.keys.is_empty(),
        Metadata::V10(m) => m.storage_info(pallet_name, storage_entry)?.keys.is_empty(),
        Metadata::V11(m) => m.storage_info(pallet_name, storage_entry)?.keys.is_empty(),
        Metadata::V12(m) => m.storage_info(pallet_name, storage_entry)?.keys.is_empty(),
        Metadata::V13(m) => m.storage_info(pallet_name, storage_entry)?.keys.is_empty(),
        Metadata::V14(m) => m.storage_info(pallet_name, storage_entry)?.keys.is_empty(),
        Metadata::V15(m) => m.storage_info(pallet_name, storage_entry)?.keys.is_empty(),
    };
    Ok(!info_keys_empty)
}

} // verus!
