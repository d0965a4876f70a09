//! Decoding the bytes of a storage key or value against a metadata
//! document. A key starts with the two 128-bit one-way hashes of the pallet
//! and entry names, which must match the independently computed
//! expectation; then, per declared key, the hasher's fixed-width hash bytes
//! and — for reversible hashers only — the decoded key value. A value is
//! decoded against the entry's value type. Either way, nothing may be left
//! over.

use crate::errors::DecodeError;
use crate::metadata::{LegacyMetadata, Metadata, PortableMetadata, StorageHasher};
use crate::storage_type_info::{
    expected_legacy_keys, expected_legacy_value, expected_portable_keys, expected_portable_value,
    legacy_entry_ty, legacy_storage_schema_ok, portable_entry_ty, portable_storage_schema_ok,
    StorageInfo,
};
use crate::type_resolver::{
    decode_value_legacy, decode_value_portable, legacy_decode_len, portable_decode_len,
};
use crate::utils::bytes_eq;
use vstd::prelude::*;

verus! {

use vstd::string::StringSliceAdditionalSpecFns;

/// The decoded representation of one part of a storage key.
#[derive(Debug)]
pub struct StorageKey {
    /// The hasher's fixed-width hash bytes (empty for identity hashing).
    pub hash: Vec<u8>,
    /// The decoded key, present exactly for reversible hashers: a one-way
    /// hash cannot carry its key, only the hash bytes.
    pub value: Option<scale_value::Value<String>>,
    /// How this key was hashed.
    pub hasher: StorageHasher,
}

/// What `sp_crypto_hashing::twox_128` returns: a function of the input
/// bytes alone.
pub uninterp spec fn twox128_of(data: Seq<u8>) -> Seq<u8>;

/// Relies on `sp_crypto_hashing::twox_128`: the 128-bit XX hash of the
/// input, 16 bytes, depending on the input bytes alone.
#[verifier::external_body]
fn twox128(data: &[u8]) -> (r: Vec<u8>)
    ensures
        r@ == twox128_of(data@),
        r@.len() == 16,
{
    sp_crypto_hashing::twox_128(data).to_vec()
}

/// The 32-byte prefix under which every value of `pallet_name.storage_entry`
/// is stored: the 128-bit XX hashes of the two names, concatenated.
pub fn storage_root_key(pallet_name: &str, storage_entry: &str) -> (r: Vec<u8>)
    ensures
        r@ == twox128_of(pallet_name.spec_bytes()) + twox128_of(storage_entry.spec_bytes()),
        r@.len() == 32,
{
    let mut r = twox128(pallet_name.as_bytes());
    let mut entry_hash = twox128(storage_entry.as_bytes());
    r.append(&mut entry_hash);
    r
}

/// The total width of the declared hashers' hash bytes.
pub open spec fn hashers_width(hashers: Seq<StorageHasher>) -> int
    decreases hashers.len(),
{
    if hashers.len() == 0 {
        0
    } else {
        hashers_width(hashers.drop_last()) + hashers.last().spec_hash_len()
    }
}

/// No declared hasher carries its key after the hash bytes.
pub open spec fn all_one_way(hashers: Seq<StorageHasher>) -> bool {
    forall|i: int| 0 <= i < hashers.len() ==> !(#[trigger] hashers[i]).spec_is_reversible()
}

/// The decoded key parts have the declared hashers in order, hash bytes of
/// each hasher's width, and a decoded key value exactly where the hasher is
/// reversible.
pub open spec fn decoded_keys_match(keys: Seq<StorageKey>, hashers: Seq<StorageHasher>) -> bool {
    &&& keys.len() == hashers.len()
    &&& forall|i: int|
        0 <= i < keys.len() ==> {
            &&& (#[trigger] keys[i]).hasher == hashers[i]
            &&& keys[i].hash@.len() == hashers[i].spec_hash_len()
            &&& (keys[i].value is Some <==> hashers[i].spec_is_reversible())
        }
}

/// The position just past the declared key parts: each part consumes its
/// hasher's fixed-width hash bytes and, for a reversible hasher, the
/// decoded key at its declared type; nothing if the buffer runs out or a
/// key fails to decode.
pub open spec fn legacy_keys_end(
    types: &scale_info_legacy::TypeRegistrySet<'_>,
    bytes: Seq<u8>,
    pos: int,
    exp: Seq<(StorageHasher, Seq<char>)>,
    pallet: Seq<char>,
) -> Option<int>
    decreases exp.len(),
{
    if exp.len() == 0 {
        Some(pos)
    } else {
        let after = pos + exp[0].0.spec_hash_len();
        if after > bytes.len() {
            None
        } else if exp[0].0.spec_is_reversible() {
            match legacy_decode_len(types, bytes, after, exp[0].1, Some(pallet)) {
                Some(n) => legacy_keys_end(types, bytes, after + n, exp.drop_first(), pallet),
                None => None,
            }
        } else {
            legacy_keys_end(types, bytes, after, exp.drop_first(), pallet)
        }
    }
}

/// The portable twin of [`legacy_keys_end`], keys typed by table entry.
pub open spec fn portable_keys_end(
    types: &scale_info::PortableRegistry,
    bytes: Seq<u8>,
    pos: int,
    exp: Seq<(StorageHasher, u32)>,
) -> Option<int>
    decreases exp.len(),
{
    if exp.len() == 0 {
        Some(pos)
    } else {
        let after = pos + exp[0].0.spec_hash_len();
        if after > bytes.len() {
            None
        } else if exp[0].0.spec_is_reversible() {
            match portable_decode_len(types, bytes, after, exp[0].1) {
                Some(n) => portable_keys_end(types, bytes, after + n, exp.drop_first()),
                None => None,
            }
        } else {
            portable_keys_end(types, bytes, after, exp.drop_first())
        }
    }
}

/// The hashers declared by a legacy entry, when consistently declared.
pub open spec fn legacy_entry_hashers(m: &LegacyMetadata, pallet: Seq<char>, entry: Seq<char>) -> Option<
    Seq<StorageHasher>,
> {
    match legacy_entry_ty(m, pallet, entry) {
        None => None,
        Some(ty) => match expected_legacy_keys(ty) {
            None => None,
            Some(exp) => Some(exp.map_values(|p: (StorageHasher, Seq<char>)| p.0)),
        },
    }
}

/// The hashers declared by a portable entry, when consistently declared.
pub open spec fn portable_entry_hashers(
    m: &PortableMetadata,
    pallet: Seq<char>,
    entry: Seq<char>,
) -> Option<Seq<StorageHasher>> {
    match portable_entry_ty(m, pallet, entry) {
        None => None,
        Some(ty) => match expected_portable_keys(m, ty) {
            Some(Some(exp)) => Some(exp.map_values(|p: (StorageHasher, u32)| p.0)),
            _ => None,
        },
    }
}

/// Decode the bytes of a storage key; the buffer must hold all of the key's
/// bytes, including the hashed pallet and entry names, and nothing more.
/// A success starts with the independently computed name prefix and carries
/// one part per declared key, as [`decoded_keys_match`] says; a buffer that
/// does not start with that prefix is never accepted.
pub fn decode_storage_keys(
    pallet_name: &str,
    storage_entry: &str,
    bytes: &[u8],
    metadata: &Metadata,
    historic_types: &scale_info_legacy::TypeRegistrySet<'_>,
) -> (r: Result<Vec<StorageKey>, DecodeError>)
    ensures
        r matches Ok(keys) ==> bytes@.len() >= 32 && bytes@.subrange(0, 32) == twox128_of(
            pallet_name.spec_bytes(),
        ) + twox128_of(storage_entry.spec_bytes()),
        metadata.spec_as_legacy() matches Some(m) ==> (r matches Ok(keys) ==> (
        legacy_entry_hashers(m, pallet_name@, storage_entry@) matches Some(hashers)
            && decoded_keys_match(keys@, hashers) && (all_one_way(hashers) ==> bytes@.len() == 32
            + hashers_width(hashers)))),
        metadata.spec_as_portable() matches Some(m) ==> (r matches Ok(keys) ==> (
        portable_entry_hashers(m, pallet_name@, storage_entry@) matches Some(hashers)
            && decoded_keys_match(keys@, hashers) && (all_one_way(hashers) ==> bytes@.len() == 32
            + hashers_width(hashers)))),
        metadata.spec_as_legacy() matches Some(m) ==> (legacy_entry_ty(
            m,
            pallet_name@,
            storage_entry@,
        ) is None ==> r is Err),
        metadata.spec_as_portable() matches Some(m) ==> (portable_entry_ty(
            m,
            pallet_name@,
            storage_entry@,
        ) is None ==> r is Err),
        metadata.spec_as_legacy() matches Some(m) ==> (({
            &&& legacy_storage_schema_ok(m, pallet_name@, storage_entry@)
            &&& bytes@.len() >= 32
            &&& bytes@.subrange(0, 32) == twox128_of(pallet_name.spec_bytes()) + twox128_of(
                storage_entry.spec_bytes(),
            )
        }) ==> match legacy_keys_end(
            historic_types,
            bytes@,
            32,
            expected_legacy_keys(
                legacy_entry_ty(m, pallet_name@, storage_entry@).unwrap(),
            ).unwrap(),
            pallet_name@,
        ) {
            Some(e) => {
                &&& (e == bytes@.len() ==> r is Ok)
                &&& (e != bytes@.len() ==> (r matches Err(DecodeError::LeftoverKeyBytes {
                    leftover,
                }) && leftover == bytes@.len() - e))
            },
            None => r matches Err(DecodeError::KeyBytesExhausted { .. }) || r matches Err(
                DecodeError::CannotDecodeValue { .. },
            ),
        }),
        metadata.spec_as_portable() matches Some(m) ==> (({
            &&& portable_storage_schema_ok(m, pallet_name@, storage_entry@)
            &&& bytes@.len() >= 32
            &&& bytes@.subrange(0, 32) == twox128_of(pallet_name.spec_bytes()) + twox128_of(
                storage_entry.spec_bytes(),
            )
        }) ==> match portable_keys_end(
            &m.registry,
            bytes@,
            32,
            expected_portable_keys(
                m,
                portable_entry_ty(m, pallet_name@, storage_entry@).unwrap(),
            ).unwrap().unwrap(),
        ) {
            Some(e) => {
                &&& (e == bytes@.len() ==> r is Ok)
                &&& (e != bytes@.len() ==> (r matches Err(DecodeError::LeftoverKeyBytes {
                    leftover,
                }) && leftover == bytes@.len() - e))
            },
            None => r matches Err(DecodeError::KeyBytesExhausted { .. }) || r matches Err(
                DecodeError::CannotDecodeValue { .. },
            ),
        }),
{
    match metadata {
        Metadata::V8(m) => decode_storage_keys_legacy(
            pallet_name,
            storage_entry,
            bytes,
            m,
            historic_types,
        ),
        Metadata::V9(m) => decode_storage_keys_legacy(
            pallet_name,
            storage_entry,
            bytes,
            m,
            historic_types,
        ),
        Metadata::V10(m) => decode_storage_keys_legacy(
            pallet_name,
            storage_entry,
            bytes,
            m,
            historic_types,
        ),
        Metadata::V11(m) => decode_storage_keys_legacy(
            pallet_name,
            storage_entry,
            bytes,
            m,
            historic_types,
        ),
        Metadata::V12(m) => decode_storage_keys_legacy(
            pallet_name,
            storage_entry,
            bytes,
            m,
            historic_types,
        ),
        Metadata::V13(m) => decode_storage_keys_legacy(
            pallet_name,
            storage_entry,
            bytes,
            m,
            historic_types,
        ),
        Metadata::V14(m) => decode_storage_keys_portable(pallet_name, storage_entry, bytes, m),
        Metadata::V15(m) => decode_storage_keys_portable(pallet_name, storage_entry, bytes, m),
    }
}

/// Check the 32-byte name prefix and return the position just past it.
fn check_prefix(pallet_name: &str, storage_entry: &str, bytes: &[u8]) -> (r: Result<
    usize,
    DecodeError,
>)
    ensures
        r matches Ok(p) ==> p == 32 && bytes@.len() >= 32 && bytes@.subrange(0, 32) == twox128_of(
            pallet_name.spec_bytes(),
        ) + twox128_of(storage_entry.spec_bytes()),
        (bytes@.len() >= 32 && bytes@.subrange(0, 32) == twox128_of(pallet_name.spec_bytes())
            + twox128_of(storage_entry.spec_bytes())) ==> r is Ok,
{
    let expected = storage_root_key(pallet_name, storage_entry);
    if bytes.len() < 32 {
        return Err(
            DecodeError::PrefixMismatch {
                pallet: pallet_name.to_owned(),
                entry: storage_entry.to_owned(),
            },
        );
    }
    let prefix = vstd::slice::slice_subrange(bytes, 0, 32);
    if !bytes_eq(prefix, expected.as_slice()) {
        return Err(
            DecodeError::PrefixMismatch {
                pallet: pallet_name.to_owned(),
                entry: storage_entry.to_owned(),
            },
        );
    }
    Ok(32)
}

fn decode_storage_keys_legacy(
    pallet_name: &str,
    storage_entry: &str,
    bytes: &[u8],
    m: &LegacyMetadata,
    types: &scale_info_legacy::TypeRegistrySet<'_>,
) -> (r: Result<Vec<StorageKey>, DecodeError>)
    ensures
        r matches Ok(keys) ==> bytes@.len() >= 32 && bytes@.subrange(0, 32) == twox128_of(
            pallet_name.spec_bytes(),
        ) + twox128_of(storage_entry.spec_bytes()),
        r matches Ok(keys) ==> (legacy_entry_hashers(m, pallet_name@, storage_entry@)
            matches Some(hashers) && decoded_keys_match(keys@, hashers) && (all_one_way(hashers)
            ==> bytes@.len() == 32 + hashers_width(hashers))),
        legacy_entry_ty(m, pallet_name@, storage_entry@) is None ==> r is Err,
        ({
            &&& legacy_storage_schema_ok(m, pallet_name@, storage_entry@)
            &&& bytes@.len() >= 32
            &&& bytes@.subrange(0, 32) == twox128_of(pallet_name.spec_bytes()) + twox128_of(
                storage_entry.spec_bytes(),
            )
        }) ==> match legacy_keys_end(
            types,
            bytes@,
            32,
            expected_legacy_keys(
                legacy_entry_ty(m, pallet_name@, storage_entry@).unwrap(),
            ).unwrap(),
            pallet_name@,
        ) {
            Some(e) => {
                &&& (e == bytes@.len() ==> r is Ok)
                &&& (e != bytes@.len() ==> (r matches Err(DecodeError::LeftoverKeyBytes {
                    leftover,
                }) && leftover == bytes@.len() - e))
            },
            None => r matches Err(DecodeError::KeyBytesExhausted { .. }) || r matches Err(
                DecodeError::CannotDecodeValue { .. },
            ),
        },
{
    let info = match m.storage_info(pallet_name, storage_entry) {
        Ok(info) => info,
        Err(e) => {
            return Err(DecodeError::Schema(e));
        },
    };
    let mut p = match check_prefix(pallet_name, storage_entry, bytes) {
        Ok(p) => p,
        Err(e) => {
            return Err(e);
        },
    };
    let ghost hashers = legacy_entry_hashers(m, pallet_name@, storage_entry@).unwrap();
    let ghost exp = expected_legacy_keys(
        legacy_entry_ty(m, pallet_name@, storage_entry@).unwrap(),
    ).unwrap();
    proof {
        assert(hashers.len() == info.keys@.len());
        assert(forall|i: int|
            0 <= i < info.keys@.len() ==> (#[trigger] info.keys@[i]).hasher == hashers[i]);
        assert(exp.len() == hashers.len());
        assert(forall|i: int| 0 <= i < exp.len() ==> (#[trigger] exp[i]).0 == hashers[i]);
        assert(exp.skip(0) =~= exp);
    }
    let mut keys: Vec<StorageKey> = Vec::new();
    let mut j: usize = 0;
    while j < info.keys.len()
        invariant
            hashers == legacy_entry_hashers(m, pallet_name@, storage_entry@).unwrap(),
            exp == expected_legacy_keys(
                legacy_entry_ty(m, pallet_name@, storage_entry@).unwrap(),
            ).unwrap(),
            j <= info.keys@.len(),
            32 <= p <= bytes@.len(),
            hashers.len() == info.keys@.len(),
            exp.len() == hashers.len(),
            forall|i: int|
                0 <= i < info.keys@.len() ==> (#[trigger] info.keys@[i]).hasher == hashers[i],
            forall|i: int| 0 <= i < exp.len() ==> (#[trigger] exp[i]).0 == hashers[i],
            forall|i: int|
                0 <= i < info.keys@.len() ==> {
                    &&& (#[trigger] info.keys@[i]).key_id.name@ == exp[i].1
                    &&& info.keys@[i].key_id.pallet matches Some(pn) && pn@ == pallet_name@
                },
            decoded_keys_match(keys@, hashers.take(j as int)),
            all_one_way(hashers.take(j as int)) ==> p == 32 + hashers_width(
                hashers.take(j as int),
            ),
            legacy_keys_end(types, bytes@, 32, exp, pallet_name@) == legacy_keys_end(
                types,
                bytes@,
                p as int,
                exp.skip(j as int),
                pallet_name@,
            ),
        decreases info.keys@.len() - j,
    {
        let key_info = &info.keys[j];
        let hl = key_info.hasher.hash_len();
        proof {
            assert(exp.skip(j as int)[0] == exp[j as int]);
            assert(exp.skip(j as int).drop_first() =~= exp.skip(j as int + 1));
        }
        if bytes.len() - p < hl {
            proof {
                assert(legacy_keys_end(
                    types,
                    bytes@,
                    p as int,
                    exp.skip(j as int),
                    pallet_name@,
                ) is None);
            }
            return Err(DecodeError::KeyBytesExhausted { hasher: key_info.hasher });
        }
        let hash = vstd::slice::slice_to_vec(vstd::slice::slice_subrange(bytes, p, p + hl));
        p = p + hl;
        let value: Option<scale_value::Value<String>> = if key_info.hasher.is_reversible() {
            let pallet = match &key_info.key_id.pallet {
                Some(pn) => Some(pn.as_str()),
                None => None,
            };
            proof {
                assert(crate::type_resolver::opt_str_view(pallet) == Some(pallet_name@));
            }
            match decode_value_legacy(bytes, p, key_info.key_id.name.as_str(), pallet, types) {
                Ok((v, remaining)) => {
                    p = bytes.len() - remaining;
                    Some(v)
                },
                Err(message) => {
                    proof {
                        assert(legacy_decode_len(
                            types,
                            bytes@,
                            p as int,
                            exp[j as int].1,
                            Some(pallet_name@),
                        ) is None);
                        assert(legacy_keys_end(
                            types,
                            bytes@,
                            p as int - exp[j as int].0.spec_hash_len(),
                            exp.skip(j as int),
                            pallet_name@,
                        ) is None);
                    }
                    return Err(
                        DecodeError::CannotDecodeValue {
                            context: key_info.key_id.name.clone(),
                            message,
                        },
                    );
                },
            }
        } else {
            None
        };
        let part = StorageKey { hash, value, hasher: key_info.hasher };
        proof {
            assert(hashers.take(j as int + 1).drop_last() =~= hashers.take(j as int));
            assert(hashers.take(j as int + 1).last() == hashers[j as int]);
        }
        keys.push(part);
        j += 1;
    }
    proof {
        assert(exp.skip(exp.len() as int) =~= Seq::<(StorageHasher, Seq<char>)>::empty());
    }
    if p != bytes.len() {
        return Err(DecodeError::LeftoverKeyBytes { leftover: bytes.len() - p });
    }
    proof {
        assert(hashers.take(hashers.len() as int) =~= hashers);
    }
    // Everything was consumed; for an entry whose hashers are all one-way
    // the key's total length is therefore fixed by the schema, so a buffer
    // with extra bytes appended could never have reached this point.
    Ok(keys)
}

fn decode_storage_keys_portable(
    pallet_name: &str,
    storage_entry: &str,
    bytes: &[u8],
    m: &PortableMetadata,
) -> (r: Result<Vec<StorageKey>, DecodeError>)
    ensures
        r matches Ok(keys) ==> bytes@.len() >= 32 && bytes@.subrange(0, 32) == twox128_of(
            pallet_name.spec_bytes(),
        ) + twox128_of(storage_entry.spec_bytes()),
        r matches Ok(keys) ==> (portable_entry_hashers(m, pallet_name@, storage_entry@)
            matches Some(hashers) && decoded_keys_match(keys@, hashers) && (all_one_way(hashers)
            ==> bytes@.len() == 32 + hashers_width(hashers))),
        portable_entry_ty(m, pallet_name@, storage_entry@) is None ==> r is Err,
        ({
            &&& portable_storage_schema_ok(m, pallet_name@, storage_entry@)
            &&& bytes@.len() >= 32
            &&& bytes@.subrange(0, 32) == twox128_of(pallet_name.spec_bytes()) + twox128_of(
                storage_entry.spec_bytes(),
            )
        }) ==> match portable_keys_end(
            &m.registry,
            bytes@,
            32,
            expected_portable_keys(
                m,
                portable_entry_ty(m, pallet_name@, storage_entry@).unwrap(),
            ).unwrap().unwrap(),
        ) {
            Some(e) => {
                &&& (e == bytes@.len() ==> r is Ok)
                &&& (e != bytes@.len() ==> (r matches Err(DecodeError::LeftoverKeyBytes {
                    leftover,
                }) && leftover == bytes@.len() - e))
            },
            None => r matches Err(DecodeError::KeyBytesExhausted { .. }) || r matches Err(
                DecodeError::CannotDecodeValue { .. },
            ),
        },
{
    let info = match m.storage_info(pallet_name, storage_entry) {
        Ok(info) => info,
        Err(e) => {
            return Err(DecodeError::Schema(e));
        },
    };
    let mut p = match check_prefix(pallet_name, storage_entry, bytes) {
        Ok(p) => p,
        Err(e) => {
            return Err(e);
        },
    };
    let ghost hashers = portable_entry_hashers(m, pallet_name@, storage_entry@).unwrap();
    let ghost exp = expected_portable_keys(
        m,
        portable_entry_ty(m, pallet_name@, storage_entry@).unwrap(),
    ).unwrap().unwrap();
    proof {
        assert(hashers.len() == info.keys@.len());
        assert(forall|i: int|
            0 <= i < info.keys@.len() ==> (#[trigger] info.keys@[i]).hasher == hashers[i]);
        assert(exp.len() == hashers.len());
        assert(forall|i: int| 0 <= i < exp.len() ==> (#[trigger] exp[i]).0 == hashers[i]);
        assert(exp.skip(0) =~= exp);
    }
    let mut keys: Vec<StorageKey> = Vec::new();
    let mut j: usize = 0;
    while j < info.keys.len()
        invariant
            hashers == portable_entry_hashers(m, pallet_name@, storage_entry@).unwrap(),
            exp == expected_portable_keys(
                m,
                portable_entry_ty(m, pallet_name@, storage_entry@).unwrap(),
            ).unwrap().unwrap(),
            j <= info.keys@.len(),
            32 <= p <= bytes@.len(),
            hashers.len() == info.keys@.len(),
            exp.len() == hashers.len(),
            forall|i: int|
                0 <= i < info.keys@.len() ==> (#[trigger] info.keys@[i]).hasher == hashers[i],
            forall|i: int| 0 <= i < exp.len() ==> (#[trigger] exp[i]).0 == hashers[i],
            forall|i: int|
                0 <= i < info.keys@.len() ==> (#[trigger] info.keys@[i]).key_id == exp[i].1,
            decoded_keys_match(keys@, hashers.take(j as int)),
            all_one_way(hashers.take(j as int)) ==> p == 32 + hashers_width(
                hashers.take(j as int),
            ),
            portable_keys_end(&m.registry, bytes@, 32, exp) == portable_keys_end(
                &m.registry,
                bytes@,
                p as int,
                exp.skip(j as int),
            ),
        decreases info.keys@.len() - j,
    {
        let key_info = &info.keys[j];
        let hl = key_info.hasher.hash_len();
        proof {
            assert(exp.skip(j as int)[0] == exp[j as int]);
            assert(exp.skip(j as int).drop_first() =~= exp.skip(j as int + 1));
        }
        if bytes.len() - p < hl {
            proof {
                assert(portable_keys_end(&m.registry, bytes@, p as int, exp.skip(j as int))
                    is None);
            }
            return Err(DecodeError::KeyBytesExhausted { hasher: key_info.hasher });
        }
        let hash = vstd::slice::slice_to_vec(vstd::slice::slice_subrange(bytes, p, p + hl));
        p = p + hl;
        let value: Option<scale_value::Value<String>> = if key_info.hasher.is_reversible() {
            match decode_value_portable(bytes, p, key_info.key_id, &m.registry) {
                Ok((v, remaining)) => {
                    p = bytes.len() - remaining;
                    Some(v)
                },
                Err(message) => {
                    proof {
                        assert(portable_decode_len(
                            &m.registry,
                            bytes@,
                            p as int,
                            exp[j as int].1,
                        ) is None);
                        assert(portable_keys_end(
                            &m.registry,
                            bytes@,
                            p as int - exp[j as int].0.spec_hash_len(),
                            exp.skip(j as int),
                        ) is None);
                    }
                    return Err(
                        DecodeError::CannotDecodeValue {
                            context: ("storage key").to_owned(),
                            message,
                        },
                    );
                },
            }
        } else {
            None
        };
        let part = StorageKey { hash, value, hasher: key_info.hasher };
        proof {
            assert(hashers.take(j as int + 1).drop_last() =~= hashers.take(j as int));
            assert(hashers.take(j as int + 1).last() == hashers[j as int]);
        }
        keys.push(part);
        j += 1;
    }
    proof {
        assert(exp.skip(exp.len() as int) =~= Seq::<(StorageHasher, u32)>::empty());
    }
    if p != bytes.len() {
        return Err(DecodeError::LeftoverKeyBytes { leftover: bytes.len() - p });
    }
    proof {
        assert(hashers.take(hashers.len() as int) =~= hashers);
    }
    // Everything was consumed; for an entry whose hashers are all one-way
    // the key's total length is therefore fixed by the schema, so a buffer
    // with extra bytes appended could never have reached this point.
    Ok(keys)
}

/// What decoding a resolvable entry's value returns, decided by the named
/// decode length at the entry's value type: success exactly when the whole
/// buffer is one decoded value, the leftover-bytes error with the exact
/// count when the decoder stops early, and a value error when it fails.
pub open spec fn legacy_value_outcome(
    m: &LegacyMetadata,
    types: &scale_info_legacy::TypeRegistrySet<'_>,
    pallet: Seq<char>,
    entry: Seq<char>,
    bytes: Seq<u8>,
    r: Result<scale_value::Value<String>, DecodeError>,
) -> bool {
    let ty = legacy_entry_ty(m, pallet, entry).unwrap();
    match legacy_decode_len(types, bytes, 0, expected_legacy_value(ty), Some(pallet)) {
        Some(n) => {
            &&& (n == bytes.len() ==> r is Ok)
            &&& (n != bytes.len() ==> (r matches Err(DecodeError::LeftoverValueBytes { leftover })
                && leftover == bytes.len() - n))
        },
        None => r matches Err(DecodeError::CannotDecodeValue { .. }),
    }
}

/// The portable twin of [`legacy_value_outcome`], resolving against the
/// document's own type registry.
pub open spec fn portable_value_outcome(
    m: &PortableMetadata,
    pallet: Seq<char>,
    entry: Seq<char>,
    bytes: Seq<u8>,
    r: Result<scale_value::Value<String>, DecodeError>,
) -> bool {
    let ty = portable_entry_ty(m, pallet, entry).unwrap();
    match portable_decode_len(&m.registry, bytes, 0, expected_portable_value(ty)) {
        Some(n) => {
            &&& (n == bytes.len() ==> r is Ok)
            &&& (n != bytes.len() ==> (r matches Err(DecodeError::LeftoverValueBytes { leftover })
                && leftover == bytes.len() - n))
        },
        None => r matches Err(DecodeError::CannotDecodeValue { .. }),
    }
}

/// Decode the bytes of a storage value against the entry's value type; the
/// whole buffer must be consumed.
pub fn decode_storage_value(
    pallet_name: &str,
    storage_entry: &str,
    bytes: &[u8],
    metadata: &Metadata,
    historic_types: &scale_info_legacy::TypeRegistrySet<'_>,
) -> (r: Result<scale_value::Value<String>, DecodeError>)
    ensures
        metadata.spec_as_legacy() matches Some(m) ==> (r is Ok ==> legacy_entry_ty(
            m,
            pallet_name@,
            storage_entry@,
        ) is Some),
        metadata.spec_as_portable() matches Some(m) ==> (r is Ok ==> portable_entry_ty(
            m,
            pallet_name@,
            storage_entry@,
        ) is Some),
        metadata.spec_as_legacy() matches Some(m) ==> (legacy_entry_ty(
            m,
            pallet_name@,
            storage_entry@,
        ) is None ==> r is Err),
        metadata.spec_as_portable() matches Some(m) ==> (portable_entry_ty(
            m,
            pallet_name@,
            storage_entry@,
        ) is None ==> r is Err),
        metadata.spec_as_legacy() matches Some(m) ==> (legacy_storage_schema_ok(
            m,
            pallet_name@,
            storage_entry@,
        ) ==> legacy_value_outcome(m, historic_types, pallet_name@, storage_entry@, bytes@, r)),
        metadata.spec_as_portable() matches Some(m) ==> (portable_storage_schema_ok(
            m,
            pallet_name@,
            storage_entry@,
        ) ==> portable_value_outcome(m, pallet_name@, storage_entry@, bytes@, r)),
{
    match metadata {
        Metadata::V8(m) => decode_storage_value_legacy(
            pallet_name,
            storage_entry,
            bytes,
            m,
            historic_types,
        ),
        Metadata::V9(m) => decode_storage_value_legacy(
            pallet_name,
            storage_entry,
            bytes,
            m,
            historic_types,
        ),
        Metadata::V10(m) => decode_storage_value_legacy(
            pallet_name,
            storage_entry,
            bytes,
            m,
            historic_types,
        ),
        Metadata::V11(m) => decode_storage_value_legacy(
            pallet_name,
            storage_entry,
            bytes,
            m,
            historic_types,
        ),
        Metadata::V12(m) => decode_storage_value_legacy(
            pallet_name,
            storage_entry,
            bytes,
            m,
            historic_types,
        ),
        Metadata::V13(m) => decode_storage_value_legacy(
            pallet_name,
            storage_entry,
            bytes,
            m,
            historic_types,
        ),
        Metadata::V14(m) => decode_storage_value_portable(pallet_name, storage_entry, bytes, m),
        Metadata::V15(m) => decode_storage_value_portable(pallet_name, storage_entry, bytes, m),
    }
}

fn decode_storage_value_legacy(
    pallet_name: &str,
    storage_entry: &str,
    bytes: &[u8],
    m: &LegacyMetadata,
    types: &scale_info_legacy::TypeRegistrySet<'_>,
) -> (r: Result<scale_value::Value<String>, DecodeError>)
    ensures
        r is Ok ==> legacy_entry_ty(m, pallet_name@, storage_entry@) is Some,
        legacy_entry_ty(m, pallet_name@, storage_entry@) is None ==> r is Err,
        legacy_storage_schema_ok(m, pallet_name@, storage_entry@) ==> legacy_value_outcome(
            m,
            types,
            pallet_name@,
            storage_entry@,
            bytes@,
            r,
        ),
{
    let info: StorageInfo<crate::extrinsic_type_info::LookupId> = match m.storage_info(
        pallet_name,
        storage_entry,
    ) {
        Ok(info) => info,
        Err(e) => {
            return Err(DecodeError::Schema(e));
        },
    };
    let pallet = match &info.value_id.pallet {
        Some(pn) => Some(pn.as_str()),
        None => None,
    };
    match decode_value_legacy(bytes, 0, info.value_id.name.as_str(), pallet, types) {
        Ok((v, remaining)) => {
            if remaining != 0 {
                return Err(DecodeError::LeftoverValueBytes { leftover: remaining });
            }
            Ok(v)
        },
        Err(message) => Err(
            DecodeError::CannotDecodeValue { context: info.value_id.name, message },
        ),
    }
}

fn decode_storage_value_portable(
    pallet_name: &str,
    storage_entry: &str,
    bytes: &[u8],
    m: &PortableMetadata,
) -> (r: Result<scale_value::Value<String>, DecodeError>)
    ensures
        r is Ok ==> portable_entry_ty(m, pallet_name@, storage_entry@) is Some,
        portable_entry_ty(m, pallet_name@, storage_entry@) is None ==> r is Err,
        portable_storage_schema_ok(m, pallet_name@, storage_entry@) ==> portable_value_outcome(
            m,
            pallet_name@,
            storage_entry@,
            bytes@,
            r,
        ),
{
    let info: StorageInfo<u32> = match m.storage_info(pallet_name, storage_entry) {
        Ok(info) => info,
        Err(e) => {
            return Err(DecodeError::Schema(e));
        },
    };
    match decode_value_portable(bytes, 0, info.value_id, &m.registry) {
        Ok((v, remaining)) => {
            if remaining != 0 {
                return Err(DecodeError::LeftoverValueBytes { leftover: remaining });
            }
            Ok(v)
        },
        Err(message) => Err(
            DecodeError::CannotDecodeValue { context: ("storage value").to_owned(), message },
        ),
    }
}

/// The hardcoded resilience table: key byte strings known to be corrupt on
/// chain from some spec version on. A matching entry is skipped and stood
/// in for by a placeholder, not decoded and not an error.
pub struct SkipDecoding {
    table: Vec<(Vec<u8>, u32)>,
}

/// The one known-corrupt key: a proxy-list entry whose stored account data
/// is broken on chain.
pub open spec fn corrupt_proxies_key() -> Seq<u8> {
    seq![
        0x18u8, 0x09, 0xd7, 0x83, 0x46, 0x72, 0x7a, 0x0e, 0xf5, 0x8c, 0x0f, 0xa0,
        0x3b, 0xaf, 0xa3, 0x23, 0x1d, 0x88, 0x5d, 0xcf, 0xb2, 0x77, 0xf1, 0x85,
        0xf2, 0xd8, 0xe6, 0x2a, 0x5f, 0x29, 0x0c, 0x85, 0x4d, 0x2d, 0x16, 0xb4,
        0xbe, 0x62, 0xd0, 0xe0, 0x0e, 0x6d, 0xe6, 0x8b, 0x13, 0xb8, 0x24, 0x79,
        0xfb, 0xe9, 0x88, 0xab, 0x9e, 0xcb, 0x16, 0xba, 0xd4, 0x46, 0xb6, 0x7b,
        0x99, 0x3c, 0xdd, 0x91, 0x98, 0xcd, 0x41, 0xc7, 0xc6, 0x25, 0x9c, 0x49,
    ]
}

impl SkipDecoding {
    /// The table entries: each key's exact bytes and the spec version from
    /// which it is a problem.
    pub closed spec fn entries(self) -> Seq<(Seq<u8>, u32)> {
        self.table@.map_values(|e: (Vec<u8>, u32)| (e.0@, e.1))
    }

    /// This defines the hardcoded items to skip: the corrupt proxy-list
    /// entry, a problem from spec version 23 on.
    pub fn new() -> (r: SkipDecoding)
        ensures
            r.entries().len() == 1,
            r.entries()[0].0 == corrupt_proxies_key(),
            r.entries()[0].1 == 23u32,
    {
        let key: Vec<u8> = vec![
            0x18, 0x09, 0xd7, 0x83, 0x46, 0x72, 0x7a, 0x0e, 0xf5, 0x8c, 0x0f, 0xa0,
            0x3b, 0xaf, 0xa3, 0x23, 0x1d, 0x88, 0x5d, 0xcf, 0xb2, 0x77, 0xf1, 0x85,
            0xf2, 0xd8, 0xe6, 0x2a, 0x5f, 0x29, 0x0c, 0x85, 0x4d, 0x2d, 0x16, 0xb4,
            0xbe, 0x62, 0xd0, 0xe0, 0x0e, 0x6d, 0xe6, 0x8b, 0x13, 0xb8, 0x24, 0x79,
            0xfb, 0xe9, 0x88, 0xab, 0x9e, 0xcb, 0x16, 0xba, 0xd4, 0x46, 0xb6, 0x7b,
            0x99, 0x3c, 0xdd, 0x91, 0x98, 0xcd, 0x41, 0xc7, 0xc6, 0x25, 0x9c, 0x49,
        ];
        let mut table: Vec<(Vec<u8>, u32)> = Vec::new();
        table.push((key, 23));
        let r = SkipDecoding { table };
        proof {
            assert(r.entries()[0].0 =~= corrupt_proxies_key());
        }
        r
    }

    /// Should this entry be skipped? Exactly when some table row matches
    /// the key bytes and its spec-version floor is at or below the current
    /// spec version.
    pub fn should_skip(&self, spec_version: u32, key: &[u8]) -> (r: bool)
        ensures
            r == exists|i: int|
                0 <= i < self.entries().len() && (#[trigger] self.entries()[i]).0 == key@
                    && self.entries()[i].1 <= spec_version,
    {
        let mut i: usize = 0;
        while i < self.table.len()
            invariant
                i <= self.table@.len(),
                forall|k: int|
                    0 <= k < i ==> !((#[trigger] self.entries()[k]).0 == key@ && self.entries()[k].1
                        <= spec_version),
            decreases self.table@.len() - i,
        {
            let row = &self.table[i];
            if row.1 <= spec_version && bytes_eq(row.0.as_slice(), key) {
                proof {
                    let ghost row_entry = self.entries()[i as int];
                    assert(row_entry.0 == key@ && row_entry.1 <= spec_version);
                }
                return true;
            }
            i += 1;
        }
        false
    }
}

} // verus!
