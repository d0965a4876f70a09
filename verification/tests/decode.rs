use historic_decode::errors::DecodeError;
use historic_decode::extrinsic_decoder::{decode_compact_u64, decode_extrinsic, Extrinsic};
use historic_decode::metadata::{
    ArgMeta, CallMeta, ExtrinsicMeta, FieldMeta, LegacyMetadata, LegacyStorageEntryMeta,
    LegacyStorageTy, Metadata, ModuleMeta, PortableMetadata, PortablePalletMeta, PortableTypeMeta,
    SignedExtMeta, StorageHasher, TypeDefMeta, VariantMeta,
};
use historic_decode::storage_decoder::{
    decode_storage_keys, decode_storage_value, storage_root_key, SkipDecoding,
};
use scale_info_legacy::type_shape::TypeShape;
use scale_info_legacy::{InsertName, LookupName, TypeRegistry, TypeRegistrySet};

fn test_registry() -> TypeRegistrySet<'static> {
    let mut reg = TypeRegistry::basic();
    reg.insert(
        InsertName::parse("hardcoded::ExtrinsicAddress").unwrap(),
        TypeShape::AliasOf(LookupName::parse("u32").unwrap()),
    );
    reg.insert(
        InsertName::parse("hardcoded::ExtrinsicSignature").unwrap(),
        TypeShape::AliasOf(LookupName::parse("u32").unwrap()),
    );
    reg.insert(
        InsertName::parse("hardcoded::ExtrinsicSignedExtensions").unwrap(),
        TypeShape::AliasOf(LookupName::parse("u32").unwrap()),
    );
    vec![reg].into_iter().collect()
}

fn test_metadata() -> Metadata {
    Metadata::V9(LegacyMetadata {
        modules: vec![ModuleMeta {
            name: "System".to_owned(),
            index: 0,
            calls: Some(vec![CallMeta {
                name: "remark".to_owned(),
                args: vec![ArgMeta { name: "data".to_owned(), ty: "u32".to_owned() }],
            }]),
            events: None,
            storage: None,
        }],
        explicit_indices: false,
        named_extensions: false,
        signed_extensions: vec![],
    })
}

/// Prefix a body with its single-byte compact length (body must be short).
fn with_len_prefix(body: &[u8]) -> Vec<u8> {
    assert!(body.len() < 64);
    let mut out = vec![(body.len() * 4) as u8];
    out.extend_from_slice(body);
    out
}

fn u32_value(n: u32) -> scale_value::Value<()> {
    scale_value::Value::u128(n as u128)
}

// Round trip of the bare (unsigned) envelope: length prefix, version byte
// 4, pallet and call index bytes, then the declared argument.
#[test]
fn unsigned_extrinsic_round_trip() {
    let mut body = vec![0x04, 0x00, 0x00];
    body.extend_from_slice(&42u32.to_le_bytes());
    let bytes = with_len_prefix(&body);
    let decoded = decode_extrinsic(&bytes, &test_metadata(), &test_registry()).unwrap();
    match decoded {
        Extrinsic::Unsigned { call_data } => {
            assert_eq!(call_data.pallet_name, "System");
            assert_eq!(call_data.call_name, "remark");
            assert_eq!(call_data.args.len(), 1);
            assert_eq!(call_data.args[0].0, "data");
            assert_eq!(call_data.args[0].1.clone().remove_context(), u32_value(42));
        }
        other => panic!("expected an unsigned extrinsic, got {other:?}"),
    }
}

// Round trip of the signed envelope: address, signature and the signed
// extension are decoded before the call, and the raw address/signature
// bytes are recorded.
#[test]
fn signed_extrinsic_round_trip() {
    let mut body = vec![0x84];
    body.extend_from_slice(&1u32.to_le_bytes()); // address
    body.extend_from_slice(&2u32.to_le_bytes()); // signature
    body.extend_from_slice(&3u32.to_le_bytes()); // signed extensions
    body.extend_from_slice(&[0x00, 0x00]);
    body.extend_from_slice(&42u32.to_le_bytes());
    let bytes = with_len_prefix(&body);
    let decoded = decode_extrinsic(&bytes, &test_metadata(), &test_registry()).unwrap();
    match decoded {
        Extrinsic::Signed { address, signature, signed_exts, call_data } => {
            assert_eq!(address, 1u32.to_le_bytes().to_vec());
            assert_eq!(signature, 2u32.to_le_bytes().to_vec());
            assert_eq!(signed_exts.len(), 1);
            assert_eq!(signed_exts[0].0, "ExtrinsicSignedExtensions");
            assert_eq!(signed_exts[0].1.clone().remove_context(), u32_value(3));
            assert_eq!(call_data.call_name, "remark");
            assert_eq!(call_data.args[0].1.clone().remove_context(), u32_value(42));
        }
        other => panic!("expected a signed extrinsic, got {other:?}"),
    }
}

// Round trip of the extension-bearing unsigned ("general") envelope:
// extensions are decoded, but no address/signature pair.
#[test]
fn general_extrinsic_round_trip() {
    let mut body = vec![0x05];
    body.extend_from_slice(&9u32.to_le_bytes()); // signed extensions
    body.extend_from_slice(&[0x00, 0x00]);
    body.extend_from_slice(&42u32.to_le_bytes());
    let bytes = with_len_prefix(&body);
    let decoded = decode_extrinsic(&bytes, &test_metadata(), &test_registry()).unwrap();
    match decoded {
        Extrinsic::General { signed_exts, call_data } => {
            assert_eq!(signed_exts.len(), 1);
            assert_eq!(signed_exts[0].1.clone().remove_context(), u32_value(9));
            assert_eq!(call_data.call_name, "remark");
        }
        other => panic!("expected a general extrinsic, got {other:?}"),
    }
}

// Appending any non-empty suffix to a validly encoded extrinsic fails with
// the length-mismatch error, never a silent success.
#[test]
fn extrinsic_with_trailing_bytes_is_rejected() {
    let mut body = vec![0x04, 0x00, 0x00];
    body.extend_from_slice(&42u32.to_le_bytes());
    let mut bytes = with_len_prefix(&body);
    bytes.push(0xff);
    let err = decode_extrinsic(&bytes, &test_metadata(), &test_registry()).unwrap_err();
    assert!(matches!(err, DecodeError::WrongLength { expected: 7, have: 8 }));
}

#[test]
fn extrinsic_envelope_errors() {
    // Truncated body: the declared length exceeds what follows.
    let err =
        decode_extrinsic(&[12, 0x04, 0x00], &test_metadata(), &test_registry()).unwrap_err();
    assert!(matches!(err, DecodeError::WrongLength { expected: 3, have: 2 }));
    // Empty body: no envelope byte.
    let err = decode_extrinsic(&[0], &test_metadata(), &test_registry()).unwrap_err();
    assert!(matches!(err, DecodeError::MissingEnvelope));
    // Unsupported version byte.
    let err = decode_extrinsic(&[4, 0x07], &test_metadata(), &test_registry()).unwrap_err();
    assert!(matches!(err, DecodeError::UnsupportedVersion { version: 7 }));
    // A signed version-5 envelope is not a thing.
    let err = decode_extrinsic(&[4, 0x85], &test_metadata(), &test_registry()).unwrap_err();
    assert!(matches!(err, DecodeError::UnsupportedVersion { version: 5 }));
    // Empty input: no length prefix at all.
    let err = decode_extrinsic(&[], &test_metadata(), &test_registry()).unwrap_err();
    assert!(matches!(err, DecodeError::CannotDecodeLength));
}

fn storage_metadata() -> Metadata {
    let map_for = |name: &str, hasher: StorageHasher| LegacyStorageEntryMeta {
        name: name.to_owned(),
        ty: LegacyStorageTy::SingleMap {
            hasher,
            key: "u32".to_owned(),
            value: "u64".to_owned(),
        },
    };
    Metadata::V11(LegacyMetadata {
        modules: vec![ModuleMeta {
            name: "System".to_owned(),
            index: 0,
            calls: None,
            events: None,
            storage: Some(vec![
                LegacyStorageEntryMeta {
                    name: "Now".to_owned(),
                    ty: LegacyStorageTy::Plain { value: "u64".to_owned() },
                },
                map_for("B128", StorageHasher::Blake2_128),
                map_for("B256", StorageHasher::Blake2_256),
                map_for("B128C", StorageHasher::Blake2_128Concat),
                map_for("T128", StorageHasher::Twox128),
                map_for("T256", StorageHasher::Twox256),
                map_for("T64C", StorageHasher::Twox64Concat),
                map_for("Ident", StorageHasher::Identity),
            ]),
        }],
        explicit_indices: false,
        named_extensions: true,
        signed_extensions: vec![],
    })
}

fn key_bytes(entry: &str, hash_len: usize, key: Option<u32>) -> Vec<u8> {
    let mut bytes = storage_root_key("System", entry);
    bytes.extend((0..hash_len).map(|i| i as u8));
    if let Some(k) = key {
        bytes.extend_from_slice(&k.to_le_bytes());
    }
    bytes
}

// Round trip for every supported storage hasher: one-way hashers carry only
// their hash bytes and never a decoded value; reversible hashers carry both.
#[test]
fn storage_key_round_trip_for_every_hasher() {
    let meta = storage_metadata();
    let reg = test_registry();
    let one_way =
        [("B128", 16usize), ("B256", 32), ("T128", 16), ("T256", 32)];
    for (entry, hash_len) in one_way {
        let bytes = key_bytes(entry, hash_len, None);
        let keys = decode_storage_keys("System", entry, &bytes, &meta, &reg).unwrap();
        assert_eq!(keys.len(), 1, "{entry}");
        assert_eq!(keys[0].hash, (0..hash_len).map(|i| i as u8).collect::<Vec<u8>>());
        assert!(keys[0].value.is_none(), "one-way hasher {entry} must not carry a value");
    }
    let reversible = [("B128C", 16usize), ("T64C", 8), ("Ident", 0)];
    for (entry, hash_len) in reversible {
        let bytes = key_bytes(entry, hash_len, Some(77));
        let keys = decode_storage_keys("System", entry, &bytes, &meta, &reg).unwrap();
        assert_eq!(keys.len(), 1, "{entry}");
        assert_eq!(keys[0].hash.len(), hash_len);
        let value = keys[0].value.as_ref().expect("reversible hasher must carry a value");
        assert_eq!(value.clone().remove_context(), scale_value::Value::u128(77));
    }
}

// Appending a non-empty suffix to a valid storage key fails with a
// leftover-bytes error.
#[test]
fn storage_key_with_trailing_bytes_is_rejected() {
    let meta = storage_metadata();
    let reg = test_registry();
    let mut bytes = key_bytes("T64C", 8, Some(77));
    bytes.push(0xaa);
    let err = decode_storage_keys("System", "T64C", &bytes, &meta, &reg).unwrap_err();
    assert!(matches!(err, DecodeError::LeftoverKeyBytes { leftover: 1 }));
    // The same holds for a one-way entry, whose key length is fixed by the
    // schema alone.
    let mut bytes = key_bytes("B128", 16, None);
    bytes.extend_from_slice(&[1, 2]);
    let err = decode_storage_keys("System", "B128", &bytes, &meta, &reg).unwrap_err();
    assert!(matches!(err, DecodeError::LeftoverKeyBytes { leftover: 2 }));
}

// A key that does not start with the two 128-bit hashes of the pallet and
// entry names is rejected, not silently skipped.
#[test]
fn storage_key_prefix_must_match() {
    let meta = storage_metadata();
    let reg = test_registry();
    let mut bytes = key_bytes("T64C", 8, Some(77));
    bytes[0] ^= 0xff;
    let err = decode_storage_keys("System", "T64C", &bytes, &meta, &reg).unwrap_err();
    assert!(matches!(err, DecodeError::PrefixMismatch { .. }));
    let err = decode_storage_keys("System", "T64C", &[1, 2, 3], &meta, &reg).unwrap_err();
    assert!(matches!(err, DecodeError::PrefixMismatch { .. }));
}

// Storage value round trip, and the leftover-bytes rejection for values.
#[test]
fn storage_value_round_trip_and_leftovers() {
    let meta = storage_metadata();
    let reg = test_registry();
    let bytes = 1234u64.to_le_bytes().to_vec();
    let value = decode_storage_value("System", "Now", &bytes, &meta, &reg).unwrap();
    assert_eq!(value.remove_context(), scale_value::Value::u128(1234));

    let mut longer = bytes.clone();
    longer.push(0);
    let err = decode_storage_value("System", "Now", &longer, &meta, &reg).unwrap_err();
    assert!(matches!(err, DecodeError::LeftoverValueBytes { leftover: 1 }));
}

#[test]
fn compact_length_prefixes_decode_exactly() {
    // Single byte mode.
    assert_eq!(decode_compact_u64(&[63 << 2], 0), Some((63, 1)));
    // Two byte mode, value 100.
    let two = ((100u16 << 2) | 0b01).to_le_bytes();
    assert_eq!(decode_compact_u64(&two, 0), Some((100, 2)));
    // Two byte mode must not re-encode a single-byte value.
    let bad = ((10u16 << 2) | 0b01).to_le_bytes();
    assert_eq!(decode_compact_u64(&bad, 0), None);
    // Four byte mode, value 0x4000.
    let four = ((0x4000u32 << 2) | 0b10).to_le_bytes();
    assert_eq!(decode_compact_u64(&four, 0), Some((0x4000, 4)));
    // Big-integer mode: five payload bytes for 2^32.
    let mut big = vec![((5u8 - 4) << 2) | 0b11];
    big.extend_from_slice(&[0, 0, 0, 0, 1]);
    assert_eq!(decode_compact_u64(&big, 0), Some((1u64 << 32, 6)));
    // Truncated input.
    assert_eq!(decode_compact_u64(&[0b01], 0), None);
}

// A self-describing document decodes through its own type table: the call
// arguments are resolved by numeric id rather than by name.
#[test]
fn portable_extrinsic_round_trip() {
    let mut registry = scale_info::Registry::new();
    let u32_id = registry.register_type(&scale_info::MetaType::new::<u32>()).id;
    let portable: scale_info::PortableRegistry = registry.into();
    let meta = Metadata::V15(PortableMetadata {
        pallets: vec![PortablePalletMeta {
            name: "System".to_owned(),
            index: 0,
            calls: Some(100),
            storage: None,
        }],
        types: vec![PortableTypeMeta {
            id: 100,
            params: vec![],
            def: TypeDefMeta::Variant {
                variants: vec![VariantMeta {
                    index: 0,
                    name: "remark".to_owned(),
                    fields: vec![FieldMeta { name: Some("data".to_owned()), ty: u32_id }],
                }],
            },
        }],
        extrinsic: ExtrinsicMeta {
            ty: 0,
            address_ty: Some(u32_id),
            signature_ty: Some(u32_id),
            signed_extensions: vec![SignedExtMeta { name: "CheckNonce".to_owned(), ty: u32_id }],
        },
        registry: portable,
    });
    let mut body = vec![0x84];
    body.extend_from_slice(&1u32.to_le_bytes()); // address
    body.extend_from_slice(&2u32.to_le_bytes()); // signature
    body.extend_from_slice(&3u32.to_le_bytes()); // signed extensions
    body.extend_from_slice(&[0x00, 0x00]);
    body.extend_from_slice(&42u32.to_le_bytes());
    let bytes = with_len_prefix(&body);
    let decoded = decode_extrinsic(&bytes, &meta, &test_registry()).unwrap();
    match decoded {
        Extrinsic::Signed { address, signed_exts, call_data, .. } => {
            assert_eq!(address, 1u32.to_le_bytes().to_vec());
            assert_eq!(signed_exts[0].0, "CheckNonce");
            assert_eq!(signed_exts[0].1.clone().remove_context(), u32_value(3));
            assert_eq!(call_data.pallet_name, "System");
            assert_eq!(call_data.call_name, "remark");
            assert_eq!(call_data.args[0].1.clone().remove_context(), u32_value(42));
        }
        other => panic!("expected a signed extrinsic, got {other:?}"),
    }
}

// An argument that fails to decode is a value error, not a silent success:
// the u32 argument needs four bytes, but only two follow the call indices.
#[test]
fn extrinsic_argument_decode_failure_is_reported() {
    let body = vec![0x04, 0x00, 0x00, 0x2a, 0x00];
    let bytes = with_len_prefix(&body);
    let err = decode_extrinsic(&bytes, &test_metadata(), &test_registry()).unwrap_err();
    assert!(matches!(err, DecodeError::CannotDecodeValue { .. }));
}

// A storage key that ends inside a hasher's fixed-width hash bytes is
// rejected as exhausted, naming the hasher.
#[test]
fn storage_key_truncated_hash_is_rejected() {
    let meta = storage_metadata();
    let reg = test_registry();
    let mut bytes = storage_root_key("System", "B128");
    bytes.extend_from_slice(&[1, 2, 3]); // 3 of the 16 hash bytes
    let err = decode_storage_keys("System", "B128", &bytes, &meta, &reg).unwrap_err();
    assert!(matches!(
        err,
        DecodeError::KeyBytesExhausted { hasher: historic_decode::metadata::StorageHasher::Blake2_128 }
    ));
}

// The storage prefix really is the two 128-bit XX hashes of the names.
#[test]
fn storage_root_key_matches_independent_hashing() {
    let root = storage_root_key("System", "Now");
    let mut expected = sp_crypto_hashing::twox_128(b"System").to_vec();
    expected.extend_from_slice(&sp_crypto_hashing::twox_128(b"Now"));
    assert_eq!(root, expected);
    assert_ne!(&root[..16], b"System".as_slice());
}

// The known-corrupt entry is skipped from its spec-version floor onward.
#[test]
fn skip_decoding_matches_exact_key_and_version_floor() {
    let skipper = SkipDecoding::new();
    let key = hex::decode(
        "1809d78346727a0ef58c0fa03bafa3231d885dcfb277f185f2d8e62a5f290c85\
         4d2d16b4be62d0e00e6de68b13b82479fbe988ab9ecb16bad446b67b993cdd91\
         98cd41c7c6259c49",
    )
    .unwrap();
    assert!(skipper.should_skip(23, &key));
    assert!(skipper.should_skip(1000, &key));
    assert!(!skipper.should_skip(22, &key));
    let mut other = key.clone();
    other[0] ^= 1;
    assert!(!skipper.should_skip(23, &other));
}
