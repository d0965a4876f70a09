use historic_decode::errors::SchemaError;
use historic_decode::extrinsic_type_info::ExtrinsicTypeInfo;
use historic_decode::metadata::{
    ArgMeta, CallMeta, EventMeta, ExtrinsicMeta, LegacyMetadata, LegacyStorageEntryMeta,
    LegacyStorageTy, Metadata, ModuleMeta, PortableMetadata, PortablePalletMeta,
    PortableStorageEntryMeta, PortableStorageTy, PortableTypeMeta, SignedExtMeta, StorageHasher,
    TypeDefMeta, TypeParamMeta, VariantMeta, FieldMeta,
};
use historic_decode::call_types::{extend_with_metadata_info, SyntheticVariantFields};
use historic_decode::storage_entries_list::{get_storage_entries, StorageEntriesList};
use historic_decode::storage_type_info::{is_iterable, StorageTypeInfo};

fn arg(name: &str, ty: &str) -> ArgMeta {
    ArgMeta { name: name.to_owned(), ty: ty.to_owned() }
}

fn module(name: &str, index: u8, calls: Option<Vec<CallMeta>>) -> ModuleMeta {
    ModuleMeta { name: name.to_owned(), index, calls, events: None, storage: None }
}

fn legacy_positional(modules: Vec<ModuleMeta>) -> LegacyMetadata {
    LegacyMetadata {
        modules,
        explicit_indices: false,
        named_extensions: false,
        signed_extensions: vec![],
    }
}

fn sample_modules() -> Vec<ModuleMeta> {
    vec![
        module("NoCalls", 0, None),
        module(
            "Balances",
            0,
            Some(vec![CallMeta {
                name: "transfer".to_owned(),
                args: vec![arg("dest", "u32"), arg("amount", "u64")],
            }]),
        ),
        module(
            "System",
            0,
            Some(vec![CallMeta { name: "remark".to_owned(), args: vec![arg("data", "u32")] }]),
        ),
    ]
}

// Layouts without explicit indices select a pallet by its position among
// the modules that declare calls, not among all modules.
#[test]
fn positional_pallet_selection_skips_call_less_modules() {
    let m = legacy_positional(sample_modules());
    let info = m.get_extrinsic_info(0, 0).unwrap();
    assert_eq!(info.pallet_name, "Balances");
    assert_eq!(info.call_name, "transfer");
    assert_eq!(info.args.len(), 2);
    assert_eq!(info.args[0].name, "dest");
    assert_eq!(info.args[0].id.name, "u32");
    assert_eq!(info.args[0].id.pallet.as_deref(), Some("Balances"));
    let info = m.get_extrinsic_info(1, 0).unwrap();
    assert_eq!(info.pallet_name, "System");
}

// Layouts with explicit indices select by the declared index field,
// ignoring declaration order.
#[test]
fn explicit_pallet_selection_uses_declared_index() {
    let mut modules = sample_modules();
    modules[1].index = 9;
    modules[2].index = 3;
    let m = LegacyMetadata {
        modules,
        explicit_indices: true,
        named_extensions: true,
        signed_extensions: vec!["CheckNonce".to_owned()],
    };
    let info = m.get_extrinsic_info(3, 0).unwrap();
    assert_eq!(info.pallet_name, "System");
    let info = m.get_extrinsic_info(9, 0).unwrap();
    assert_eq!(info.pallet_name, "Balances");
    assert!(matches!(
        m.get_extrinsic_info(1, 0),
        Err(SchemaError::PalletIndexNotFound { index: 1 })
    ));
}

#[test]
fn missing_call_and_bad_type_name_are_schema_errors() {
    let m = legacy_positional(sample_modules());
    assert!(matches!(
        m.get_extrinsic_info(5, 0),
        Err(SchemaError::PalletIndexNotFound { index: 5 })
    ));
    assert!(matches!(m.get_extrinsic_info(0, 7), Err(SchemaError::CallNotFound { .. })));

    let bad = legacy_positional(vec![module(
        "Oops",
        0,
        Some(vec![CallMeta { name: "c".to_owned(), args: vec![arg("x", "Vec<u32")] }]),
    )]);
    assert!(matches!(bad.get_extrinsic_info(0, 0), Err(SchemaError::InvalidTypeName { .. })));
}

#[test]
fn hardcoded_signature_info_before_named_extensions() {
    let m = legacy_positional(sample_modules());
    let sig = m.get_signature_info().unwrap();
    assert_eq!(sig.address_id.name, "hardcoded::ExtrinsicAddress");
    assert_eq!(sig.signature_id.name, "hardcoded::ExtrinsicSignature");
    assert_eq!(sig.signed_extension_ids.len(), 1);
    assert_eq!(sig.signed_extension_ids[0].name, "ExtrinsicSignedExtensions");
    assert_eq!(sig.signed_extension_ids[0].id.name, "hardcoded::ExtrinsicSignedExtensions");
}

#[test]
fn named_signature_info_lists_each_extension() {
    let m = LegacyMetadata {
        modules: sample_modules(),
        explicit_indices: false,
        named_extensions: true,
        signed_extensions: vec!["CheckNonce".to_owned(), "CheckEra".to_owned()],
    };
    let sig = m.get_signature_info().unwrap();
    assert_eq!(sig.signed_extension_ids.len(), 2);
    assert_eq!(sig.signed_extension_ids[0].name, "CheckNonce");
    assert_eq!(sig.signed_extension_ids[0].id.name, "CheckNonce");
    assert_eq!(sig.signed_extension_ids[1].name, "CheckEra");
}

fn empty_registry() -> scale_info::PortableRegistry {
    scale_info::PortableRegistry::from(scale_info::Registry::new())
}

fn portable_sample() -> PortableMetadata {
    PortableMetadata {
        pallets: vec![PortablePalletMeta {
            name: "System".to_owned(),
            index: 7,
            calls: Some(0),
            storage: None,
        }],
        types: vec![
            PortableTypeMeta {
                id: 0,
                params: vec![],
                def: TypeDefMeta::Variant {
                    variants: vec![VariantMeta {
                        index: 2,
                        name: "remark".to_owned(),
                        fields: vec![FieldMeta { name: Some("data".to_owned()), ty: 5 }],
                    }],
                },
            },
            PortableTypeMeta {
                id: 1,
                params: vec![
                    TypeParamMeta { name: "Address".to_owned(), ty: Some(10) },
                    TypeParamMeta { name: "Signature".to_owned(), ty: Some(11) },
                ],
                def: TypeDefMeta::Other,
            },
        ],
        extrinsic: ExtrinsicMeta {
            ty: 1,
            address_ty: None,
            signature_ty: None,
            signed_extensions: vec![SignedExtMeta { name: "CheckNonce".to_owned(), ty: 12 }],
        },
        registry: empty_registry(),
    }
}

// For self-describing layouts the call is the variant whose tag equals the
// call index, and its named fields are the arguments in order.
#[test]
fn portable_call_selected_by_variant_tag() {
    let m = portable_sample();
    let info = m.get_extrinsic_info(7, 2).unwrap();
    assert_eq!(info.pallet_name, "System");
    assert_eq!(info.call_name, "remark");
    assert_eq!(info.args.len(), 1);
    assert_eq!(info.args[0].name, "data");
    assert_eq!(info.args[0].id, 5);
    assert!(matches!(m.get_extrinsic_info(7, 0), Err(SchemaError::CallNotFound { .. })));
    assert!(matches!(m.get_extrinsic_info(0, 2), Err(SchemaError::PalletIndexNotFound { .. })));
}

// A v14-style document reads the address and signature types off the
// extrinsic type's generic parameters.
#[test]
fn portable_signature_info_from_type_params() {
    let m = portable_sample();
    let sig = m.get_signature_info().unwrap();
    assert_eq!(sig.address_id, 10);
    assert_eq!(sig.signature_id, 11);
    assert_eq!(sig.signed_extension_ids.len(), 1);
    assert_eq!(sig.signed_extension_ids[0].name, "CheckNonce");
    assert_eq!(sig.signed_extension_ids[0].id, 12);
}

// A v15-style document names the address and signature types directly.
#[test]
fn portable_signature_info_direct_ids() {
    let mut m = portable_sample();
    m.extrinsic.address_ty = Some(20);
    m.extrinsic.signature_ty = Some(21);
    let sig = m.get_signature_info().unwrap();
    assert_eq!(sig.address_id, 20);
    assert_eq!(sig.signature_id, 21);
}

fn legacy_with_storage(entries: Vec<LegacyStorageEntryMeta>) -> LegacyMetadata {
    legacy_positional(vec![ModuleMeta {
        name: "System".to_owned(),
        index: 0,
        calls: None,
        events: None,
        storage: Some(entries),
    }])
}

fn nmap(hashers: Vec<StorageHasher>, n_keys: usize) -> LegacyStorageEntryMeta {
    LegacyStorageEntryMeta {
        name: "NMap".to_owned(),
        ty: LegacyStorageTy::NMap {
            hashers,
            keys: (0..n_keys).map(|_| "u32".to_owned()).collect(),
            value: "u64".to_owned(),
        },
    }
}

// One hasher declared for three keys: all three keys use that hasher.
#[test]
fn nmap_one_hasher_applies_to_every_key() {
    let m = legacy_with_storage(vec![nmap(vec![StorageHasher::Twox64Concat], 3)]);
    let info = m.get_storage_info("System", "NMap").unwrap();
    assert_eq!(info.keys.len(), 3);
    for key in &info.keys {
        assert_eq!(key.hasher, StorageHasher::Twox64Concat);
        assert_eq!(key.key_id.name, "u32");
        assert_eq!(key.key_id.pallet.as_deref(), Some("System"));
    }
    assert_eq!(info.value_id.name, "u64");
}

// Three hashers for three keys: positional pairing.
#[test]
fn nmap_matching_hasher_count_pairs_positionally() {
    let hashers =
        vec![StorageHasher::Blake2_128, StorageHasher::Twox64Concat, StorageHasher::Identity];
    let m = legacy_with_storage(vec![nmap(hashers.clone(), 3)]);
    let info = m.get_storage_info("System", "NMap").unwrap();
    assert_eq!(info.keys.len(), 3);
    for (key, hasher) in info.keys.iter().zip(hashers) {
        assert_eq!(key.hasher, hasher);
    }
}

// Two hashers for three keys: a schema error.
#[test]
fn nmap_mismatched_hasher_count_is_an_error() {
    let m = legacy_with_storage(vec![nmap(
        vec![StorageHasher::Blake2_128, StorageHasher::Twox64Concat],
        3,
    )]);
    assert!(matches!(
        m.get_storage_info("System", "NMap"),
        Err(SchemaError::HasherKeyCountMismatch { hashers: 2, keys: 3 })
    ));
}

#[test]
fn legacy_storage_plain_and_maps() {
    let m = legacy_with_storage(vec![
        LegacyStorageEntryMeta {
            name: "Now".to_owned(),
            ty: LegacyStorageTy::Plain { value: "u64".to_owned() },
        },
        LegacyStorageEntryMeta {
            name: "Account".to_owned(),
            ty: LegacyStorageTy::DoubleMap {
                hasher: StorageHasher::Blake2_128,
                key1: "u32".to_owned(),
                key2: "u64".to_owned(),
                key2_hasher: StorageHasher::Twox64Concat,
                value: "bool".to_owned(),
            },
        },
    ]);
    let info = m.get_storage_info("System", "Now").unwrap();
    assert!(info.keys.is_empty());
    assert_eq!(info.value_id.name, "u64");
    let info = m.get_storage_info("System", "Account").unwrap();
    assert_eq!(info.keys.len(), 2);
    assert_eq!(info.keys[0].hasher, StorageHasher::Blake2_128);
    assert_eq!(info.keys[1].hasher, StorageHasher::Twox64Concat);
    assert!(matches!(
        m.get_storage_info("System", "Nope"),
        Err(SchemaError::StorageEntryNotFound { .. })
    ));
    assert!(matches!(
        m.get_storage_info("Nope", "Now"),
        Err(SchemaError::PalletNotFound { .. })
    ));
}

// A newline smuggled into a declared type name is stripped before parsing.
#[test]
fn legacy_storage_type_names_are_sanitized() {
    let m = legacy_with_storage(vec![LegacyStorageEntryMeta {
        name: "Odd".to_owned(),
        ty: LegacyStorageTy::Plain { value: "u\n64".to_owned() },
    }]);
    let info = m.get_storage_info("System", "Odd").unwrap();
    assert_eq!(info.value_id.name, "u64");
}

// A portable map whose key type is a tuple follows the same pairing rule.
#[test]
fn portable_tuple_key_pairing() {
    let mut m = portable_sample();
    m.pallets[0].storage = Some(vec![
        PortableStorageEntryMeta {
            name: "Pair".to_owned(),
            ty: PortableStorageTy::Keyed { hashers: vec![StorageHasher::Identity], key: 2, value: 5 },
        },
        PortableStorageEntryMeta {
            name: "Single".to_owned(),
            ty: PortableStorageTy::Keyed {
                hashers: vec![StorageHasher::Blake2_256],
                key: 5,
                value: 5,
            },
        },
        PortableStorageEntryMeta {
            name: "Bad".to_owned(),
            ty: PortableStorageTy::Keyed {
                hashers: vec![StorageHasher::Identity, StorageHasher::Identity],
                key: 2,
                value: 5,
            },
        },
    ]);
    m.types.push(PortableTypeMeta {
        id: 2,
        params: vec![],
        def: TypeDefMeta::Tuple { fields: vec![5, 6, 7] },
    });
    m.types.push(PortableTypeMeta { id: 5, params: vec![], def: TypeDefMeta::Other });

    let info = m.get_storage_info("System", "Pair").unwrap();
    assert_eq!(info.keys.len(), 3);
    assert_eq!(info.keys[0].key_id, 5);
    assert_eq!(info.keys[1].key_id, 6);
    assert_eq!(info.keys[2].key_id, 7);
    for key in &info.keys {
        assert_eq!(key.hasher, StorageHasher::Identity);
    }

    let info = m.get_storage_info("System", "Single").unwrap();
    assert_eq!(info.keys.len(), 1);
    assert_eq!(info.keys[0].key_id, 5);
    assert_eq!(info.keys[0].hasher, StorageHasher::Blake2_256);

    assert!(matches!(
        m.get_storage_info("System", "Bad"),
        Err(SchemaError::HasherKeyCountMismatch { hashers: 2, keys: 3 })
    ));
}

// A map entry is iterable; a plain entry is fetched once.
#[test]
fn iterability_follows_key_count() {
    let m = legacy_with_storage(vec![
        LegacyStorageEntryMeta {
            name: "Now".to_owned(),
            ty: LegacyStorageTy::Plain { value: "u64".to_owned() },
        },
        LegacyStorageEntryMeta {
            name: "Map".to_owned(),
            ty: LegacyStorageTy::SingleMap {
                hasher: StorageHasher::Twox64Concat,
                key: "u32".to_owned(),
                value: "u64".to_owned(),
            },
        },
    ]);
    let meta = Metadata::V9(m);
    assert_eq!(is_iterable("System", "Now", &meta).unwrap(), false);
    assert_eq!(is_iterable("System", "Map", &meta).unwrap(), true);
    assert!(is_iterable("System", "Nope", &meta).is_err());
}

#[test]
fn storage_entries_are_listed_in_declaration_order() {
    let mut modules = sample_modules();
    modules[0].storage = Some(vec![
        LegacyStorageEntryMeta {
            name: "A".to_owned(),
            ty: LegacyStorageTy::Plain { value: "u8".to_owned() },
        },
        LegacyStorageEntryMeta {
            name: "B".to_owned(),
            ty: LegacyStorageTy::Plain { value: "u8".to_owned() },
        },
    ]);
    modules[2].storage = Some(vec![LegacyStorageEntryMeta {
        name: "C".to_owned(),
        ty: LegacyStorageTy::Plain { value: "u8".to_owned() },
    }]);
    let m = legacy_positional(modules);
    let entries = m.storage_entries_list();
    let listed: Vec<(String, String)> =
        entries.into_iter().map(|e| (e.pallet.clone(), e.entry.clone())).collect();
    assert_eq!(
        listed,
        vec![
            ("NoCalls".to_owned(), "A".to_owned()),
            ("NoCalls".to_owned(), "B".to_owned()),
            ("System".to_owned(), "C".to_owned()),
        ]
    );

    let via_metadata = get_storage_entries(&Metadata::V8(legacy_positional(vec![])));
    assert!(via_metadata.is_empty());
}

#[test]
fn storage_entry_into_owned_is_identity() {
    let e = historic_decode::storage_entries_list::StorageEntry {
        pallet: "P".to_owned(),
        entry: "E".to_owned(),
    };
    let owned = e.clone().into_owned();
    assert_eq!(owned.pallet, "P");
    assert_eq!(owned.entry, "E");
}

#[test]
fn synthesised_call_and_event_types_mirror_the_modules() {
    let mut modules = sample_modules();
    modules[1].events = Some(vec![EventMeta {
        name: "Transferred".to_owned(),
        args: vec!["u32".to_owned(), "u64".to_owned()],
    }]);
    let meta = Metadata::V8(legacy_positional(modules));
    let reg = extend_with_metadata_info(&meta).unwrap();

    assert_eq!(reg.call_enums.len(), 2);
    assert_eq!(reg.call_enums[0].name, "builtin::module::call::Balances");
    assert_eq!(reg.call_enums[1].name, "builtin::module::call::System");
    assert_eq!(reg.call_enums[0].variants.len(), 1);
    let v = &reg.call_enums[0].variants[0];
    assert_eq!(v.index, 0);
    assert_eq!(v.name, "transfer");
    match &v.fields {
        SyntheticVariantFields::StructOf(fields) => {
            assert_eq!(fields.len(), 2);
            assert_eq!(fields[0].name, "dest");
            assert_eq!(fields[0].value.name, "u32");
            assert_eq!(fields[0].value.pallet.as_deref(), Some("Balances"));
        }
        _ => panic!("call variant fields should be named"),
    }

    assert_eq!(reg.call_type.len(), 2);
    assert_eq!(reg.call_type[0].name, "Balances");
    assert_eq!(reg.call_type[0].index, 0);
    assert_eq!(reg.call_type[1].name, "System");
    assert_eq!(reg.call_type[1].index, 1);

    assert_eq!(reg.event_enums.len(), 1);
    assert_eq!(reg.event_enums[0].name, "builtin::module::event::Balances");
    assert_eq!(reg.event_type.len(), 1);
    assert_eq!(reg.event_type[0].index, 0);

    // A portable document contributes nothing.
    let none = extend_with_metadata_info(&Metadata::V14(portable_sample())).unwrap();
    assert!(none.call_enums.is_empty() && none.call_type.is_empty());
}
