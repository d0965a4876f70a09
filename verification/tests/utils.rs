use historic_decode::utils::{
    bytes_eq, pick_pseudorandom_block, sanitize_type_name, str_eq, url_or_polkadot_rpc_nodes,
    SpecVersionUpdate,
};

#[test]
fn url_list_splits_on_commas() {
    let urls = url_or_polkadot_rpc_nodes(Some("ws://a,ws://b,ws://c"));
    assert_eq!(urls, vec!["ws://a".to_owned(), "ws://b".to_owned(), "ws://c".to_owned()]);
    let one = url_or_polkadot_rpc_nodes(Some("ws://only"));
    assert_eq!(one, vec!["ws://only".to_owned()]);
    let odd = url_or_polkadot_rpc_nodes(Some(",x,"));
    assert_eq!(odd, vec!["".to_owned(), "x".to_owned(), "".to_owned()]);
}

#[test]
fn url_list_defaults_to_built_in_nodes() {
    let urls = url_or_polkadot_rpc_nodes(None);
    assert_eq!(urls.len(), 7);
    assert!(urls.iter().all(|u| u.starts_with("wss://")));
}

#[test]
fn sanitize_strips_newlines_only() {
    assert_eq!(sanitize_type_name("Vec<u8>"), "Vec<u8>");
    assert_eq!(sanitize_type_name("Vec<\nu8\n>"), "Vec<u8>");
    assert_eq!(sanitize_type_name("\n"), "");
}

#[test]
fn string_and_byte_comparisons() {
    assert!(str_eq("abc", "abc"));
    assert!(!str_eq("abc", "abd"));
    assert!(!str_eq("abc", "ab"));
    assert!(bytes_eq(&[1, 2, 3], &[1, 2, 3]));
    assert!(!bytes_eq(&[1, 2, 3], &[1, 2]));
    assert!(!bytes_eq(&[1, 2, 3], &[1, 2, 4]));
}

// Without spec versions the number is the block; with them, the picker
// cycles through the first block of each version, then 1001 further on.
#[test]
fn pseudorandom_block_is_deterministic() {
    assert_eq!(pick_pseudorandom_block(None, 5), 5);
    let versions = vec![
        SpecVersionUpdate { block: 100, spec_version: 1 },
        SpecVersionUpdate { block: 200, spec_version: 2 },
    ];
    assert_eq!(pick_pseudorandom_block(Some(&versions), 0), 100);
    assert_eq!(pick_pseudorandom_block(Some(&versions), 1), 200);
    assert_eq!(pick_pseudorandom_block(Some(&versions), 2), 1101);
    assert_eq!(pick_pseudorandom_block(Some(&versions), 3), 1201);
    assert_eq!(pick_pseudorandom_block(Some(&versions), 4), 2102);
}
