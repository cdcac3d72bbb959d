use entangle::listing::{
    esplora_base_url, esplora_tx_url, new_listing, optional_utxo, parse_outpoint, parse_tags,
    select_output, utxo_request, EsploraVout, FetchError, FetchedUtxo, Listing, ListingStore,
};

const NOW: u64 = 1_700_000_000;

fn make_listing() -> Listing {
    Listing {
        id: 0,
        utxo_a: "aabb:0".into(),
        amount_a_sats: 50_000,
        address_a: "tb1qaddr_a".into(),
        utxo_b: None,
        amount_b_sats: None,
        address_b: "tb1qaddr_b".into(),
        network: "testnet".into(),
        tags: vec!["swap".into()],
        created_at: 0,
        script_pubkey_a: None,
        script_pubkey_b: None,
    }
}

#[test]
fn create_and_search() {
    let mut store = ListingStore::new();
    let created = store.create(make_listing(), NOW);

    assert_eq!(created.id, 1);
    assert!(created.created_at > 0);

    let results = store.search("aabb");
    assert_eq!(results.len(), 1);
    assert_eq!(results[0].utxo_a, "aabb:0");

    let results = store.search("nonexistent");
    assert!(results.is_empty());
}

#[test]
fn case_insensitive_search() {
    let mut store = ListingStore::new();
    let mut listing = make_listing();
    listing.utxo_a = "AABB:0".into();
    listing.tags = vec!["Atomic".into()];
    store.create(listing, NOW);

    let results = store.search("aabb");
    assert_eq!(results.len(), 1);

    let results = store.search("atomic");
    assert_eq!(results.len(), 1);

    let results = store.search("AABB");
    assert_eq!(results.len(), 1);
}

#[test]
fn search_matches_address_and_tags() {
    let mut store = ListingStore::new();
    store.create(make_listing(), NOW);

    // Search by address_a
    assert_eq!(store.search("addr_a").len(), 1);
    // Search by address_b
    assert_eq!(store.search("addr_b").len(), 1);
    // Search by tag
    assert_eq!(store.search("swap").len(), 1);
    // Search by network
    assert_eq!(store.search("testnet").len(), 1);
}

#[test]
fn empty_search_returns_all() {
    let mut store = ListingStore::new();
    store.create(make_listing(), NOW);

    let mut listing2 = make_listing();
    listing2.utxo_a = "ccdd:1".into();
    store.create(listing2, NOW);

    let results = store.search("");
    assert_eq!(results.len(), 2);
}

#[test]
fn ids_auto_increment() {
    let mut store = ListingStore::new();
    let a = store.create(make_listing(), NOW);
    let b = store.create(make_listing(), NOW);
    let c = store.create(make_listing(), NOW);

    assert_eq!(a.id, 1);
    assert_eq!(b.id, 2);
    assert_eq!(c.id, 3);
}

#[test]
fn ids_continue_after_the_largest_loaded_id() {
    let mut first = make_listing();
    first.id = 7;
    let mut second = make_listing();
    second.id = 3;
    let mut store = ListingStore::from_listings(vec![first, second]);
    assert_eq!(store.max_id(), 7);
    assert_eq!(store.next_id(), Some(8));
    let created = store.create(make_listing(), 42);
    assert_eq!(created.id, 8);
    assert_eq!(created.created_at, 42);
    assert_eq!(store.listings().len(), 3);
    assert_eq!(store.listings()[2], created);
}

#[test]
fn ids_can_run_out() {
    let mut last = make_listing();
    last.id = u64::MAX;
    let store = ListingStore::from_listings(vec![last]);
    assert_eq!(store.next_id(), None);
}

#[test]
fn search_by_second_utxo_keeps_order() {
    let mut store = ListingStore::new();
    let mut with_b = make_listing();
    with_b.utxo_b = Some("EEFF:2".into());
    store.create(make_listing(), NOW);
    store.create(with_b, NOW);
    let mut third = make_listing();
    third.utxo_b = Some("eeff:9".into());
    store.create(third, NOW);
    let results = store.search("eEfF");
    assert_eq!(results.iter().map(|l| l.id).collect::<Vec<_>>(), vec![2, 3]);
    assert!(store.search("zz").is_empty());
    // Unicode lower-casing: "Ä" matches "ä".
    let mut umlaut = make_listing();
    umlaut.tags = vec!["Ärger".into()];
    store.create(umlaut, NOW);
    assert_eq!(store.search("äRGER").len(), 1);
}

#[test]
fn tags_are_split_trimmed_and_filtered() {
    assert_eq!(parse_tags("swap, atomic ,, \t lightning "), vec!["swap", "atomic", "lightning"]);
    assert!(parse_tags("").is_empty());
    assert!(parse_tags(" , ,").is_empty());
    assert_eq!(parse_tags("a b,c"), vec!["a b", "c"]);
}

#[test]
fn blank_second_utxo_is_absent() {
    assert_eq!(optional_utxo("   ".to_string()), None);
    assert_eq!(optional_utxo(String::new()), None);
    assert_eq!(optional_utxo(" ab:1 ".to_string()), Some(" ab:1 ".to_string()));
}

#[test]
fn new_listing_from_form() {
    let l = new_listing(
        "aa:0".into(),
        FetchedUtxo { amount_sats: 10, script_pubkey: "0014ab".into() },
        "tb1qa".into(),
        Some(("bb:1".into(), FetchedUtxo { amount_sats: 20, script_pubkey: "0014cd".into() })),
        "tb1qb".into(),
        "testnet".into(),
        "x, y",
    );
    assert_eq!(l.id, 0);
    assert_eq!(l.created_at, 0);
    assert_eq!(l.amount_a_sats, 10);
    assert_eq!(l.utxo_b.as_deref(), Some("bb:1"));
    assert_eq!(l.amount_b_sats, Some(20));
    assert_eq!(l.script_pubkey_a.as_deref(), Some("0014ab"));
    assert_eq!(l.script_pubkey_b.as_deref(), Some("0014cd"));
    assert_eq!(l.tags, vec!["x", "y"]);
    let one_sided = new_listing(
        "aa:0".into(),
        FetchedUtxo { amount_sats: 10, script_pubkey: "0014ab".into() },
        "tb1qa".into(),
        None,
        "tb1qb".into(),
        "signet".into(),
        "",
    );
    assert_eq!(one_sided.utxo_b, None);
    assert_eq!(one_sided.amount_b_sats, None);
    assert_eq!(one_sided.script_pubkey_b, None);
    assert!(one_sided.tags.is_empty());
}

#[test]
fn outpoints_split_at_the_last_colon() {
    assert_eq!(parse_outpoint("abcd:3"), Ok(("abcd".to_string(), 3)));
    assert_eq!(parse_outpoint("a:b:12"), Ok(("a:b".to_string(), 12)));
    assert_eq!(parse_outpoint("abcd:+7"), Ok(("abcd".to_string(), 7)));
    assert_eq!(parse_outpoint("abcd"), Err(FetchError::InvalidOutpoint));
    assert_eq!(parse_outpoint("abcd:"), Err(FetchError::InvalidVout));
    assert_eq!(parse_outpoint("abcd:x1"), Err(FetchError::InvalidVout));
    assert_eq!(parse_outpoint("abcd:-1"), Err(FetchError::InvalidVout));
    assert_eq!(parse_outpoint("abcd:+"), Err(FetchError::InvalidVout));
    assert_eq!(
        parse_outpoint("abcd:99999999999999999999999999"),
        Err(FetchError::InvalidVout)
    );
}

#[test]
fn explorer_urls() {
    assert_eq!(esplora_base_url(None, "mainnet"), "https://mempool.space/api");
    assert_eq!(esplora_base_url(None, "testnet"), "https://mempool.space/testnet4/api");
    assert_eq!(esplora_base_url(None, "testnet4"), "https://mempool.space/testnet4/api");
    assert_eq!(esplora_base_url(None, "signet"), "https://mempool.space/signet/api");
    assert_eq!(esplora_base_url(None, "regtest"), "https://mempool.space/testnet4/api");
    assert_eq!(
        esplora_base_url(Some("http://localhost:3002".into()), "mainnet"),
        "http://localhost:3002"
    );
    assert_eq!(esplora_tx_url("http://x", "ab"), "http://x/tx/ab");
    assert_eq!(
        utxo_request(None, "signet", "ff:2"),
        Ok(("https://mempool.space/signet/api/tx/ff".to_string(), 2))
    );
    assert_eq!(utxo_request(None, "signet", "ff"), Err(FetchError::InvalidOutpoint));
}

#[test]
fn outputs_are_selected_by_index() {
    let vout = vec![
        EsploraVout { scriptpubkey: "0014aa".into(), value: 5 },
        EsploraVout { scriptpubkey: "0014bb".into(), value: 6 },
    ];
    let f = select_output(&vout, 1).ok().unwrap();
    assert_eq!((f.amount_sats, f.script_pubkey.as_str()), (6, "0014bb"));
    let err = select_output(&vout, 5).err().unwrap();
    assert_eq!(err, FetchError::VoutOutOfRange(5));
    assert_eq!(err.message(), "vout index 5 out of range");
}

#[test]
fn fetch_error_messages() {
    assert_eq!(
        FetchError::InvalidOutpoint.message(),
        "invalid outpoint format, expected txid:vout"
    );
    assert_eq!(FetchError::InvalidVout.message(), "invalid vout index");
    assert_eq!(FetchError::VoutOutOfRange(120).message(), "vout index 120 out of range");
    assert_eq!(
        FetchError::RequestFailed("timeout".into()).message(),
        "esplora request failed: timeout"
    );
    assert_eq!(
        FetchError::ResponseParseFailed("bad json".into()).message(),
        "esplora response parse failed: bad json"
    );
}

#[test]
fn created_listing_is_found_by_its_utxo() {
    let mut store = ListingStore::new();
    let mut l = make_listing();
    l.utxo_a = "Deadbeef:4".into();
    let created = store.create(l, NOW);
    let found = store.search(&created.utxo_a);
    assert_eq!(found, vec![created]);
}

#[test]
fn ascii_case_of_the_query_does_not_matter() {
    let mut store = ListingStore::new();
    let mut l = make_listing();
    l.utxo_a = "AaBb:0".into();
    store.create(l, NOW);
    store.create(make_listing(), NOW);
    for q in ["aabb", "AABB", "aAbB", "ADDR_B", "Swap"] {
        assert_eq!(store.search(q), store.search(&q.to_ascii_uppercase()), "{q}");
        assert_eq!(store.search(q), store.search(&q.to_ascii_lowercase()), "{q}");
    }
    assert_eq!(store.search("AABB").len(), 2);
}

#[test]
fn refining_a_query_never_adds_results() {
    let mut store = ListingStore::new();
    store.create(make_listing(), NOW);
    let mut other = make_listing();
    other.utxo_a = "aacc:1".into();
    store.create(other, NOW);
    let coarse = store.search("aa");
    let fine = store.search("AABB");
    assert_eq!(coarse.len(), 2);
    assert_eq!(fine.len(), 1);
    assert!(fine.iter().all(|l| coarse.contains(l)));
    assert_eq!(store.search("").len(), 2);
}
