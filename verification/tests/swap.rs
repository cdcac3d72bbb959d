use std::str::FromStr;

use entangle::swap::{
    build_swap_psbt, Network, OutPoint, Psbt, SwapError, SwapRequest, Transaction, TxIn, TxOut,
    UncheckedAddress, Utxo,
};

const TESTNET_ADDR_A: &str = "tb1qrp33g0q5c5txsp9arysrx4k6zdkfs4nce4xj0gdcccefvpysxf3q0sl5k7";
const TESTNET_ADDR_B: &str = "tb1qw508d6qejxtdg4y5r3zarvary0c5xw7kxpjzsx";
const MAINNET_ADDR: &str = "bc1qw508d6qejxtdg4y5r3zarvary0c5xw7kv8f3t4";

/// The outpoint `aaaa…aaaa:vout` (a txid of 32 bytes 0xaa).
fn make_utxo(sats: u64, vout: u32) -> Utxo {
    Utxo {
        outpoint: OutPoint { txid: [0xaa; 32], vout },
        txout: TxOut { value: sats, script_pubkey: Vec::new() },
    }
}

fn addr(s: &str) -> UncheckedAddress {
    UncheckedAddress::parse(s).unwrap()
}

fn make_swap_request(two_sided: bool) -> SwapRequest {
    SwapRequest {
        utxo_a: make_utxo(50_000, 0),
        address_a: addr(TESTNET_ADDR_A),
        utxo_b: if two_sided { Some(make_utxo(75_000, 1)) } else { None },
        address_b: addr(TESTNET_ADDR_B),
        network: Network::Testnet,
    }
}

fn hex(s: &str) -> Vec<u8> {
    (0..s.len()).step_by(2).map(|i| u8::from_str_radix(&s[i..i + 2], 16).unwrap()).collect()
}

#[test]
fn two_sided_swap_produces_valid_psbt() {
    let request = make_swap_request(true);
    let psbt = build_swap_psbt(&request).unwrap();

    assert_eq!(psbt.unsigned_tx().input.len(), 2);
    assert_eq!(psbt.unsigned_tx().output.len(), 2);

    // Inputs reference the correct outpoints
    assert_eq!(psbt.unsigned_tx().input[0].previous_output, request.utxo_a.outpoint);
    assert_eq!(
        psbt.unsigned_tx().input[1].previous_output,
        request.utxo_b.as_ref().unwrap().outpoint
    );

    // Output 0: A's value → B's address
    assert_eq!(psbt.unsigned_tx().output[0].value, request.utxo_a.txout.value);
    let addr_b = request.address_b.require_network(request.network).unwrap();
    assert_eq!(psbt.unsigned_tx().output[0].script_pubkey, addr_b.script_pubkey());

    // Output 1: B's value → A's address
    assert_eq!(
        psbt.unsigned_tx().output[1].value,
        request.utxo_b.as_ref().unwrap().txout.value
    );
    let addr_a = request.address_a.require_network(request.network).unwrap();
    assert_eq!(psbt.unsigned_tx().output[1].script_pubkey, addr_a.script_pubkey());

    // Witness UTXOs set for signing
    assert_eq!(psbt.inputs()[0].witness_utxo, Some(request.utxo_a.txout.clone()));
    assert_eq!(
        psbt.inputs()[1].witness_utxo,
        Some(request.utxo_b.as_ref().unwrap().txout.clone())
    );
}

#[test]
fn one_sided_swap_produces_valid_psbt() {
    let request = make_swap_request(false);
    let psbt = build_swap_psbt(&request).unwrap();

    assert_eq!(psbt.unsigned_tx().input.len(), 1);
    assert_eq!(psbt.unsigned_tx().output.len(), 1);
    assert_eq!(psbt.unsigned_tx().input[0].previous_output, request.utxo_a.outpoint);
    assert_eq!(psbt.unsigned_tx().output[0].value, request.utxo_a.txout.value);
    assert_eq!(psbt.inputs()[0].witness_utxo, Some(request.utxo_a.txout.clone()));
}

#[test]
fn network_mismatch_address_a() {
    let request = SwapRequest {
        utxo_a: make_utxo(50_000, 0),
        address_a: addr(MAINNET_ADDR),
        utxo_b: None,
        address_b: addr(TESTNET_ADDR_B),
        network: Network::Testnet,
    };
    let err = build_swap_psbt(&request).unwrap_err();
    assert!(matches!(err, SwapError::NetworkMismatch { .. }));
}

#[test]
fn network_mismatch_address_b() {
    let request = SwapRequest {
        utxo_a: make_utxo(50_000, 0),
        address_a: addr(TESTNET_ADDR_A),
        utxo_b: None,
        address_b: addr(MAINNET_ADDR),
        network: Network::Testnet,
    };
    let err = build_swap_psbt(&request).unwrap_err();
    assert!(matches!(err, SwapError::NetworkMismatch { .. }));
}

#[test]
fn psbt_base64_round_trips() {
    let request = make_swap_request(true);
    let psbt = build_swap_psbt(&request).unwrap();
    let base64_str = psbt.to_base64();
    let parsed: bitcoin::Psbt = base64_str.parse().unwrap();
    assert_eq!(parsed.unsigned_tx.input.len(), 2);
    assert_eq!(parsed.unsigned_tx.output.len(), 2);
}

#[test]
fn decoded_psbt_carries_the_swap() {
    let request = make_swap_request(true);
    let psbt = build_swap_psbt(&request).unwrap();
    let parsed: bitcoin::Psbt = psbt.to_base64().parse().unwrap();
    let expected_outpoint = bitcoin::OutPoint::from_str(
        "aaaaaaaaaaaaaaaaaaaaaaaaaaaaaaaaaaaaaaaaaaaaaaaaaaaaaaaaaaaaaaaa:1",
    )
    .unwrap();
    assert_eq!(parsed.unsigned_tx.input[1].previous_output, expected_outpoint);
    assert_eq!(parsed.unsigned_tx.version, bitcoin::transaction::Version::TWO);
    assert_eq!(parsed.unsigned_tx.lock_time, bitcoin::absolute::LockTime::ZERO);
    assert_eq!(parsed.unsigned_tx.input[0].sequence, bitcoin::Sequence::MAX);
    assert_eq!(parsed.unsigned_tx.output[0].value, bitcoin::Amount::from_sat(50_000));
    assert_eq!(parsed.unsigned_tx.output[1].value, bitcoin::Amount::from_sat(75_000));
    assert_eq!(
        parsed.inputs[1].witness_utxo.as_ref().unwrap().value,
        bitcoin::Amount::from_sat(75_000)
    );
    assert_eq!(parsed.outputs.len(), 2);
}

#[test]
fn swap_scripts_pay_the_counterparty() {
    let request = make_swap_request(true);
    let psbt = build_swap_psbt(&request).unwrap();
    // P2WPKH of B's address; P2WSH of A's address.
    assert_eq!(
        psbt.unsigned_tx().output[0].script_pubkey,
        hex("0014751e76e8199196d454941c45d1b3a323f1433bd6")
    );
    assert_eq!(
        psbt.unsigned_tx().output[1].script_pubkey,
        hex("00201863143c14c5166804bd19203356da136c985678cd4d27a1b8c6329604903262")
    );
}

#[test]
fn swap_pays_out_exactly_what_is_spent() {
    let request = make_swap_request(true);
    let psbt = build_swap_psbt(&request).unwrap();
    let out: u64 = psbt.unsigned_tx().output.iter().map(|o| o.value).sum();
    assert_eq!(out, 125_000);
    for input in &psbt.unsigned_tx().input {
        assert!(input.script_sig.is_empty());
        assert!(input.witness.is_empty());
        assert_eq!(input.sequence, 0xFFFF_FFFF);
    }
    assert_eq!(psbt.unsigned_tx().version, 2);
    assert_eq!(psbt.unsigned_tx().lock_time, 0);
    assert_eq!(psbt.version(), 0);
}

#[test]
fn mismatch_error_names_address_a_first() {
    let request = SwapRequest {
        utxo_a: make_utxo(50_000, 0),
        address_a: addr(MAINNET_ADDR),
        utxo_b: None,
        address_b: addr("BC1QW508D6QEJXTDG4Y5R3ZARVARY0C5XW7KV8F3T4"),
        network: Network::Testnet,
    };
    let err = build_swap_psbt(&request).unwrap_err();
    assert_eq!(
        err,
        SwapError::NetworkMismatch { expected: Network::Testnet, address: MAINNET_ADDR.to_string() }
    );
    assert_eq!(
        err.message(),
        "address bc1qw508d6qejxtdg4y5r3zarvary0c5xw7kv8f3t4 does not match network testnet"
    );
}

#[test]
fn mismatch_error_shows_canonical_address_b() {
    let request = SwapRequest {
        utxo_a: make_utxo(50_000, 0),
        address_a: addr(TESTNET_ADDR_A),
        utxo_b: None,
        address_b: addr("BC1QW508D6QEJXTDG4Y5R3ZARVARY0C5XW7KV8F3T4"),
        network: Network::Testnet,
    };
    match build_swap_psbt(&request).unwrap_err() {
        SwapError::NetworkMismatch { expected, address } => {
            assert_eq!(expected, Network::Testnet);
            assert_eq!(address, MAINNET_ADDR);
        }
        other => panic!("unexpected error {other:?}"),
    }
}

#[test]
fn mainnet_swap_accepts_mainnet_addresses() {
    let request = SwapRequest {
        utxo_a: make_utxo(1_000, 3),
        address_a: addr(MAINNET_ADDR),
        utxo_b: None,
        address_b: addr(MAINNET_ADDR),
        network: Network::Bitcoin,
    };
    let psbt = build_swap_psbt(&request).unwrap();
    assert_eq!(psbt.unsigned_tx().input[0].previous_output.vout, 3);
    let err = build_swap_psbt(&SwapRequest { network: Network::Regtest, ..request }).unwrap_err();
    assert_eq!(
        err.message(),
        "address bc1qw508d6qejxtdg4y5r3zarvary0c5xw7kv8f3t4 does not match network regtest"
    );
}

#[test]
fn address_parsing_and_networks() {
    assert!(UncheckedAddress::parse("not an address").is_none());
    let a = addr(TESTNET_ADDR_B);
    assert_eq!(a.as_str(), TESTNET_ADDR_B);
    assert!(a.require_network(Network::Testnet).is_some());
    assert!(a.require_network(Network::Signet).is_some());
    assert!(a.require_network(Network::Testnet4).is_some());
    assert!(a.require_network(Network::Bitcoin).is_none());
    assert!(a.require_network(Network::Regtest).is_none());
    let upper = addr("TB1QW508D6QEJXTDG4Y5R3ZARVARY0C5XW7KXPJZSX");
    assert_eq!(upper.to_display_string(), TESTNET_ADDR_B);
}

#[test]
fn network_display_names() {
    assert_eq!(Network::Bitcoin.as_display_str(), "bitcoin");
    assert_eq!(Network::Testnet.as_display_str(), "testnet");
    assert_eq!(Network::Testnet4.as_display_str(), "testnet4");
    assert_eq!(Network::Signet.as_display_str(), "signet");
    assert_eq!(Network::Regtest.as_display_str(), "regtest");
    assert_eq!(Network::Signet.as_display_str(), bitcoin::Network::Signet.to_string());
}

fn input(script_sig: Vec<u8>, witness: Vec<Vec<u8>>) -> TxIn {
    TxIn {
        previous_output: OutPoint { txid: [1; 32], vout: 0 },
        script_sig,
        sequence: 0xFFFF_FFFF,
        witness,
    }
}

#[test]
fn psbt_refuses_signed_transactions() {
    let tx = |inputs: Vec<TxIn>| Transaction { version: 2, lock_time: 0, input: inputs, output: vec![] };
    let err = Psbt::from_unsigned_tx(tx(vec![input(vec![], vec![]), input(vec![0x51], vec![])]));
    assert_eq!(err.unwrap_err(), "the unsigned transaction has script sigs");
    let err = Psbt::from_unsigned_tx(tx(vec![input(vec![], vec![vec![1]]), input(vec![0x51], vec![])]));
    assert_eq!(err.unwrap_err(), "the unsigned transaction has script witnesses");
    let psbt = Psbt::from_unsigned_tx(tx(vec![input(vec![], vec![])])).unwrap();
    assert_eq!(psbt.inputs().len(), 1);
    assert_eq!(psbt.inputs()[0].witness_utxo, None);
}

#[test]
fn psbt_creation_error_message() {
    let e = SwapError::PsbtCreation("boom".to_string());
    assert_eq!(e.message(), "failed to create PSBT: boom");
}
