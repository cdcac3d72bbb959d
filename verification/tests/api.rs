use entangle::api::{create_swap, ApiError, BAD_REQUEST};
use entangle::swap::{build_swap_psbt, Network, OutPoint, SwapRequest, TxOut, UncheckedAddress, Utxo};

fn request_on(network: Network, address_a: &str, address_b: &str) -> SwapRequest {
    let utxo = |sats: u64, vout: u32| Utxo {
        outpoint: OutPoint { txid: [0xaa; 32], vout },
        txout: TxOut { value: sats, script_pubkey: Vec::new() },
    };
    SwapRequest {
        utxo_a: utxo(50_000, 0),
        address_a: UncheckedAddress::parse(address_a).unwrap(),
        utxo_b: Some(utxo(75_000, 1)),
        address_b: UncheckedAddress::parse(address_b).unwrap(),
        network,
    }
}

#[test]
fn create_swap_answers_with_the_base64_psbt() {
    let request = request_on(
        Network::Testnet,
        "tb1qrp33g0q5c5txsp9arysrx4k6zdkfs4nce4xj0gdcccefvpysxf3q0sl5k7",
        "tb1qw508d6qejxtdg4y5r3zarvary0c5xw7kxpjzsx",
    );
    let response = create_swap(&request).ok().unwrap();
    assert_eq!(response.psbt_base64, build_swap_psbt(&request).unwrap().to_base64());
    assert!(response.psbt_base64.starts_with("cHNidP8"));
    let parsed: bitcoin::Psbt = response.psbt_base64.parse().unwrap();
    assert_eq!(parsed.unsigned_tx.input.len(), 2);
}

#[test]
fn create_swap_rejects_a_network_mismatch() {
    let request = request_on(
        Network::Testnet,
        "bc1qw508d6qejxtdg4y5r3zarvary0c5xw7kv8f3t4",
        "tb1qw508d6qejxtdg4y5r3zarvary0c5xw7kxpjzsx",
    );
    let err = create_swap(&request).err().unwrap();
    assert_eq!(err.status_code(), 400);
    assert_eq!(BAD_REQUEST, 400);
    assert_eq!(
        err.message(),
        "address bc1qw508d6qejxtdg4y5r3zarvary0c5xw7kv8f3t4 does not match network testnet"
    );
    assert!(matches!(err, ApiError::Swap(_)));
}
