//! The calls into the `bitcoin` crate: address parsing and network checks,
//! script derivation, PSBT creation and PSBT encoding. Each function here
//! states what the crate's source shows of the call; results that take pages
//! to state (address encodings, scripts, serialization) are named.
use vstd::prelude::*;

use bitcoin::address::NetworkUnchecked;
use bitcoin::psbt::Input as BtcPsbtInput;
use bitcoin::Address as BtcAddress;
use bitcoin::Network as BtcNetwork;
use bitcoin::Psbt as BtcPsbt;
use bitcoin::Transaction as BtcTransaction;
use bitcoin::TxIn as BtcTxIn;
use bitcoin::TxOut as BtcTxOut;

use crate::swap::{Network, Psbt, PsbtInput, PsbtView, Transaction, TxIn, TxInView, TxOut};

verus! {

#[verifier::external_type_specification]
#[verifier::external_body]
pub struct ExBitcoinNetwork(BtcNetwork);

#[verifier::external_type_specification]
#[verifier::external_body]
pub struct ExBitcoinTxIn(BtcTxIn);

#[verifier::external_type_specification]
#[verifier::external_body]
pub struct ExBitcoinTxOut(BtcTxOut);

#[verifier::external_type_specification]
#[verifier::external_body]
pub struct ExBitcoinTransaction(BtcTransaction);

#[verifier::external_type_specification]
#[verifier::external_body]
pub struct ExBitcoinPsbtInput(BtcPsbtInput);

#[verifier::external_type_specification]
#[verifier::external_body]
pub struct ExBitcoinPsbt(BtcPsbt);

/// Whether `text` parses as a bitcoin address (`FromStr for
/// Address<NetworkUnchecked>`: bech32/bech32m segwit, or base58 P2PKH/P2SH).
pub uninterp spec fn address_parses(text: Seq<char>) -> bool;

/// Whether the parsed address `text` belongs to `network`
/// (`Address<NetworkUnchecked>::is_valid_for_network`).
pub uninterp spec fn address_valid_for_network(text: Seq<char>, network: Network) -> bool;

/// The script that locks coins to the parsed address `text`
/// (`Address::script_pubkey`).
pub uninterp spec fn address_script_pubkey(text: Seq<char>) -> Seq<u8>;

/// The parsed address `text` as bitcoin displays it (`Display for Address`).
pub uninterp spec fn address_display(text: Seq<char>) -> Seq<char>;

/// The base64 text of a PSBT (`Display for Psbt`: base64 of its BIP 174
/// serialization).
pub uninterp spec fn psbt_base64_of(psbt: PsbtView) -> Seq<char>;

/// What `Psbt::from_unsigned_tx` refuses: walking the inputs in order, the
/// first one with a non-empty script_sig or witness gives the message of
/// `psbt::Error::UnsignedTxHasScriptSigs` or `UnsignedTxHasScriptWitnesses`.
pub open spec fn unsigned_tx_error(inputs: Seq<TxInView>) -> Option<Seq<char>>
    decreases inputs.len(),
{
    if inputs.len() == 0 {
        None
    } else if inputs[0].script_sig.len() > 0 {
        Some("the unsigned transaction has script sigs"@)
    } else if inputs[0].witness.len() > 0 {
        Some("the unsigned transaction has script witnesses"@)
    } else {
        unsigned_tx_error(inputs.drop_first())
    }
}

/// Converts a network to bitcoin's, variant for variant.
#[verifier::external_body]
fn bitcoin_network(network: Network) -> BtcNetwork {
    match network {
        Network::Bitcoin => BtcNetwork::Bitcoin,
        Network::Testnet => BtcNetwork::Testnet,
        Network::Testnet4 => BtcNetwork::Testnet4,
        Network::Signet => BtcNetwork::Signet,
        Network::Regtest => BtcNetwork::Regtest,
    }
}

/// Converts an output to bitcoin's, field for field.
#[verifier::external_body]
fn bitcoin_txout(o: &TxOut) -> BtcTxOut {
    BtcTxOut {
        value: bitcoin::Amount::from_sat(o.value),
        script_pubkey: bitcoin::ScriptBuf::from_bytes(o.script_pubkey.clone()),
    }
}

/// Converts an input to bitcoin's, field for field.
#[verifier::external_body]
fn bitcoin_txin(i: &TxIn) -> BtcTxIn {
    BtcTxIn {
        previous_output: bitcoin::OutPoint {
            txid: <bitcoin::Txid as bitcoin::hashes::Hash>::from_byte_array(i.previous_output.txid),
            vout: i.previous_output.vout,
        },
        script_sig: bitcoin::ScriptBuf::from_bytes(i.script_sig.clone()),
        sequence: bitcoin::Sequence(i.sequence),
        witness: bitcoin::Witness::from_slice(&i.witness),
    }
}

/// Converts a transaction to bitcoin's, field for field.
#[verifier::external_body]
fn bitcoin_transaction(tx: &Transaction) -> BtcTransaction {
    BtcTransaction {
        version: bitcoin::transaction::Version(tx.version),
        lock_time: bitcoin::absolute::LockTime::from_consensus(tx.lock_time),
        input: tx.input.iter().map(bitcoin_txin).collect(),
        output: tx.output.iter().map(bitcoin_txout).collect(),
    }
}

/// Converts a per-input map to bitcoin's; every entry but `witness_utxo` is
/// empty.
#[verifier::external_body]
fn bitcoin_psbt_input(i: &PsbtInput) -> BtcPsbtInput {
    BtcPsbtInput {
        witness_utxo: i.witness_utxo.as_ref().map(bitcoin_txout),
        ..Default::default()
    }
}

/// Converts a PSBT to bitcoin's: the global maps and the per-output maps (one
/// per transaction output) are empty.
#[verifier::external_body]
fn bitcoin_psbt(p: &Psbt) -> BtcPsbt {
    BtcPsbt {
        unsigned_tx: bitcoin_transaction(p.unsigned_tx()),
        version: p.version(),
        xpub: Default::default(),
        proprietary: Default::default(),
        unknown: Default::default(),
        inputs: p.inputs().iter().map(bitcoin_psbt_input).collect(),
        outputs: vec![Default::default(); p.unsigned_tx().output.len()],
    }
}

/// Calls `FromStr for Address<NetworkUnchecked>` on `text`; claims only that
/// the outcome is the named `address_parses`.
#[verifier::external_body]
pub(crate) fn parse_address(text: &str) -> (ok: bool)
    ensures
        ok == address_parses(text@),
{
    text.parse::<BtcAddress<NetworkUnchecked>>().is_ok()
}

/// Calls `Address<NetworkUnchecked>::require_network` on the parsed `text`;
/// claims that it succeeds exactly when the named
/// `address_valid_for_network` holds.
#[verifier::external_body]
pub(crate) fn require_network(text: &str, network: Network) -> (ok: bool)
    requires
        address_parses(text@),
    ensures
        ok == address_valid_for_network(text@, network),
{
    let address = text.parse::<BtcAddress<NetworkUnchecked>>().expect("a parsed address");
    address.require_network(bitcoin_network(network)).is_ok()
}

/// Calls `Address::script_pubkey` on the parsed `text`; claims that the bytes
/// are the named `address_script_pubkey`.
#[verifier::external_body]
pub(crate) fn script_pubkey_of(text: &str) -> (script: Vec<u8>)
    requires
        address_parses(text@),
    ensures
        script@ == address_script_pubkey(text@),
{
    let address = text.parse::<BtcAddress<NetworkUnchecked>>().expect("a parsed address");
    address.assume_checked().script_pubkey().into_bytes()
}

/// Calls `Display for Address` on the parsed `text`; claims that the text is
/// the named `address_display`.
#[verifier::external_body]
pub(crate) fn display_address(text: &str) -> (shown: String)
    requires
        address_parses(text@),
    ensures
        shown@ == address_display(text@),
{
    let address = text.parse::<BtcAddress<NetworkUnchecked>>().expect("a parsed address");
    address.assume_checked().to_string()
}

/// Calls `Psbt::from_unsigned_tx` and keeps only whether it succeeded and, if
/// not, the error's message; claims what its source shows: it fails exactly
/// when an input carries a script_sig or a witness, with the message of the
/// first such input.
#[verifier::external_body]
pub(crate) fn check_unsigned_tx(tx: &Transaction) -> (r: Result<(), String>)
    ensures
        r is Ok <==> unsigned_tx_error(tx@.input) is None,
        r matches Err(m) ==> unsigned_tx_error(tx@.input) == Some(m@),
{
    BtcPsbt::from_unsigned_tx(bitcoin_transaction(tx)).map(|_p| ()).map_err(|e| e.to_string())
}

/// Calls `Display for Psbt` on the converted PSBT; claims that the text is the
/// named `psbt_base64_of`.
#[verifier::external_body]
pub(crate) fn psbt_to_base64(p: &Psbt) -> (s: String)
    ensures
        s@ == psbt_base64_of(p@),
{
    bitcoin_psbt(p).to_string()
}

} // verus!
