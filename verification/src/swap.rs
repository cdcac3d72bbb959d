//! The swap itself: given party A's UTXO and, optionally, party B's, build the
//! unsigned PSBT that pays A's coins to B's address and B's coins to A's.
use vstd::prelude::*;

use crate::btc::{
    address_display, address_parses, address_script_pubkey, address_valid_for_network,
    check_unsigned_tx, parse_address, psbt_to_base64, psbt_base64_of, require_network,
    script_pubkey_of, display_address, unsigned_tx_error,
};

verus! {

/// The bitcoin network an address or a transaction belongs to.
#[derive(Clone, Copy, Debug, PartialEq, Eq, Structural, Hash)]
pub enum Network {
    /// Mainnet Bitcoin.
    Bitcoin,
    /// Testnet (testnet3).
    Testnet,
    /// Testnet4.
    Testnet4,
    /// Signet.
    Signet,
    /// Regtest.
    Regtest,
}

impl Network {
    /// The name under which the network is displayed.
    pub open spec fn display_name(self) -> Seq<char> {
        match self {
            Network::Bitcoin => "bitcoin"@,
            Network::Testnet => "testnet"@,
            Network::Testnet4 => "testnet4"@,
            Network::Signet => "signet"@,
            Network::Regtest => "regtest"@,
        }
    }

    /// The displayed name of the network ("bitcoin", "testnet", ...).
    pub fn as_display_str(&self) -> (s: &'static str)
        ensures
            s@ == self.display_name(),
    {
        match self {
            Network::Bitcoin => "bitcoin",
            Network::Testnet => "testnet",
            Network::Testnet4 => "testnet4",
            Network::Signet => "signet",
            Network::Regtest => "regtest",
        }
    }
}

/// A reference to an output of an earlier transaction: its txid (in byte
/// order, as stored) and output index.
#[derive(Clone, Copy, Debug, PartialEq, Eq, Hash)]
pub struct OutPoint {
    pub txid: [u8; 32],
    pub vout: u32,
}

/// A transaction output: an amount in satoshis and the script that locks it.
#[derive(Clone, Debug, PartialEq, Eq, Hash)]
pub struct TxOut {
    pub value: u64,
    pub script_pubkey: Vec<u8>,
}

pub struct TxOutView {
    pub value: u64,
    pub script_pubkey: Seq<u8>,
}

impl View for TxOut {
    type V = TxOutView;

    open spec fn view(&self) -> TxOutView {
        TxOutView { value: self.value, script_pubkey: self.script_pubkey@ }
    }
}

impl TxOut {
    /// A copy of this output.
    pub fn duplicate(&self) -> (r: TxOut)
        ensures
            r@ == self@,
    {
        let script = self.script_pubkey.clone();
        assert(script@ =~= self.script_pubkey@);
        TxOut { value: self.value, script_pubkey: script }
    }
}

/// A transaction input.
#[derive(Clone, Debug, PartialEq, Eq, Hash)]
pub struct TxIn {
    pub previous_output: OutPoint,
    pub script_sig: Vec<u8>,
    pub sequence: u32,
    pub witness: Vec<Vec<u8>>,
}

pub struct TxInView {
    pub previous_output: OutPoint,
    pub script_sig: Seq<u8>,
    pub sequence: u32,
    pub witness: Seq<Seq<u8>>,
}

impl View for TxIn {
    type V = TxInView;

    open spec fn view(&self) -> TxInView {
        TxInView {
            previous_output: self.previous_output,
            script_sig: self.script_sig@,
            sequence: self.sequence,
            witness: self.witness@.map_values(|w: Vec<u8>| w@),
        }
    }
}

/// A bitcoin transaction.
#[derive(Clone, Debug, PartialEq, Eq, Hash)]
pub struct Transaction {
    pub version: i32,
    pub lock_time: u32,
    pub input: Vec<TxIn>,
    pub output: Vec<TxOut>,
}

pub struct TransactionView {
    pub version: i32,
    pub lock_time: u32,
    pub input: Seq<TxInView>,
    pub output: Seq<TxOutView>,
}

impl View for Transaction {
    type V = TransactionView;

    open spec fn view(&self) -> TransactionView {
        TransactionView {
            version: self.version,
            lock_time: self.lock_time,
            input: self.input@.map_values(|i: TxIn| i@),
            output: self.output@.map_values(|o: TxOut| o@),
        }
    }
}

/// The per-input data of a PSBT that this library fills in.
#[derive(Clone, Debug, PartialEq, Eq)]
pub struct PsbtInput {
    /// The output this input spends, needed to sign a segwit input.
    pub witness_utxo: Option<TxOut>,
}

/// The view of an optional output.
pub open spec fn opt_txout_view(o: Option<TxOut>) -> Option<TxOutView> {
    match o {
        Some(t) => Some(t@),
        None => None,
    }
}

/// A partially signed bitcoin transaction (BIP 174): an unsigned transaction
/// together with one map of signing data per input. The global maps and the
/// per-output maps are always empty here.
#[derive(Debug)]
pub struct Psbt {
    unsigned_tx: Transaction,
    version: u32,
    inputs: Vec<PsbtInput>,
}

pub struct PsbtView {
    pub unsigned_tx: TransactionView,
    pub version: u32,
    pub inputs: Seq<Option<TxOutView>>,
}

impl View for Psbt {
    type V = PsbtView;

    closed spec fn view(&self) -> PsbtView {
        PsbtView {
            unsigned_tx: self.unsigned_tx@,
            version: self.version,
            inputs: self.inputs@.map_values(|i: PsbtInput| opt_txout_view(i.witness_utxo)),
        }
    }
}

/// A PSBT is well formed when it holds one input map per transaction input and
/// the transaction carries no signature data.
pub open spec fn psbt_well_formed(p: PsbtView) -> bool {
    &&& p.inputs.len() == p.unsigned_tx.input.len()
    &&& unsigned_tx_error(p.unsigned_tx.input) is None
}

impl Psbt {
    #[verifier::type_invariant]
    spec fn well_formed(&self) -> bool {
        psbt_well_formed(self@)
    }

    /// Wraps an unsigned transaction into a PSBT with empty input maps.
    /// Fails, with the message that bitcoin gives, when an input carries a
    /// script_sig or a witness.
    pub fn from_unsigned_tx(tx: Transaction) -> (r: Result<Psbt, String>)
        ensures
            r is Ok <==> unsigned_tx_error(tx@.input) is None,
            r matches Err(m) ==> unsigned_tx_error(tx@.input) == Some(m@),
            r matches Ok(p) ==> p@ == (PsbtView {
                unsigned_tx: tx@,
                version: 0,
                inputs: Seq::new(tx@.input.len(), |i: int| None),
            }),
    {
        match check_unsigned_tx(&tx) {
            Err(m) => Err(m),
            Ok(()) => {
                let n: usize = tx.input.len();
                let mut inputs: Vec<PsbtInput> = Vec::new();
                let mut i: usize = 0;
                while i < n
                    invariant
                        i <= n,
                        inputs@.len() == i,
                        forall|k: int| 0 <= k < i ==> (#[trigger] inputs@[k]).witness_utxo is None,
                    decreases n - i,
                {
                    inputs.push(PsbtInput { witness_utxo: None });
                    i = i + 1;
                }
                let p = Psbt { unsigned_tx: tx, version: 0, inputs };
                assert(p@.inputs =~= Seq::new(tx@.input.len(), |i: int| None::<TxOutView>));
                Ok(p)
            },
        }
    }

    /// The unsigned transaction.
    pub fn unsigned_tx(&self) -> (t: &Transaction)
        ensures
            t@ == self@.unsigned_tx,
    {
        &self.unsigned_tx
    }

    /// The PSBT format version (0).
    pub fn version(&self) -> (v: u32)
        ensures
            v == self@.version,
    {
        self.version
    }

    /// The per-input maps, one per transaction input.
    pub fn inputs(&self) -> (i: &Vec<PsbtInput>)
        ensures
            i@.map_values(|x: PsbtInput| opt_txout_view(x.witness_utxo)) == self@.inputs,
            i@.len() == self@.unsigned_tx.input.len(),
    {
        proof {
            use_type_invariant(self);
        }
        &self.inputs
    }

    /// The PSBT with the output spent by input `index` recorded.
    pub fn with_witness_utxo(self, index: usize, txout: TxOut) -> (p: Psbt)
        requires
            index < self@.inputs.len(),
        ensures
            p@ == (PsbtView { inputs: self@.inputs.update(index as int, Some(txout@)), ..self@ }),
    {
        proof {
            use_type_invariant(&self);
        }
        let ghost old_view = self@;
        let Psbt { unsigned_tx, version, mut inputs } = self;
        inputs.set(index, PsbtInput { witness_utxo: Some(txout) });
        let p = Psbt { unsigned_tx, version, inputs };
        assert(p@.inputs =~= old_view.inputs.update(index as int, Some(txout@)));
        p
    }

    /// The PSBT, serialized as BIP 174 prescribes and encoded in base64.
    pub fn to_base64(&self) -> (s: String)
        ensures
            s@ == psbt_base64_of(self@),
    {
        proof {
            use_type_invariant(self);
        }
        psbt_to_base64(self)
    }
}

/// An address as written, not yet checked against a network. It always
/// parses as a bitcoin address.
#[derive(Debug, PartialEq, Eq, Hash)]
pub struct UncheckedAddress {
    text: String,
}

impl View for UncheckedAddress {
    type V = Seq<char>;

    closed spec fn view(&self) -> Seq<char> {
        self.text@
    }
}

/// An address checked to belong to `network`.
#[derive(Debug, PartialEq, Eq, Hash)]
pub struct Address {
    text: String,
    network: Network,
}

impl View for Address {
    type V = Seq<char>;

    closed spec fn view(&self) -> Seq<char> {
        self.text@
    }
}

impl Clone for UncheckedAddress {
    fn clone(&self) -> (r: Self)
        ensures
            r@ == self@,
    {
        proof {
            use_type_invariant(self);
        }
        UncheckedAddress { text: self.text.clone() }
    }
}

impl Clone for Address {
    fn clone(&self) -> (r: Self)
        ensures
            r@ == self@,
            r.network() == self.network(),
    {
        proof {
            use_type_invariant(self);
        }
        Address { text: self.text.clone(), network: self.network }
    }
}

impl UncheckedAddress {
    #[verifier::type_invariant]
    spec fn parses(&self) -> bool {
        address_parses(self.text@)
    }

    /// Parses `s` as a bitcoin address of any network.
    pub fn parse(s: &str) -> (r: Option<UncheckedAddress>)
        ensures
            r is Some <==> address_parses(s@),
            r matches Some(a) ==> a@ == s@,
    {
        if parse_address(s) {
            Some(UncheckedAddress { text: String::from_str(s) })
        } else {
            None
        }
    }

    /// The address as written.
    pub fn as_str(&self) -> (s: &str)
        ensures
            s@ == self@,
    {
        self.text.as_str()
    }

    /// The address as bitcoin displays it (its canonical form).
    pub fn to_display_string(&self) -> (s: String)
        ensures
            s@ == address_display(self@),
    {
        proof {
            use_type_invariant(self);
        }
        display_address(self.text.as_str())
    }

    /// Checks that the address belongs to `network`.
    pub fn require_network(&self, network: Network) -> (r: Option<Address>)
        ensures
            r is Some <==> address_valid_for_network(self@, network),
            r matches Some(a) ==> a@ == self@ && a.network() == network,
    {
        proof {
            use_type_invariant(self);
        }
        if require_network(self.text.as_str(), network) {
            Some(Address { text: self.text.clone(), network })
        } else {
            None
        }
    }
}

impl Address {
    #[verifier::type_invariant]
    spec fn valid(&self) -> bool {
        address_parses(self.text@) && address_valid_for_network(self.text@, self.network)
    }

    /// The network the address was checked against.
    pub closed spec fn network(&self) -> Network {
        self.network
    }

    /// The script that locks coins to this address.
    pub fn script_pubkey(&self) -> (s: Vec<u8>)
        ensures
            s@ == address_script_pubkey(self@),
    {
        proof {
            use_type_invariant(self);
        }
        script_pubkey_of(self.text.as_str())
    }

    /// The address as written.
    pub fn as_str(&self) -> (s: &str)
        ensures
            s@ == self@,
    {
        self.text.as_str()
    }
}

/// A UTXO: the outpoint that names it and the output it holds.
#[derive(Clone, Debug, PartialEq, Eq, Hash)]
pub struct Utxo {
    pub outpoint: OutPoint,
    pub txout: TxOut,
}

pub struct UtxoView {
    pub outpoint: OutPoint,
    pub txout: TxOutView,
}

impl View for Utxo {
    type V = UtxoView;

    open spec fn view(&self) -> UtxoView {
        UtxoView { outpoint: self.outpoint, txout: self.txout@ }
    }
}

/// A request to build a swap PSBT. Party A's UTXO is always present; without
/// party B's UTXO the PSBT only pays A's UTXO to B's address.
#[derive(Clone, Debug, PartialEq, Eq)]
pub struct SwapRequest {
    pub utxo_a: Utxo,
    pub address_a: UncheckedAddress,
    pub utxo_b: Option<Utxo>,
    pub address_b: UncheckedAddress,
    pub network: Network,
}

pub struct SwapRequestView {
    pub utxo_a: UtxoView,
    pub address_a: Seq<char>,
    pub utxo_b: Option<UtxoView>,
    pub address_b: Seq<char>,
    pub network: Network,
}

impl View for SwapRequest {
    type V = SwapRequestView;

    open spec fn view(&self) -> SwapRequestView {
        SwapRequestView {
            utxo_a: self.utxo_a@,
            address_a: self.address_a@,
            utxo_b: match self.utxo_b {
                Some(u) => Some(u@),
                None => None,
            },
            address_b: self.address_b@,
            network: self.network,
        }
    }
}

/// Why a swap PSBT could not be built.
#[derive(Debug, Clone, PartialEq, Eq)]
pub enum SwapError {
    /// An address does not belong to the expected network.
    NetworkMismatch { expected: Network, address: String },
    /// The unsigned transaction could not be turned into a PSBT.
    PsbtCreation(String),
}

/// The message that describes an error.
pub open spec fn swap_error_message(e: SwapError) -> Seq<char> {
    match e {
        SwapError::NetworkMismatch { expected, address } => "address "@ + address@
            + " does not match network "@ + expected.display_name(),
        SwapError::PsbtCreation(msg) => "failed to create PSBT: "@ + msg@,
    }
}

impl SwapError {
    /// The message that describes the error.
    pub fn message(&self) -> (s: String)
        ensures
            s@ == swap_error_message(*self),
    {
        match self {
            SwapError::NetworkMismatch { expected, address } => {
                let mut s = String::from_str("address ");
                s.append(address.as_str());
                s.append(" does not match network ");
                s.append(expected.as_display_str());
                s
            },
            SwapError::PsbtCreation(msg) => {
                let mut s = String::from_str("failed to create PSBT: ");
                s.append(msg.as_str());
                s
            },
        }
    }
}

/// The input that spends `outpoint`, unsigned, with the final sequence number.
pub open spec fn spend(outpoint: OutPoint) -> TxInView {
    TxInView {
        previous_output: outpoint,
        script_sig: Seq::empty(),
        sequence: 0xFFFF_FFFF,
        witness: Seq::empty(),
    }
}

/// The swap transaction: A's UTXO (then B's, if any) as inputs; A's amount
/// paid to `script_b` (then B's amount paid to `script_a`, if any) as
/// outputs; version 2, lock time 0.
pub open spec fn swap_transaction(req: SwapRequestView, script_a: Seq<u8>, script_b: Seq<u8>) -> TransactionView {
    let a_out = TxOutView { value: req.utxo_a.txout.value, script_pubkey: script_b };
    TransactionView {
        version: 2,
        lock_time: 0,
        input: match req.utxo_b {
            Some(b) => seq![spend(req.utxo_a.outpoint), spend(b.outpoint)],
            None => seq![spend(req.utxo_a.outpoint)],
        },
        output: match req.utxo_b {
            Some(b) => seq![a_out, TxOutView { value: b.txout.value, script_pubkey: script_a }],
            None => seq![a_out],
        },
    }
}

/// The swap PSBT: the swap transaction, with each input's spent output
/// recorded for signing.
pub open spec fn swap_psbt(req: SwapRequestView, script_a: Seq<u8>, script_b: Seq<u8>) -> PsbtView {
    PsbtView {
        unsigned_tx: swap_transaction(req, script_a, script_b),
        version: 0,
        inputs: match req.utxo_b {
            Some(b) => seq![Some(req.utxo_a.txout), Some(b.txout)],
            None => seq![Some(req.utxo_a.txout)],
        },
    }
}

/// Checks `address` against `network`; on a mismatch the error names the
/// address as bitcoin displays it.
fn validate_address(address: &UncheckedAddress, network: Network) -> (r: Result<Address, SwapError>)
    ensures
        r is Ok <==> address_valid_for_network(address@, network),
        r matches Ok(a) ==> a@ == address@,
        r matches Err(e) ==> e is NetworkMismatch && e->expected == network && e->address@
            == address_display(address@),
{
    let addr_string = address.to_display_string();
    match address.require_network(network) {
        Some(a) => Ok(a),
        None => Err(SwapError::NetworkMismatch { expected: network, address: addr_string }),
    }
}

fn spending(outpoint: OutPoint) -> (t: TxIn)
    ensures
        t@ == spend(outpoint),
{
    let t = TxIn {
        previous_output: outpoint,
        script_sig: Vec::new(),
        sequence: 0xFFFF_FFFF,
        witness: Vec::new(),
    };
    assert(t@.witness =~= Seq::<Seq<u8>>::empty());
    t
}

/// Builds the PSBT that swaps `utxo_a` and `utxo_b` between the two parties.
///
/// Both addresses must belong to `request.network` (A's is checked first);
/// otherwise the error names the first that does not. The PSBT is unsigned:
/// party A signs first, then party B.
pub fn build_swap_psbt(request: &SwapRequest) -> (r: Result<Psbt, SwapError>)
    ensures
        r is Ok <==> address_valid_for_network(request@.address_a, request.network)
            && address_valid_for_network(request@.address_b, request.network),
        r matches Ok(p) ==> p@ == swap_psbt(
            request@,
            address_script_pubkey(request@.address_a),
            address_script_pubkey(request@.address_b),
        ),
        r matches Ok(p) ==> p@.unsigned_tx.version == 2 && p@.unsigned_tx.lock_time == 0
            && forall|k: int|
            0 <= k < p@.unsigned_tx.input.len() ==> (#[trigger] p@.unsigned_tx.input[k]).sequence
                == 0xFFFF_FFFFu32,
        r matches Err(e) ==> e is NetworkMismatch && e->expected == request.network && e->address@
            == address_display(
            if !address_valid_for_network(request@.address_a, request.network) {
                request@.address_a
            } else {
                request@.address_b
            },
        ),
{
    let address_a = match validate_address(&request.address_a, request.network) {
        Ok(a) => a,
        Err(e) => return Err(e),
    };
    let address_b = match validate_address(&request.address_b, request.network) {
        Ok(a) => a,
        Err(e) => return Err(e),
    };

    let mut inputs: Vec<TxIn> = Vec::new();
    inputs.push(spending(request.utxo_a.outpoint));
    if let Some(utxo_b) = &request.utxo_b {
        inputs.push(spending(utxo_b.outpoint));
    }

    let mut outputs: Vec<TxOut> = Vec::new();
    outputs.push(TxOut { value: request.utxo_a.txout.value, script_pubkey: address_b.script_pubkey() });
    if let Some(utxo_b) = &request.utxo_b {
        outputs.push(TxOut { value: utxo_b.txout.value, script_pubkey: address_a.script_pubkey() });
    }

    let tx = Transaction { version: 2, lock_time: 0, input: inputs, output: outputs };
    let ghost script_a = address_script_pubkey(request@.address_a);
    let ghost script_b = address_script_pubkey(request@.address_b);
    assert(tx@.input =~= swap_transaction(request@, script_a, script_b).input);
    assert(tx@.output =~= swap_transaction(request@, script_a, script_b).output);
    assert(tx@ == swap_transaction(request@, script_a, script_b));
    assert(unsigned_tx_error(tx@.input) is None) by {
        reveal_with_fuel(unsigned_tx_error, 3);
    }

    let mut psbt = match Psbt::from_unsigned_tx(tx) {
        Ok(p) => p,
        Err(msg) => return Err(SwapError::PsbtCreation(msg)),
    };
    psbt = psbt.with_witness_utxo(0, request.utxo_a.txout.duplicate());
    if let Some(utxo_b) = &request.utxo_b {
        psbt = psbt.with_witness_utxo(1, utxo_b.txout.duplicate());
    }
    assert(psbt@.inputs =~= swap_psbt(request@, script_a, script_b).inputs);
    proof {
        lemma_swap_transaction_is_final(request@, script_a, script_b);
    }
    Ok(psbt)
}

/// The total amount paid by a list of outputs.
pub open spec fn total_value(outputs: Seq<TxOutView>) -> int
    decreases outputs.len(),
{
    if outputs.len() == 0 {
        0
    } else {
        total_value(outputs.drop_last()) + outputs.last().value
    }
}

/// The amount held by the UTXOs a request offers.
pub open spec fn offered_value(req: SwapRequestView) -> int {
    req.utxo_a.txout.value + match req.utxo_b {
        Some(b) => b.txout.value as int,
        None => 0int,
    }
}

/// A swap pays out exactly what the offered UTXOs hold: nothing is left as a
/// fee and nothing is created.
pub proof fn lemma_swap_conserves_value(req: SwapRequestView, script_a: Seq<u8>, script_b: Seq<u8>)
    ensures
        total_value(swap_transaction(req, script_a, script_b).output) == offered_value(req),
{
    let outs = swap_transaction(req, script_a, script_b).output;
    reveal_with_fuel(total_value, 3);
    match req.utxo_b {
        Some(b) => {
            assert(outs.drop_last().drop_last() =~= Seq::<TxOutView>::empty());
        },
        None => {
            assert(outs.drop_last() =~= Seq::<TxOutView>::empty());
        },
    }
}

/// Each party receives exactly the other's amount: A's amount goes to B's
/// script, and B's amount (when B offers a UTXO) to A's script.
pub proof fn lemma_swap_crosses_payments(req: SwapRequestView, script_a: Seq<u8>, script_b: Seq<u8>)
    ensures
        swap_transaction(req, script_a, script_b).output[0] == (TxOutView {
            value: req.utxo_a.txout.value,
            script_pubkey: script_b,
        }),
        req.utxo_b matches Some(b) ==> swap_transaction(req, script_a, script_b).output[1] == (
        TxOutView { value: b.txout.value, script_pubkey: script_a }),
{
}

/// The swap spends exactly the offered UTXOs, A's first, and every PSBT input
/// carries the output it spends, so that each party can sign; there is one
/// output per input.
pub proof fn lemma_swap_spends_offered_utxos(req: SwapRequestView, script_a: Seq<u8>, script_b: Seq<u8>)
    ensures
        ({
            let p = swap_psbt(req, script_a, script_b);
            let utxos = match req.utxo_b {
                Some(b) => seq![req.utxo_a, b],
                None => seq![req.utxo_a],
            };
            &&& p.unsigned_tx.input.len() == utxos.len()
            &&& p.unsigned_tx.output.len() == utxos.len()
            &&& p.inputs.len() == utxos.len()
            &&& forall|i: int|
                0 <= i < utxos.len() ==> {
                    &&& (#[trigger] p.unsigned_tx.input[i]).previous_output == utxos[i].outpoint
                    &&& p.inputs[i] == Some(utxos[i].txout)
                }
        }),
{
}

/// A swap PSBT is well formed and unsigned: one input map per input, and no
/// input carries a script_sig or a witness.
pub proof fn lemma_swap_psbt_unsigned(req: SwapRequestView, script_a: Seq<u8>, script_b: Seq<u8>)
    ensures
        psbt_well_formed(swap_psbt(req, script_a, script_b)),
        forall|i: int|
            0 <= i < swap_psbt(req, script_a, script_b).unsigned_tx.input.len() ==> {
                &&& (#[trigger] swap_psbt(req, script_a, script_b).unsigned_tx.input[i]).script_sig.len() == 0
                &&& swap_psbt(req, script_a, script_b).unsigned_tx.input[i].witness.len() == 0
            },
{
    reveal_with_fuel(unsigned_tx_error, 3);
    let ins = swap_transaction(req, script_a, script_b).input;
    if req.utxo_b is Some {
        assert(ins.drop_first().drop_first() =~= Seq::<TxInView>::empty());
    } else {
        assert(ins.drop_first() =~= Seq::<TxInView>::empty());
    }
}

/// A swap transaction can be mined at once, with or without B's UTXO: it is
/// version 2, its lock time is 0, and every input carries the final sequence
/// number 0xFFFFFFFF.
pub proof fn lemma_swap_transaction_is_final(req: SwapRequestView, script_a: Seq<u8>, script_b: Seq<u8>)
    ensures
        swap_transaction(req, script_a, script_b).version == 2,
        swap_transaction(req, script_a, script_b).lock_time == 0,
        forall|i: int|
            0 <= i < swap_transaction(req, script_a, script_b).input.len() ==> (
            #[trigger] swap_transaction(req, script_a, script_b).input[i]).sequence == 0xFFFF_FFFFu32,
{
}

} // verus!
