//! The listing board: swap offers posted by users, the store that numbers
//! them and searches them, and the rules that turn a submitted form and the
//! looked-up UTXOs into a listing.
use vstd::prelude::*;

use crate::text::{
    all_ascii, ascii_lower, ascii_upper, lemma_ascii_case_round_trip,
    all_digits, decimal, lemma_decimal_digits, lemma_last_index_of_append,
    lemma_parse_decimal_round_trip, contains, contains_sub, last_index_of, lowercase, parse_usize, parse_usize_spec, rsplit_once,
    split, split_spec, str_eq, to_lowercase, trim, trimmed, views, lemma_views_push,
};

verus! {

/// A swap offer.
#[derive(Clone, Debug, PartialEq, Eq)]
pub struct Listing {
    pub id: u64,
    pub utxo_a: String,
    pub amount_a_sats: u64,
    pub address_a: String,
    pub utxo_b: Option<String>,
    pub amount_b_sats: Option<u64>,
    pub address_b: String,
    pub network: String,
    pub tags: Vec<String>,
    pub created_at: u64,
    pub script_pubkey_a: Option<String>,
    pub script_pubkey_b: Option<String>,
}

pub struct ListingView {
    pub id: u64,
    pub utxo_a: Seq<char>,
    pub amount_a_sats: u64,
    pub address_a: Seq<char>,
    pub utxo_b: Option<Seq<char>>,
    pub amount_b_sats: Option<u64>,
    pub address_b: Seq<char>,
    pub network: Seq<char>,
    pub tags: Seq<Seq<char>>,
    pub created_at: u64,
    pub script_pubkey_a: Option<Seq<char>>,
    pub script_pubkey_b: Option<Seq<char>>,
}

/// The view of an optional string.
pub open spec fn opt_view(s: Option<String>) -> Option<Seq<char>> {
    match s {
        Some(x) => Some(x@),
        None => None,
    }
}

impl View for Listing {
    type V = ListingView;

    open spec fn view(&self) -> ListingView {
        ListingView {
            id: self.id,
            utxo_a: self.utxo_a@,
            amount_a_sats: self.amount_a_sats,
            address_a: self.address_a@,
            utxo_b: opt_view(self.utxo_b),
            amount_b_sats: self.amount_b_sats,
            address_b: self.address_b@,
            network: self.network@,
            tags: views(self.tags@),
            created_at: self.created_at,
            script_pubkey_a: opt_view(self.script_pubkey_a),
            script_pubkey_b: opt_view(self.script_pubkey_b),
        }
    }
}

/// The views of a sequence of listings.
pub open spec fn listing_views(v: Seq<Listing>) -> Seq<ListingView> {
    v.map_values(|l: Listing| l@)
}

proof fn lemma_listing_views_push(v: Seq<Listing>, l: Listing)
    ensures
        listing_views(v.push(l)) == listing_views(v).push(l@),
{
    assert(listing_views(v.push(l)) =~= listing_views(v).push(l@));
}

fn copy_opt(s: &Option<String>) -> (r: Option<String>)
    ensures
        opt_view(r) == opt_view(*s),
{
    match s {
        Some(x) => Some(x.clone()),
        None => None,
    }
}

fn copy_strings(v: &Vec<String>) -> (r: Vec<String>)
    ensures
        views(r@) == views(v@),
{
    let mut r: Vec<String> = Vec::new();
    let mut i: usize = 0;
    while i < v.len()
        invariant
            i <= v@.len(),
            views(r@) == views(v@.subrange(0, i as int)),
        decreases v@.len() - i,
    {
        let x = v[i].clone();
        proof {
            lemma_views_push(r@, x);
            assert(v@.subrange(0, i + 1) =~= v@.subrange(0, i as int).push(v@[i as int]));
            lemma_views_push(v@.subrange(0, i as int), v@[i as int]);
        }
        r.push(x);
        i = i + 1;
    }
    assert(v@.subrange(0, v@.len() as int) =~= v@);
    r
}

impl Listing {
    /// A copy of the listing.
    pub fn duplicate(&self) -> (r: Listing)
        ensures
            r@ == self@,
    {
        Listing {
            id: self.id,
            utxo_a: self.utxo_a.clone(),
            amount_a_sats: self.amount_a_sats,
            address_a: self.address_a.clone(),
            utxo_b: copy_opt(&self.utxo_b),
            amount_b_sats: self.amount_b_sats,
            address_b: self.address_b.clone(),
            network: self.network.clone(),
            tags: copy_strings(&self.tags),
            created_at: self.created_at,
            script_pubkey_a: copy_opt(&self.script_pubkey_a),
            script_pubkey_b: copy_opt(&self.script_pubkey_b),
        }
    }
}

/// Whether a field matches an already lower-cased query: its lower-case form
/// contains the query.
pub open spec fn field_matches(field: Seq<char>, q: Seq<char>) -> bool {
    contains_sub(lowercase(field), q)
}

/// Whether one of the tags matches the lower-cased query.
pub open spec fn some_tag_matches(tags: Seq<Seq<char>>, q: Seq<char>) -> bool {
    exists|i: int| 0 <= i < tags.len() && field_matches(#[trigger] tags[i], q)
}

/// Whether a listing matches the lower-cased query in its first UTXO, either
/// address, its second UTXO, its network or one of its tags.
pub open spec fn listing_matches(l: ListingView, q: Seq<char>) -> bool {
    ||| field_matches(l.utxo_a, q)
    ||| field_matches(l.address_a, q)
    ||| field_matches(l.address_b, q)
    ||| (l.utxo_b matches Some(u) && field_matches(u, q))
    ||| field_matches(l.network, q)
    ||| some_tag_matches(l.tags, q)
}

/// What a search for `query` returns: every listing when the query is empty,
/// otherwise the listings that match its lower-case form, in stored order.
pub open spec fn search_results(listings: Seq<ListingView>, query: Seq<char>) -> Seq<ListingView> {
    if query.len() == 0 {
        listings
    } else {
        listings.filter(|l: ListingView| listing_matches(l, lowercase(query)))
    }
}

/// The largest id among the listings, or 0 when there are none.
pub open spec fn max_id(listings: Seq<ListingView>) -> nat
    decreases listings.len(),
{
    if listings.len() == 0 {
        0
    } else {
        let m = max_id(listings.drop_last());
        if listings.last().id > m {
            listings.last().id as nat
        } else {
            m
        }
    }
}

/// The in-memory store of listings, in the order they were created.
pub struct ListingStore {
    listings: Vec<Listing>,
}

impl View for ListingStore {
    type V = Seq<ListingView>;

    closed spec fn view(&self) -> Seq<ListingView> {
        listing_views(self.listings@)
    }
}

fn field_matches_exec(field: &str, q: &str) -> (b: bool)
    ensures
        b == field_matches(field@, q@),
{
    let lowered = to_lowercase(field);
    contains(lowered.as_str(), q)
}

fn tags_match(tags: &Vec<String>, q: &str) -> (b: bool)
    ensures
        b == some_tag_matches(views(tags@), q@),
{
    let mut i: usize = 0;
    while i < tags.len()
        invariant
            i <= tags@.len(),
            forall|k: int| 0 <= k < i ==> !field_matches(#[trigger] views(tags@)[k], q@),
        decreases tags@.len() - i,
    {
        if field_matches_exec(tags[i].as_str(), q) {
            assert(field_matches(views(tags@)[i as int], q@));
            return true;
        }
        i = i + 1;
    }
    false
}

fn matches_query(l: &Listing, q: &str) -> (b: bool)
    ensures
        b == listing_matches(l@, q@),
{
    if field_matches_exec(l.utxo_a.as_str(), q) {
        return true;
    }
    if field_matches_exec(l.address_a.as_str(), q) {
        return true;
    }
    if field_matches_exec(l.address_b.as_str(), q) {
        return true;
    }
    if let Some(u) = &l.utxo_b {
        if field_matches_exec(u.as_str(), q) {
            return true;
        }
    }
    if field_matches_exec(l.network.as_str(), q) {
        return true;
    }
    tags_match(&l.tags, q)
}

impl ListingStore {
    /// An empty store.
    pub fn new() -> (s: ListingStore)
        ensures
            s@ == Seq::<ListingView>::empty(),
    {
        let s = ListingStore { listings: Vec::new() };
        assert(s@ =~= Seq::<ListingView>::empty());
        s
    }

    /// A store holding `listings`, in that order.
    pub fn from_listings(listings: Vec<Listing>) -> (s: ListingStore)
        ensures
            s@ == listing_views(listings@),
    {
        ListingStore { listings }
    }

    /// The stored listings, in order.
    pub fn listings(&self) -> (v: &Vec<Listing>)
        ensures
            listing_views(v@) == self@,
    {
        &self.listings
    }

    /// The largest stored id, or 0 when the store is empty.
    pub fn max_id(&self) -> (m: u64)
        ensures
            m == max_id(self@),
    {
        let mut m: u64 = 0;
        let mut i: usize = 0;
        while i < self.listings.len()
            invariant
                i <= self.listings@.len(),
                m == max_id(listing_views(self.listings@.subrange(0, i as int))),
            decreases self.listings@.len() - i,
        {
            proof {
                let pre = listing_views(self.listings@.subrange(0, i + 1));
                assert(pre.drop_last() =~= listing_views(self.listings@.subrange(0, i as int)));
                assert(pre.last() == self.listings@[i as int]@);
            }
            if self.listings[i].id > m {
                m = self.listings[i].id;
            }
            i = i + 1;
        }
        assert(self.listings@.subrange(0, self.listings@.len() as int) =~= self.listings@);
        m
    }

    /// The id the next created listing gets, unless the ids are exhausted.
    pub fn next_id(&self) -> (n: Option<u64>)
        ensures
            n is Some <==> max_id(self@) < u64::MAX,
            n matches Some(id) ==> id == max_id(self@) + 1,
    {
        let m: u64 = self.max_id();
        if m < u64::MAX {
            Some(m + 1)
        } else {
            None
        }
    }

    /// Stores `listing` under the next id (one more than the largest stored
    /// id) with creation time `now`, and returns the stored listing.
    pub fn create(&mut self, listing: Listing, now: u64) -> (created: Listing)
        requires
            max_id(old(self)@) < u64::MAX,
        ensures
            created@ == (ListingView { id: (max_id(old(self)@) + 1) as u64, created_at: now, ..listing@ }),
            final(self)@ == old(self)@.push(created@),
    {
        let id: u64 = self.max_id() + 1;
        let mut listing = listing;
        listing.id = id;
        listing.created_at = now;
        let created = listing.duplicate();
        proof {
            lemma_listing_views_push(self.listings@, listing);
        }
        self.listings.push(listing);
        created
    }

    /// The listings that match `query`, ignoring case, in stored order; all of
    /// them when `query` is empty.
    pub fn search(&self, query: &str) -> (found: Vec<Listing>)
        ensures
            listing_views(found@) == search_results(self@, query@),
    {
        let mut found: Vec<Listing> = Vec::new();
        if query.unicode_len() == 0 {
            let mut i: usize = 0;
            while i < self.listings.len()
                invariant
                    i <= self.listings@.len(),
                    listing_views(found@) == listing_views(self.listings@.subrange(0, i as int)),
                decreases self.listings@.len() - i,
            {
                let l = self.listings[i].duplicate();
                proof {
                    lemma_listing_views_push(found@, l);
                    assert(self.listings@.subrange(0, i + 1) =~= self.listings@.subrange(
                        0,
                        i as int,
                    ).push(self.listings@[i as int]));
                    lemma_listing_views_push(self.listings@.subrange(0, i as int), self.listings@[i as int]);
                }
                found.push(l);
                i = i + 1;
            }
            assert(self.listings@.subrange(0, self.listings@.len() as int) =~= self.listings@);
            return found;
        }
        let q = to_lowercase(query);
        let ghost pred = |l: ListingView| listing_matches(l, lowercase(query@));
        let mut i: usize = 0;
        while i < self.listings.len()
            invariant
                i <= self.listings@.len(),
                q@ == lowercase(query@),
                pred == (|l: ListingView| listing_matches(l, lowercase(query@))),
                listing_views(found@) == listing_views(self.listings@.subrange(0, i as int)).filter(pred),
            decreases self.listings@.len() - i,
        {
            let ghost pre = listing_views(self.listings@.subrange(0, i + 1));
            proof {
                assert(pre.drop_last() =~= listing_views(self.listings@.subrange(0, i as int)));
                assert(pre.last() == self.listings@[i as int]@);
                reveal(Seq::filter);
            }
            if matches_query(&self.listings[i], q.as_str()) {
                let l = self.listings[i].duplicate();
                proof {
                    lemma_listing_views_push(found@, l);
                }
                found.push(l);
            }
            i = i + 1;
        }
        assert(self.listings@.subrange(0, self.listings@.len() as int) =~= self.listings@);
        found
    }
}

/// Whether a field of the form was left blank (nothing but white space).
pub open spec fn is_blank(s: Seq<char>) -> bool {
    trimmed(s).len() == 0
}

/// The second UTXO of the form: none when the field is blank, otherwise the
/// field as typed.
pub fn optional_utxo(utxo_b: String) -> (r: Option<String>)
    ensures
        is_blank(utxo_b@) ==> r is None,
        !is_blank(utxo_b@) ==> r == Some(utxo_b),
        r is None <==> forall|i: int|
            0 <= i < utxo_b@.len() ==> crate::text::is_white_space(#[trigger] utxo_b@[i]),
{
    proof {
        lemma_blank_means_white_space(utxo_b@);
    }
    let t = trim(utxo_b.as_str());
    if t.unicode_len() == 0 {
        None
    } else {
        Some(utxo_b)
    }
}

/// The tags written in a comma-separated field: each piece trimmed, blank
/// pieces dropped, in order.
pub open spec fn tag_list(field: Seq<char>) -> Seq<Seq<char>> {
    split_spec(field, ',').map_values(|p: Seq<char>| trimmed(p)).filter(|t: Seq<char>| t.len() > 0)
}

/// Parses the comma-separated tags field.
pub fn parse_tags(field: &str) -> (tags: Vec<String>)
    ensures
        views(tags@) == tag_list(field@),
{
    let pieces = split(field, ',');
    let ghost trimmed_pieces = split_spec(field@, ',').map_values(|p: Seq<char>| trimmed(p));
    let ghost keep = |t: Seq<char>| t.len() > 0;
    let mut tags: Vec<String> = Vec::new();
    let mut i: usize = 0;
    while i < pieces.len()
        invariant
            i <= pieces@.len(),
            views(pieces@) == split_spec(field@, ','),
            trimmed_pieces == split_spec(field@, ',').map_values(|p: Seq<char>| trimmed(p)),
            keep == (|t: Seq<char>| t.len() > 0),
            views(tags@) == trimmed_pieces.subrange(0, i as int).filter(keep),
        decreases pieces@.len() - i,
    {
        let t = trim(pieces[i].as_str());
        proof {
            let pre = trimmed_pieces.subrange(0, i + 1);
            assert(pre.drop_last() =~= trimmed_pieces.subrange(0, i as int));
            assert(views(pieces@)[i as int] == pieces@[i as int]@);
            assert(pre.last() == t@);
            reveal(Seq::filter);
        }
        if t.unicode_len() > 0 {
            proof {
                lemma_views_push(tags@, t);
            }
            tags.push(t);
        }
        i = i + 1;
    }
    assert(trimmed_pieces.subrange(0, pieces@.len() as int) =~= trimmed_pieces);
    tags
}

/// A UTXO looked up on the chain: its amount and locking script (hex).
pub struct FetchedUtxo {
    pub amount_sats: u64,
    pub script_pubkey: String,
}

/// The listing a submitted form describes, before the store numbers and
/// dates it: id and creation time are 0, the tags are parsed from the field,
/// and the amounts and scripts are those looked up for the UTXOs.
pub fn new_listing(
    utxo_a: String,
    fetched_a: FetchedUtxo,
    address_a: String,
    utxo_b: Option<(String, FetchedUtxo)>,
    address_b: String,
    network: String,
    tags: &str,
) -> (l: Listing)
    ensures
        l@ == (ListingView {
            id: 0,
            utxo_a: utxo_a@,
            amount_a_sats: fetched_a.amount_sats,
            address_a: address_a@,
            utxo_b: match utxo_b {
                Some(b) => Some(b.0@),
                None => None,
            },
            amount_b_sats: match utxo_b {
                Some(b) => Some(b.1.amount_sats),
                None => None,
            },
            address_b: address_b@,
            network: network@,
            tags: tag_list(tags@),
            created_at: 0,
            script_pubkey_a: Some(fetched_a.script_pubkey@),
            script_pubkey_b: match utxo_b {
                Some(b) => Some(b.1.script_pubkey@),
                None => None,
            },
        }),
{
    let tags = parse_tags(tags);
    let (utxo_b, amount_b_sats, script_pubkey_b) = match utxo_b {
        Some((u, f)) => (Some(u), Some(f.amount_sats), Some(f.script_pubkey)),
        None => (None, None, None),
    };
    Listing {
        id: 0,
        utxo_a,
        amount_a_sats: fetched_a.amount_sats,
        address_a,
        utxo_b,
        amount_b_sats,
        address_b,
        network,
        tags,
        created_at: 0,
        script_pubkey_a: Some(fetched_a.script_pubkey),
        script_pubkey_b,
    }
}

/// Why a UTXO could not be looked up.
#[derive(Debug, Clone, PartialEq, Eq)]
pub enum FetchError {
    /// The outpoint has no `:` between txid and output index.
    InvalidOutpoint,
    /// The output index is not a number.
    InvalidVout,
    /// The transaction has no output with that index.
    VoutOutOfRange(usize),
    /// The explorer could not be reached.
    RequestFailed(String),
    /// The explorer's answer could not be read.
    ResponseParseFailed(String),
}

/// The message that describes a lookup error.
pub open spec fn fetch_error_message(e: FetchError) -> Seq<char> {
    match e {
        FetchError::InvalidOutpoint => "invalid outpoint format, expected txid:vout"@,
        FetchError::InvalidVout => "invalid vout index"@,
        FetchError::VoutOutOfRange(i) => "vout index "@ + crate::text::decimal(i as nat)
            + " out of range"@,
        FetchError::RequestFailed(m) => "esplora request failed: "@ + m@,
        FetchError::ResponseParseFailed(m) => "esplora response parse failed: "@ + m@,
    }
}

impl FetchError {
    /// The message that describes the error.
    pub fn message(&self) -> (m: String)
        ensures
            m@ == fetch_error_message(*self),
    {
        match self {
            FetchError::InvalidOutpoint => String::from_str(
                "invalid outpoint format, expected txid:vout",
            ),
            FetchError::InvalidVout => String::from_str("invalid vout index"),
            FetchError::VoutOutOfRange(i) => {
                let mut m = String::from_str("vout index ");
                crate::text::push_decimal(&mut m, *i as u64);
                m.append(" out of range");
                m
            },
            FetchError::RequestFailed(e) => {
                let mut m = String::from_str("esplora request failed: ");
                m.append(e.as_str());
                m
            },
            FetchError::ResponseParseFailed(e) => {
                let mut m = String::from_str("esplora response parse failed: ");
                m.append(e.as_str());
                m
            },
        }
    }
}

/// Splits an outpoint `txid:vout` at its last `:` and reads the index.
pub fn parse_outpoint(outpoint: &str) -> (r: Result<(String, usize), FetchError>)
    ensures
        last_index_of(outpoint@, ':') is None ==> r == Err::<(String, usize), FetchError>(
            FetchError::InvalidOutpoint,
        ),
        last_index_of(outpoint@, ':') matches Some(k) ==> {
            let vout = parse_usize_spec(outpoint@.subrange(k + 1, outpoint@.len() as int));
            &&& vout is None ==> r == Err::<(String, usize), FetchError>(FetchError::InvalidVout)
            &&& vout matches Some(v) ==> (r matches Ok(parts) && parts.0@ == outpoint@.subrange(0, k)
                && parts.1 == v)
        },
{
    match rsplit_once(outpoint, ':') {
        None => Err(FetchError::InvalidOutpoint),
        Some((txid, vout_str)) => match parse_usize(vout_str.as_str()) {
            None => Err(FetchError::InvalidVout),
            Some(v) => Ok((txid, v)),
        },
    }
}

/// The explorer's base URL: the configured one when there is one, otherwise
/// mempool.space's for mainnet, signet, or (for anything else) testnet4.
pub open spec fn esplora_base_url_spec(configured: Option<Seq<char>>, network: Seq<char>) -> Seq<char> {
    match configured {
        Some(url) => url,
        None => if network == "mainnet"@ {
            "https://mempool.space/api"@
        } else if network == "signet"@ {
            "https://mempool.space/signet/api"@
        } else {
            "https://mempool.space/testnet4/api"@
        },
    }
}

/// The explorer's base URL for `network`, unless one is configured.
pub fn esplora_base_url(configured: Option<String>, network: &str) -> (url: String)
    ensures
        url@ == esplora_base_url_spec(opt_view(configured), network@),
        configured matches Some(u) ==> url@ == u@,
{
    if let Some(url) = configured {
        return url;
    }
    proof {
        reveal_strlit("mainnet");
        reveal_strlit("testnet");
        reveal_strlit("testnet4");
        reveal_strlit("signet");
    }
    if str_eq(network, "mainnet") {
        String::from_str("https://mempool.space/api")
    } else if str_eq(network, "testnet") || str_eq(network, "testnet4") {
        assert("signet"@.len() == 6);
        assert("testnet"@.len() == 7);
        assert("testnet4"@.len() == 8);
        assert(network@ != "signet"@);
        String::from_str("https://mempool.space/testnet4/api")
    } else if str_eq(network, "signet") {
        String::from_str("https://mempool.space/signet/api")
    } else {
        String::from_str("https://mempool.space/testnet4/api")
    }
}

/// Where the explorer serves transaction `txid`.
pub fn esplora_tx_url(base: &str, txid: &str) -> (url: String)
    ensures
        url@ == base@ + "/tx/"@ + txid@,
{
    let mut url = String::from_str(base);
    url.append("/tx/");
    url.append(txid);
    url
}

/// What to ask the explorer for an outpoint: the transaction's URL and the
/// index of the output to take from it.
pub fn utxo_request(configured: Option<String>, network: &str, outpoint: &str) -> (r: Result<(String, usize), FetchError>)
    ensures
        last_index_of(outpoint@, ':') is None ==> r == Err::<(String, usize), FetchError>(
            FetchError::InvalidOutpoint,
        ),
        last_index_of(outpoint@, ':') matches Some(k) ==> {
            let vout = parse_usize_spec(outpoint@.subrange(k + 1, outpoint@.len() as int));
            &&& vout is None ==> r == Err::<(String, usize), FetchError>(FetchError::InvalidVout)
            &&& vout matches Some(v) ==> (r matches Ok(req) && req.0@ == esplora_base_url_spec(
                opt_view(configured),
                network@,
            ) + "/tx/"@ + outpoint@.subrange(0, k) && req.1 == v)
        },
{
    match parse_outpoint(outpoint) {
        Err(e) => Err(e),
        Ok((txid, vout)) => {
            let base = esplora_base_url(configured, network);
            Ok((esplora_tx_url(base.as_str(), txid.as_str()), vout))
        },
    }
}

/// An output of a transaction as the explorer describes it.
pub struct EsploraVout {
    pub scriptpubkey: String,
    pub value: u64,
}

/// Takes output `index` of the explorer's transaction: its amount and script.
pub fn select_output(vout: &Vec<EsploraVout>, index: usize) -> (r: Result<FetchedUtxo, FetchError>)
    ensures
        index >= vout@.len() ==> r == Err::<FetchedUtxo, FetchError>(FetchError::VoutOutOfRange(index)),
        index < vout@.len() ==> (r matches Ok(f) && f.amount_sats == vout@[index as int].value
            && f.script_pubkey@ == vout@[index as int].scriptpubkey@),
{
    if index < vout.len() {
        let out = &vout[index];
        Ok(FetchedUtxo { amount_sats: out.value, script_pubkey: out.scriptpubkey.clone() })
    } else {
        Err(FetchError::VoutOutOfRange(index))
    }
}

/// Whether no two listings share an id.
pub open spec fn ids_distinct(listings: Seq<ListingView>) -> bool {
    forall|i: int, j: int|
        0 <= i < listings.len() && 0 <= j < listings.len() && i != j ==> #[trigger] listings[i].id
            != #[trigger] listings[j].id
}

/// The listing `create` stores for `listing` at time `now`.
pub open spec fn created_listing(listings: Seq<ListingView>, listing: ListingView, now: u64) -> ListingView {
    ListingView { id: (max_id(listings) + 1) as u64, created_at: now, ..listing }
}

/// No stored id exceeds `max_id`.
pub proof fn lemma_max_id_bounds(listings: Seq<ListingView>)
    ensures
        forall|i: int| 0 <= i < listings.len() ==> (#[trigger] listings[i]).id <= max_id(listings),
    decreases listings.len(),
{
    if listings.len() > 0 {
        lemma_max_id_bounds(listings.drop_last());
        assert forall|i: int| 0 <= i < listings.len() implies (#[trigger] listings[i]).id <= max_id(
            listings,
        ) by {
            if i < listings.len() - 1 {
                assert(listings[i] == listings.drop_last()[i]);
            }
        }
    }
}

/// Ids auto-increment: a created listing's id is larger than every stored
/// id, so the store never holds two listings with the same id.
pub proof fn lemma_create_keeps_ids_distinct(listings: Seq<ListingView>, listing: ListingView, now: u64)
    requires
        ids_distinct(listings),
        max_id(listings) < u64::MAX,
    ensures
        forall|i: int|
            0 <= i < listings.len() ==> (#[trigger] listings[i]).id < created_listing(
                listings,
                listing,
                now,
            ).id,
        ids_distinct(listings.push(created_listing(listings, listing, now))),
{
    lemma_max_id_bounds(listings);
    let after = listings.push(created_listing(listings, listing, now));
    assert forall|i: int, j: int|
        0 <= i < after.len() && 0 <= j < after.len() && i != j implies #[trigger] after[i].id
        != #[trigger] after[j].id by {
        if i < listings.len() && j < listings.len() {
            assert(after[i] == listings[i] && after[j] == listings[j]);
        } else if i < listings.len() {
            assert(after[i] == listings[i]);
        } else {
            assert(after[j] == listings[j]);
        }
    }
}

/// A search for nothing returns every listing, in order.
pub proof fn lemma_empty_search_returns_all(listings: Seq<ListingView>)
    ensures
        search_results(listings, Seq::empty()) == listings,
{
}

/// Search ignores case: two non-empty queries with the same lower-case form
/// find the same listings.
pub proof fn lemma_search_ignores_case(listings: Seq<ListingView>, q1: Seq<char>, q2: Seq<char>)
    requires
        q1.len() > 0,
        q2.len() > 0,
        lowercase(q1) == lowercase(q2),
    ensures
        search_results(listings, q1) == search_results(listings, q2),
{
    let p1 = |l: ListingView| listing_matches(l, lowercase(q1));
    let p2 = |l: ListingView| listing_matches(l, lowercase(q2));
    assert(p1 =~= p2);
}

/// A non-empty search returns only listings that match the lower-cased
/// query, and every stored listing that matches it.
pub proof fn lemma_search_finds_exactly_matches(listings: Seq<ListingView>, query: Seq<char>)
    requires
        query.len() > 0,
    ensures
        forall|i: int|
            0 <= i < search_results(listings, query).len() ==> listing_matches(
                #[trigger] search_results(listings, query)[i],
                lowercase(query),
            ),
        forall|i: int|
            0 <= i < listings.len() && listing_matches(#[trigger] listings[i], lowercase(query))
                ==> search_results(listings, query).contains(listings[i]),
{
    let pred = |l: ListingView| listing_matches(l, lowercase(query));
    broadcast use vstd::seq_lib::group_filter_ensures;

    assert(search_results(listings, query) == listings.filter(pred));
    assert forall|i: int|
        0 <= i < listings.len() && listing_matches(#[trigger] listings[i], lowercase(query)) implies search_results(
        listings,
        query,
    ).contains(listings[i]) by {
        assert(pred(listings[i]));
    }
}

/// A created listing is found again by searching for its first UTXO.
pub proof fn lemma_created_listing_found(listings: Seq<ListingView>, listing: ListingView, now: u64)
    requires
        max_id(listings) < u64::MAX,
    ensures
        ({
            let c = created_listing(listings, listing, now);
            search_results(listings.push(c), c.utxo_a).contains(c)
        }),
{
    let c = created_listing(listings, listing, now);
    let after = listings.push(c);
    assert(after[after.len() - 1] == c);
    if c.utxo_a.len() > 0 {
        let q = lowercase(c.utxo_a);
        assert(q.subrange(0, 0 + q.len() as int) =~= q);
        assert(contains_sub(q, q));
        assert(field_matches(c.utxo_a, q));
        let pred = |l: ListingView| listing_matches(l, lowercase(c.utxo_a));
        assert(pred(c));
        after.lemma_filter_contains(pred, after.len() - 1);
    }
}

/// Every element of a filtered sequence comes from the sequence.
proof fn lemma_filter_within<A>(s: Seq<A>, pred: spec_fn(A) -> bool)
    ensures
        forall|i: int| 0 <= i < s.filter(pred).len() ==> s.contains(#[trigger] s.filter(pred)[i]),
    decreases s.len(),
{
    reveal(Seq::filter);
    if s.len() > 0 {
        lemma_filter_within(s.drop_last(), pred);
        let sub = s.drop_last().filter(pred);
        assert forall|i: int| 0 <= i < s.filter(pred).len() implies s.contains(
            #[trigger] s.filter(pred)[i],
        ) by {
            if i < sub.len() {
                assert(s.filter(pred)[i] == sub[i]);
                let k = choose|k: int| 0 <= k < s.drop_last().len() && s.drop_last()[k] == sub[i];
                assert(s[k] == sub[i]);
            } else {
                assert(s.filter(pred)[i] == s.last());
                assert(s[s.len() - 1] == s.last());
            }
        }
    }
}

/// Every tag parsed from a field is non-empty and holds no comma.
pub proof fn lemma_tags_nonempty_without_commas(field: Seq<char>)
    ensures
        forall|i: int|
            0 <= i < tag_list(field).len() ==> (#[trigger] tag_list(field)[i]).len() > 0 && !tag_list(
                field,
            )[i].contains(','),
{
    broadcast use vstd::seq_lib::group_filter_ensures;

    let pieces = split_spec(field, ',');
    let trimmed_pieces = pieces.map_values(|p: Seq<char>| trimmed(p));
    let keep = |t: Seq<char>| t.len() > 0;
    crate::text::lemma_split_pieces_lack_separator(field, ',');
    lemma_filter_within(trimmed_pieces, keep);
    assert forall|i: int| 0 <= i < tag_list(field).len() implies !(#[trigger] tag_list(field)[i]).contains(
        ',',
    ) by {
        let t = tag_list(field)[i];
        assert(trimmed_pieces.filter(keep)[i] == t);
        let k = choose|k: int| 0 <= k < trimmed_pieces.len() && trimmed_pieces[k] == t;
        assert(t == trimmed(pieces[k]));
        crate::text::lemma_trimmed_within(pieces[k]);
        assert(!pieces[k].contains(','));
    }
}

/// An outpoint written as `txid:vout` (the index in decimal) splits back
/// into the same txid and index, whatever the txid holds.
pub proof fn lemma_outpoint_round_trip(txid: Seq<char>, vout: usize)
    ensures
        ({
            let s = txid.push(':') + decimal(vout as nat);
            &&& last_index_of(s, ':') == Some(txid.len() as int)
            &&& s.subrange(0, txid.len() as int) == txid
            &&& parse_usize_spec(s.subrange(txid.len() as int + 1, s.len() as int)) == Some(vout)
        }),
{
    let d = decimal(vout as nat);
    let s = txid.push(':') + d;
    lemma_decimal_digits(vout as nat);
    assert forall|i: int| 0 <= i < d.len() implies d[i] != ':' by {
        assert(all_digits(d));
        assert(crate::text::is_digit(d[i]));
    }
    lemma_last_index_of_append(txid, ':', d);
    assert(s.subrange(0, txid.len() as int) =~= txid);
    assert(s.subrange(txid.len() as int + 1, s.len() as int) =~= d);
    lemma_parse_decimal_round_trip(vout);
}

/// Search ignores the letter case of an ASCII query: the query, its
/// upper-case form and its lower-case form find the same listings.
pub proof fn lemma_search_ignores_ascii_case(listings: Seq<ListingView>, q: Seq<char>)
    requires
        all_ascii(q),
    ensures
        search_results(listings, ascii_upper(q)) == search_results(listings, q),
        search_results(listings, ascii_lower(q)) == search_results(listings, q),
{
    lemma_ascii_case_round_trip(q);
    assert(ascii_upper(q).len() == q.len());
    assert(ascii_lower(q).len() == q.len());
    if q.len() > 0 {
        lemma_search_ignores_case(listings, ascii_upper(q), q);
        lemma_search_ignores_case(listings, ascii_lower(q), q);
    }
}

proof fn lemma_contains_sub_trans(a: Seq<char>, b: Seq<char>, c: Seq<char>)
    requires
        contains_sub(a, b),
        contains_sub(b, c),
    ensures
        contains_sub(a, c),
{
    let i = choose|k: int| 0 <= k && k + b.len() <= a.len() && #[trigger] a.subrange(k, k + b.len()) == b;
    let j = choose|k: int| 0 <= k && k + c.len() <= b.len() && #[trigger] b.subrange(k, k + c.len()) == c;
    assert(a.subrange(i + j, i + j + c.len()) =~= c) by {
        assert forall|t: int| 0 <= t < c.len() implies a.subrange(i + j, i + j + c.len())[t] == c[t] by {
            assert(c[t] == b.subrange(j, j + c.len())[t]);
            assert(b[j + t] == a.subrange(i, i + b.len())[j + t]);
        }
    }
}

/// Whatever matches the lower-cased `q2` matches `q1` when `q1`'s lower-case
/// form occurs in `q2`'s.
proof fn lemma_listing_matches_weaker(l: ListingView, q1: Seq<char>, q2: Seq<char>)
    requires
        contains_sub(q2, q1),
        listing_matches(l, q2),
    ensures
        listing_matches(l, q1),
{
    if field_matches(l.utxo_a, q2) {
        lemma_contains_sub_trans(lowercase(l.utxo_a), q2, q1);
    } else if field_matches(l.address_a, q2) {
        lemma_contains_sub_trans(lowercase(l.address_a), q2, q1);
    } else if field_matches(l.address_b, q2) {
        lemma_contains_sub_trans(lowercase(l.address_b), q2, q1);
    } else if l.utxo_b is Some && field_matches(l.utxo_b->0, q2) {
        lemma_contains_sub_trans(lowercase(l.utxo_b->0), q2, q1);
    } else if field_matches(l.network, q2) {
        lemma_contains_sub_trans(lowercase(l.network), q2, q1);
    } else {
        let i = choose|i: int| 0 <= i < l.tags.len() && field_matches(#[trigger] l.tags[i], q2);
        lemma_contains_sub_trans(lowercase(l.tags[i]), q2, q1);
        assert(field_matches(l.tags[i], q1));
    }
}

proof fn lemma_filter_of_filter<A>(s: Seq<A>, p1: spec_fn(A) -> bool, p2: spec_fn(A) -> bool)
    requires
        forall|x: A| #[trigger] p2(x) ==> p1(x),
    ensures
        s.filter(p2) == s.filter(p1).filter(p2),
    decreases s.len(),
{
    reveal(Seq::filter);
    if s.len() > 0 {
        lemma_filter_of_filter(s.drop_last(), p1, p2);
        let f1 = s.filter(p1);
        if p1(s.last()) {
            assert(f1.drop_last() =~= s.drop_last().filter(p1));
            assert(f1.last() == s.last());
        } else {
            assert(f1 == s.drop_last().filter(p1));
        }
    }
}

proof fn lemma_filter_all<A>(s: Seq<A>, p: spec_fn(A) -> bool)
    requires
        forall|x: A| #[trigger] p(x),
    ensures
        s.filter(p) == s,
    decreases s.len(),
{
    reveal(Seq::filter);
    if s.len() > 0 {
        lemma_filter_all(s.drop_last(), p);
        assert(s.drop_last().push(s.last()) =~= s);
    }
}

/// Refining a query never adds results: when `q1`'s lower-case form occurs in
/// `q2`'s, the listings found for `q2` are those found for `q1` that also
/// match `q2` (in the same order); a search for nothing finds everything.
pub proof fn lemma_search_refines(listings: Seq<ListingView>, q1: Seq<char>, q2: Seq<char>)
    requires
        contains_sub(lowercase(q2), lowercase(q1)),
    ensures
        q2.len() > 0 ==> search_results(listings, q2) == search_results(listings, q1).filter(
            |l: ListingView| listing_matches(l, lowercase(q2)),
        ),
        q2.len() == 0 ==> search_results(listings, q2) == search_results(listings, q1),
        search_results(listings, Seq::empty()) == listings,
{
    let p1 = |l: ListingView| listing_matches(l, lowercase(q1));
    let p2 = |l: ListingView| listing_matches(l, lowercase(q2));
    if q2.len() > 0 {
        if q1.len() > 0 {
            assert forall|l: ListingView| #[trigger] p2(l) implies p1(l) by {
                lemma_listing_matches_weaker(l, lowercase(q1), lowercase(q2));
            }
            lemma_filter_of_filter(listings, p1, p2);
        }
    } else if q1.len() > 0 {
        assert(all_ascii(q2));
        assert(lowercase(q2).len() == 0);
        assert forall|l: ListingView| #[trigger] p1(l) by {
            let e = lowercase(l.utxo_a);
            assert(e.subrange(0, 0 + lowercase(q1).len() as int) =~= lowercase(q1));
        }
        lemma_filter_all(listings, p1);
    }
}

/// A search for a non-empty query finds every listing one of whose tags,
/// lower-cased, holds the lower-cased query, and finds no listing none of
/// whose UTXOs, addresses, network or tags, lower-cased, holds it.
pub proof fn lemma_search_looks_at_every_field(listings: Seq<ListingView>, q: Seq<char>, i: int)
    requires
        q.len() > 0,
        0 <= i < listings.len(),
    ensures
        (exists|t: int|
            0 <= t < listings[i].tags.len() && contains_sub(
                lowercase(#[trigger] listings[i].tags[t]),
                lowercase(q),
            )) ==> search_results(listings, q).contains(listings[i]),
        search_results(listings, q).contains(listings[i]) ==> {
            let l = listings[i];
            let lq = lowercase(q);
            ||| contains_sub(lowercase(l.utxo_a), lq)
            ||| contains_sub(lowercase(l.address_a), lq)
            ||| contains_sub(lowercase(l.address_b), lq)
            ||| (l.utxo_b is Some && contains_sub(lowercase(l.utxo_b->0), lq))
            ||| contains_sub(lowercase(l.network), lq)
            ||| exists|t: int|
                0 <= t < l.tags.len() && contains_sub(lowercase(#[trigger] l.tags[t]), lq)
        },
{
    broadcast use vstd::seq_lib::group_filter_ensures;

    let pred = |l: ListingView| listing_matches(l, lowercase(q));
    let found = search_results(listings, q);
    assert(found == listings.filter(pred));
    if exists|t: int|
        0 <= t < listings[i].tags.len() && contains_sub(
            lowercase(#[trigger] listings[i].tags[t]),
            lowercase(q),
        ) {
        let t = choose|t: int|
            0 <= t < listings[i].tags.len() && contains_sub(
                lowercase(#[trigger] listings[i].tags[t]),
                lowercase(q),
            );
        assert(field_matches(listings[i].tags[t], lowercase(q)));
        assert(pred(listings[i]));
    }
    if found.contains(listings[i]) {
        let k = choose|k: int| 0 <= k < found.len() && found[k] == listings[i];
        assert(pred(found[k]));
        if some_tag_matches(listings[i].tags, lowercase(q)) {
            let t = choose|t: int| 0 <= t < listings[i].tags.len() && field_matches(
                #[trigger] listings[i].tags[t],
                lowercase(q),
            );
            assert(contains_sub(lowercase(listings[i].tags[t]), lowercase(q)));
        }
    }
}

/// Parsing the tags of two fields joined by a comma gives the tags of the
/// first followed by the tags of the second: nothing is dropped or reordered.
pub proof fn lemma_tags_of_joined_fields(a: Seq<char>, b: Seq<char>)
    ensures
        tag_list(a.push(',') + b) == tag_list(a) + tag_list(b),
{
    crate::text::lemma_split_join(a, ',', b);
    let f = |p: Seq<char>| trimmed(p);
    let keep = |t: Seq<char>| t.len() > 0;
    let sa = split_spec(a, ',');
    let sb = split_spec(b, ',');
    assert((sa + sb).map_values(f) =~= sa.map_values(f) + sb.map_values(f));
    Seq::filter_distributes_over_add(sa.map_values(f), sb.map_values(f), keep);
}

/// A field without a comma gives one tag, the field trimmed, unless it is
/// blank, when it gives none.
pub proof fn lemma_tags_of_single_piece(s: Seq<char>)
    requires
        forall|i: int| 0 <= i < s.len() ==> s[i] != ',',
    ensures
        tag_list(s) == if trimmed(s).len() > 0 {
            seq![trimmed(s)]
        } else {
            Seq::<Seq<char>>::empty()
        },
{
    crate::text::lemma_split_single(s, ',');
    let m = split_spec(s, ',').map_values(|p: Seq<char>| trimmed(p));
    assert(m =~= seq![trimmed(s)]);
    reveal_with_fuel(Seq::filter, 2);
    assert(m.drop_last() =~= Seq::<Seq<char>>::empty());
}

/// A configured explorer is used whatever the network.
pub proof fn lemma_configured_explorer_wins(url: Seq<char>, network: Seq<char>)
    ensures
        esplora_base_url_spec(Some(url), network) == url,
{
}

/// A UTXO field counts as blank exactly when every character of it is white
/// space (in particular the empty field); any other character makes it count.
pub proof fn lemma_blank_means_white_space(s: Seq<char>)
    ensures
        is_blank(s) <==> forall|i: int| 0 <= i < s.len() ==> crate::text::is_white_space(#[trigger] s[i]),
{
    crate::text::lemma_trimmed_empty_iff_white(s);
}

} // verus!
