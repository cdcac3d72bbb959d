# entangle

Builds Bitcoin swap transactions: given two UTXOs owned by different
parties, it produces an unsigned PSBT that pays A's coins to B's address and
B's coins to A's. It also keeps a board of listed swap offers.

Layout:

- `src/` — the verified library.
  - `swap.rs`: the transaction model, address checks, `build_swap_psbt`, and
    the laws of a swap (value conserved, payments crossed, inputs unsigned).
  - `btc.rs`: the calls into the `bitcoin` crate and what is assumed of them.
  - `api.rs`: the answer to `POST /swap`.
  - `listing.rs`: listings, the store that numbers and searches them, and the
    rules for the listing form and the explorer lookups.
  - `text.rs`: trimming, splitting, substring search, decimal numbers.
  - `ui.rs`: the choices the web pages make.
- `app/` — the program: command line, HTTP servers, the JSON file of
  listings, explorer requests and the Leptos pages.
- `tests/` — tests of the library.
