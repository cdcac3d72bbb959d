//! Bitcoin swap transactions: building the unsigned transaction that trades
//! two parties' outputs, and the listing board where swaps are offered.
pub mod api;
pub mod btc;
pub mod listing;
pub mod swap;
pub mod text;
pub mod ui;

use vstd::prelude::*;

verus! {

/// The address the API server binds to unless told otherwise.
pub const DEFAULT_API_BIND: &'static str = "0.0.0.0:3000";

/// The address the web server binds to unless told otherwise.
pub const DEFAULT_SERVER_BIND: &'static str = "0.0.0.0:8080";

/// The command line: which server to start.
#[derive(Debug, Clone, PartialEq, Eq)]
pub struct Args {
    pub command: Command,
}

/// The servers the program can start.
#[derive(Debug, Clone, PartialEq, Eq)]
pub enum Command {
    /// Start the REST API server.
    Api {
        /// Address to bind the API server to.
        bind: String,
    },
    /// Start the frontend web server.
    Server {
        /// Address to bind the frontend server to.
        bind: String,
        /// Also serve the API routes under /api.
        with_api: bool,
    },
}

} // verus!
