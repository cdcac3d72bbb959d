//! What the REST API computes for `POST /swap`: the response body on success,
//! and the status and message of the error otherwise.
use vstd::prelude::*;

use crate::btc::{address_display, address_script_pubkey, address_valid_for_network, psbt_base64_of};
use crate::swap::{build_swap_psbt, swap_error_message, swap_psbt, SwapError, SwapRequest};

verus! {

/// Response body for the swap endpoint.
#[derive(Debug, Clone, PartialEq, Eq)]
pub struct SwapResponse {
    /// The unsigned PSBT encoded as a base64 string.
    pub psbt_base64: String,
}

/// API error wrapper.
#[derive(Debug, Clone, PartialEq, Eq)]
pub enum ApiError {
    Swap(SwapError),
}

/// The HTTP status of "bad request".
pub const BAD_REQUEST: u16 = 400;

impl ApiError {
    /// The HTTP status the error is answered with: every API error is the
    /// client's (400).
    pub fn status_code(&self) -> (code: u16)
        ensures
            code == BAD_REQUEST,
    {
        match self {
            ApiError::Swap(_) => BAD_REQUEST,
        }
    }

    /// The message sent back under `"error"`.
    pub fn message(&self) -> (m: String)
        ensures
            m@ == match self {
                ApiError::Swap(e) => swap_error_message(*e),
            },
    {
        match self {
            ApiError::Swap(e) => e.message(),
        }
    }
}

/// Handles a swap request: builds the PSBT and encodes it in base64.
pub fn create_swap(request: &SwapRequest) -> (r: Result<SwapResponse, ApiError>)
    ensures
        r is Ok <==> address_valid_for_network(request@.address_a, request.network)
            && address_valid_for_network(request@.address_b, request.network),
        r matches Ok(resp) ==> resp.psbt_base64@ == psbt_base64_of(
            swap_psbt(
                request@,
                address_script_pubkey(request@.address_a),
                address_script_pubkey(request@.address_b),
            ),
        ),
        r matches Err(ApiError::Swap(e)) ==> e is NetworkMismatch && e->expected == request.network
            && e->address@ == address_display(
            if !address_valid_for_network(request@.address_a, request.network) {
                request@.address_a
            } else {
                request@.address_b
            },
        ),
{
    match build_swap_psbt(request) {
        Ok(psbt) => Ok(SwapResponse { psbt_base64: psbt.to_base64() }),
        Err(e) => Err(ApiError::Swap(e)),
    }
}

} // verus!
