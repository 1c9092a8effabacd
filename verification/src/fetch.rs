//! The price fetcher's decision logic: judging one HTTP response and handing
//! its body to the parser. The transport itself lives outside the library
//! and reports its outcome as plain values.

use vstd::prelude::*;

use crate::parser::{parse_price, parse_price_spec, DecimalPrice, ParseError};

verus! {

/// How a fetch failed on the network side. Timeouts and connection failures
/// are reported by the transport; a response outside the 2xx range is judged
/// here.
#[derive(Clone, Copy, PartialEq, Eq, Structural, Debug)]
pub enum NetworkError {
    Timeout,
    ConnectionError,
    NonSuccessStatus,
}

/// Why no price came out of a fetch: the network failed, or the body was
/// fetched but could not be parsed.
#[derive(Clone, Copy, PartialEq, Eq, Structural, Debug)]
pub enum FetchError {
    Network(NetworkError),
    Malformed(ParseError),
}

/// Whether a status code counts as success: the 2xx range.
pub open spec fn spec_is_success(status: u16) -> bool {
    200 <= status < 300
}

/// What one received response yields: a non-2xx status is surfaced as a
/// network error, an unparseable body as a malformed one, and otherwise the
/// parsed price.
pub open spec fn fetch_spec(status: u16, body: Seq<u8>) -> Result<DecimalPrice, FetchError> {
    if !spec_is_success(status) {
        Err(FetchError::Network(NetworkError::NonSuccessStatus))
    } else {
        match parse_price_spec(body) {
            Some(p) => Ok(p),
            None => Err(FetchError::Malformed(ParseError::MalformedInput)),
        }
    }
}

/// Judges one received response: exactly `fetch_spec`.
pub fn fetch_price(status: u16, body: &[u8]) -> (r: Result<DecimalPrice, FetchError>)
    ensures
        r == fetch_spec(status, body@),
        r matches Ok(p) ==> p.wf(),
{
    if status < 200 || status >= 300 {
        return Err(FetchError::Network(NetworkError::NonSuccessStatus));
    }
    match parse_price(body) {
        Ok(p) => Ok(p),
        Err(e) => Err(FetchError::Malformed(e)),
    }
}

} // verus!
