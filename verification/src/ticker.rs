//! The ticker's answer, and the price that it quotes.
//!
//! The answer arrives as an envelope: a list of errors that the exchange
//! reports, and a result that holds, for the trading pair, the list `c` whose
//! first entry is the price of the last trade as decimal text.

use vstd::prelude::*;
use crate::decimal::ParseError;
use crate::price::{read_price, Price};

verus! {

/// What the ticker says of the trading pair.
#[derive(Debug, PartialEq, Eq)]
pub struct BtcUsdPair {
    /// The last trade closed: its price first, as decimal text.
    pub c: Vec<String>,
}

/// The result part of the envelope.
#[derive(Debug, PartialEq, Eq)]
pub struct KrakenResult {
    /// The entry of the trading pair, where the result has one.
    pub btc_usd: Option<BtcUsdPair>,
}

/// The envelope that the ticker answers with.
#[derive(Debug, PartialEq, Eq)]
pub struct KrakenResponse {
    /// The errors that the exchange reports; empty on success.
    pub error: Vec<String>,
    /// The result.
    pub result: KrakenResult,
}

/// A failure below the envelope: no answer, or none that could be read.
#[derive(Debug, PartialEq, Eq)]
pub enum TransportError {
    /// The request did not complete.
    Request(String),
    /// The answer came with a status outside 200 to 299.
    Status(u16),
    /// The body was not an envelope.
    Body(String),
}

/// Why no price was fetched.
#[derive(Debug, PartialEq, Eq)]
pub enum FetchError {
    /// The exchange could not be reached, or did not answer with an envelope.
    Transport(TransportError),
    /// The exchange reported errors: these.
    Api(Vec<String>),
    /// The envelope holds no price, or none that can be read.
    Parse(ParseError),
}

/// Whether an HTTP status reports success.
pub open spec fn is_success(status: u16) -> bool {
    200 <= status <= 299
}

/// The text that an envelope gives as the last price, if it gives one.
pub open spec fn price_text(response: KrakenResponse) -> Option<Seq<char>> {
    match response.result.btc_usd {
        Some(pair) => if pair.c@.len() > 0 {
            Some(pair.c@[0]@)
        } else {
            None
        },
        None => None,
    }
}

/// The price that an envelope quotes, in units, or the reason why it quotes
/// none. Reported errors come first; then a missing price; then a price
/// text that cannot be read as a price.
pub open spec fn quoted_price(response: KrakenResponse) -> Result<nat, FetchError> {
    if response.error@.len() > 0 {
        Err(FetchError::Api(response.error))
    } else {
        match price_text(response) {
            None => Err(FetchError::Parse(ParseError::Missing)),
            Some(text) => match read_price(text) {
                Ok(units) => Ok(units),
                Err(e) => Err(FetchError::Parse(e)),
            },
        }
    }
}

/// Accepts an HTTP status that reports success, and turns any other into a
/// transport error that carries it.
pub fn check_status(status: u16) -> (checked: Result<(), FetchError>)
    ensures
        match checked {
            Ok(_) => is_success(status),
            Err(e) => !is_success(status) && e == FetchError::Transport(
                TransportError::Status(status),
            ),
        },
{
    if 200 <= status && status <= 299 {
        Ok(())
    } else {
        Err(FetchError::Transport(TransportError::Status(status)))
    }
}

/// Takes the last price out of an envelope.
pub fn extract_price(response: KrakenResponse) -> (quoted: Result<Price, FetchError>)
    ensures
        match quoted {
            Ok(price) => quoted_price(response) == Ok::<nat, FetchError>(price@),
            Err(e) => quoted_price(response) == Err::<nat, FetchError>(e),
        },
{
    let KrakenResponse { error, result } = response;
    if error.len() > 0 {
        return Err(FetchError::Api(error));
    }
    match result.btc_usd {
        None => Err(FetchError::Parse(ParseError::Missing)),
        Some(pair) => {
            if pair.c.len() == 0 {
                Err(FetchError::Parse(ParseError::Missing))
            } else {
                match Price::parse(pair.c[0].as_str()) {
                    Ok(price) => Ok(price),
                    Err(e) => Err(FetchError::Parse(e)),
                }
            }
        },
    }
}

} // verus!
