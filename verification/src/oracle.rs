//! Reading prices from Pyth price updates.
//!
//! A price update is held here as plain values. Whether it may be used is
//! decided by the Pyth receiver SDK: the update must be fully verified, be
//! for the asked feed, and be no older than allowed. What the SDK accepts
//! becomes a [`Price`]; everything else is `StaleOrMissing`.

use vstd::prelude::*;
use anchor_lang::prelude::{Clock, Pubkey};
use pyth_solana_receiver_sdk::error::GetPriceError;
use pyth_solana_receiver_sdk::price_update::{
    get_feed_id_from_hex, PriceFeedMessage, PriceUpdateV2, VerificationLevel,
};
use crate::asset::Asset;
use crate::error::ErrorCode;
use crate::solvency::{Price, Prices};

verus! {

/// The feed of the price of SOL in USD.
pub const SOL_USD_FEED_ID: &'static str =
    "0xef0d8b6fda2ceba41da15d4095d1da392a0d2f8ed0c6c7bc0f4cfac8c280b56d";

/// The feed of the price of USDC in USD.
pub const USDC_USD_FEED_ID: &'static str =
    "0xeaa020c61cc479712813461ce153894a96a6c00b21ed0cfc2798d1f9a9e9c94a";

/// The oldest that a price may be when a position is liquidated, in seconds.
pub const MAX_AGE: u64 = 100;

/// The SDK's error. Nothing is known of a value of it.
#[verifier::external_type_specification]
#[verifier::external_body]
pub struct ExGetPriceError(GetPriceError);

/// How far the signatures on a price update were checked.
#[derive(Clone, Copy, Debug)]
pub enum Verification {
    Partial { num_signatures: u8 },
    Full,
}

/// A price update as the receiver program stores it: the feed, its price,
/// when it was published, and how far it was verified.
#[derive(Clone, Copy, Debug)]
pub struct PriceUpdate {
    pub verification: Verification,
    pub feed_id: [u8; 32],
    pub price: i64,
    pub publish_time: i64,
}

/// What the SDK hands out of an update that it accepts.
#[derive(Clone, Copy, Debug)]
pub struct Quote {
    pub price: i64,
    pub publish_time: i64,
}

/// The value of a hexadecimal digit, in either case.
pub open spec fn hex_value(c: char) -> Option<int> {
    let code = c as int;
    if '0' as int <= code <= '9' as int {
        Some(code - '0' as int)
    } else if 'a' as int <= code <= 'f' as int {
        Some(code - 'a' as int + 10)
    } else if 'A' as int <= code <= 'F' as int {
        Some(code - 'A' as int + 10)
    } else {
        None
    }
}

/// The bytes that an even number of hexadecimal digits stand for, two
/// digits to a byte, the high one first.
pub open spec fn hex_decoded(digits: Seq<char>) -> Option<Seq<u8>> {
    if digits.len() % 2 == 0 && forall|i: int|
        0 <= i < digits.len() ==> (#[trigger] hex_value(digits[i])) is Some {
        Some(
            Seq::new(
                digits.len() / 2,
                |i: int|
                    (16 * hex_value(digits[2 * i]).unwrap() + hex_value(
                        digits[2 * i + 1],
                    ).unwrap()) as u8,
            ),
        )
    } else {
        None
    }
}

/// The feed that a string names: 64 hexadecimal digits, or 66 characters
/// of which the first two are skipped.
pub open spec fn feed_id_of_hex(hex: Seq<char>) -> Option<Seq<u8>> {
    if hex.len() == 66 {
        hex_decoded(hex.skip(2))
    } else if hex.len() == 64 {
        hex_decoded(hex)
    } else {
        None
    }
}

/// Calls the SDK's `get_feed_id_from_hex`.
///
/// Of an ASCII string the SDK returns the feed that the string names, and
/// an error where it names none: where its length is neither 64 nor 66, or
/// a character that is not skipped is no hexadecimal digit. Strings that
/// are not ASCII are left out: on some of them the SDK panics.
#[verifier::external_body]
fn feed_id_from_hex(hex: &str) -> (r: Result<[u8; 32], GetPriceError>)
    requires
        hex.is_ascii(),
    ensures
        r is Ok <==> feed_id_of_hex(hex@) is Some,
        r matches Ok(id) ==> id@ == feed_id_of_hex(hex@).unwrap(),
{
    get_feed_id_from_hex(hex)
}

/// The update is fully verified, is for the feed `feed_id`, and was
/// published no more than `maximum_age` seconds before `now`.
pub open spec fn accepted(
    update: PriceUpdate,
    feed_id: Seq<u8>,
    maximum_age: int,
    now: i64,
) -> bool {
    &&& update.verification is Full
    &&& update.feed_id@ == feed_id
    &&& update.publish_time + maximum_age >= now
}

/// Calls the SDK's `PriceUpdateV2::get_price_no_older_than` on the update,
/// with a clock that reads `now`, and returns the price and its time of
/// publication.
///
/// The SDK accepts the update exactly when it is fully verified, is for
/// `feed_id`, and was published no more than `maximum_age` seconds before
/// `now`. An age beyond `i64::MAX` is left out: on it the SDK panics.
#[verifier::external_body]
fn price_no_older_than(
    update: &PriceUpdate,
    now: i64,
    maximum_age: u64,
    feed_id: &[u8; 32],
) -> (r: Result<Quote, GetPriceError>)
    requires
        maximum_age <= i64::MAX,
    ensures
        r is Ok <==> accepted(*update, feed_id@, maximum_age as int, now),
        r matches Ok(quote) ==> quote.price == update.price,
        r matches Ok(quote) ==> quote.publish_time == update.publish_time,
{
    let verification_level = match update.verification {
        Verification::Full => VerificationLevel::Full,
        Verification::Partial { num_signatures } => VerificationLevel::Partial { num_signatures },
    };
    let price_message = PriceFeedMessage {
        feed_id: update.feed_id, price: update.price, conf: 0, exponent: 0,
        publish_time: update.publish_time, prev_publish_time: 0, ema_price: 0, ema_conf: 0,
    };
    let write_authority = Pubkey::default();
    let account = PriceUpdateV2 { write_authority, verification_level, price_message, posted_slot: 0 };
    let clock = Clock { unix_timestamp: now, ..Clock::default() };
    let found = account.get_price_no_older_than(&clock, maximum_age, feed_id);
    found.map(|p| Quote { price: p.price, publish_time: p.publish_time })
}

/// The age that is asked of the SDK for a limit of `max_age`: the limit
/// itself, or the largest age there is where the limit exceeds it.
pub open spec fn age_window(max_age: u64) -> int {
    if max_age > i64::MAX {
        i64::MAX as int
    } else {
        max_age as int
    }
}

/// The price that `update` gives for the feed `feed_id` at `now`.
///
/// The update must be fully verified, be for that feed, be no older than
/// `max_age`, and hold a price that is not negative.
pub open spec fn quoted(
    update: PriceUpdate,
    feed_id: Seq<u8>,
    max_age: u64,
    now: i64,
) -> Result<Price, ErrorCode> {
    if accepted(update, feed_id, age_window(max_age), now) && update.price >= 0 {
        Ok(Price { value: update.price as u64, as_of: update.publish_time })
    } else {
        Err(ErrorCode::StaleOrMissing)
    }
}

/// The price that `update` gives for the feed that `feed_hex` names.
pub open spec fn read(
    update: PriceUpdate,
    feed_hex: &str,
    max_age: u64,
    now: i64,
) -> Result<Price, ErrorCode> {
    if feed_hex.is_ascii() && feed_id_of_hex(feed_hex@) is Some {
        quoted(update, feed_id_of_hex(feed_hex@).unwrap(), max_age, now)
    } else {
        Err(ErrorCode::StaleOrMissing)
    }
}

/// The string that names the feed of an asset's price.
pub open spec fn feed_of_spec(asset: Asset) -> &'static str {
    match asset {
        Asset::Usdc => USDC_USD_FEED_ID,
        Asset::Sol => SOL_USD_FEED_ID,
    }
}

/// The string that names the feed of an asset's price.
pub fn feed_of(asset: Asset) -> (hex: &'static str)
    ensures
        hex == feed_of_spec(asset),
{
    match asset {
        Asset::Usdc => USDC_USD_FEED_ID,
        Asset::Sol => SOL_USD_FEED_ID,
    }
}

/// The prices of both assets, each from its own update and for its own
/// feed.
pub open spec fn read_both(
    usdc: PriceUpdate,
    sol: PriceUpdate,
    max_age: u64,
    now: i64,
) -> Result<Prices, ErrorCode> {
    match (
        read(usdc, feed_of_spec(Asset::Usdc), max_age, now),
        read(sol, feed_of_spec(Asset::Sol), max_age, now),
    ) {
        (Ok(u), Ok(s)) => Ok(Prices { usdc: u, sol: s, max_age }),
        _ => Err(ErrorCode::StaleOrMissing),
    }
}

/// Reads the price for the feed `feed_id` from `update`, at `now`.
///
/// Fails with `StaleOrMissing` exactly when the update is not fully
/// verified, is for another feed, is older than `max_age`, or holds a
/// negative price. A price that is returned is fresh at `now`.
pub fn price_from_update(
    update: &PriceUpdate,
    feed_id: &[u8; 32],
    max_age: u64,
    now: i64,
) -> (r: Result<Price, ErrorCode>)
    ensures
        r == quoted(*update, feed_id@, max_age, now),
        r matches Ok(price) ==> price.fresh(now, max_age),
{
    let window: u64 = if max_age > i64::MAX as u64 {
        i64::MAX as u64
    } else {
        max_age
    };
    match price_no_older_than(update, now, window, feed_id) {
        Err(_) => Err(ErrorCode::StaleOrMissing),
        Ok(quote) => {
            if quote.price < 0 {
                Err(ErrorCode::StaleOrMissing)
            } else {
                Ok(Price { value: quote.price as u64, as_of: quote.publish_time })
            }
        },
    }
}

/// Reads the price for the feed that `feed_hex` names from `update`, at
/// `now`.
///
/// Fails with `StaleOrMissing` exactly when `feed_hex` names no feed, or
/// the update gives no price for that feed as [`price_from_update`] says.
pub fn read_price(
    update: &PriceUpdate,
    feed_hex: &str,
    max_age: u64,
    now: i64,
) -> (r: Result<Price, ErrorCode>)
    ensures
        r == read(*update, feed_hex, max_age, now),
        r matches Ok(price) ==> price.fresh(now, max_age),
{
    if !feed_hex.is_ascii() {
        return Err(ErrorCode::StaleOrMissing);
    }
    match feed_id_from_hex(feed_hex) {
        Err(_) => Err(ErrorCode::StaleOrMissing),
        Ok(feed_id) => price_from_update(update, &feed_id, max_age, now),
    }
}

/// Reads the prices of both assets, each from its own update and for its
/// own feed, at `now`.
///
/// Fails with `StaleOrMissing` exactly when either price cannot be read.
/// Prices that are returned are fresh at `now`.
pub fn read_prices(
    usdc: &PriceUpdate,
    sol: &PriceUpdate,
    max_age: u64,
    now: i64,
) -> (r: Result<Prices, ErrorCode>)
    ensures
        r == read_both(*usdc, *sol, max_age, now),
        r matches Ok(prices) ==> prices.fresh(now),
{
    let u: Price = read_price(usdc, feed_of(Asset::Usdc), max_age, now)?;
    let s: Price = read_price(sol, feed_of(Asset::Sol), max_age, now)?;
    Ok(Prices { usdc: u, sol: s, max_age })
}

} // verus!
