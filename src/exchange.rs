//! Records of the exchange's market-data feeds.

use vstd::prelude::*;
use vstd::utf8::encode_utf8;
use crate::decimal::{decimal_value, parse_decimal};
use crate::types::Kline;

verus! {

/// A bar as the exchange's REST endpoint sends it: times and counts as
/// integers, prices and volumes as decimal text.
#[derive(Debug)]
pub struct RawKline(
    pub i64,
    pub String,
    pub String,
    pub String,
    pub String,
    pub String,
    pub i64,
    pub String,
    pub i64,
    pub String,
    pub String,
    pub String,
);

/// A handle on the exchange's streaming endpoint.
#[derive(Clone, Copy, Debug)]
pub struct LiveConnector {}

impl LiveConnector {
    pub fn new() -> (r: LiveConnector) {
        LiveConnector {  }
    }
}

/// The bar a raw bar describes, when its five decimal fields all read.
pub open spec fn raw_to_kline(raw: RawKline) -> Option<Kline> {
    match (
        decimal_value(encode_utf8(raw.1@)),
        decimal_value(encode_utf8(raw.2@)),
        decimal_value(encode_utf8(raw.3@)),
        decimal_value(encode_utf8(raw.4@)),
        decimal_value(encode_utf8(raw.5@)),
    ) {
        (Some(o), Some(h), Some(l), Some(c), Some(v)) => Some(
            Kline {
                open_time: raw.0,
                close_time: raw.6,
                open: o as i128,
                high: h as i128,
                low: l as i128,
                close: c as i128,
                volume: v as i128,
            },
        ),
        _ => None,
    }
}

/// The bar a raw bar describes; none when a decimal field does not read.
pub fn kline_from_raw(raw: &RawKline) -> (r: Option<Kline>)
    ensures
        r == raw_to_kline(*raw),
{
    let open = parse_decimal(raw.1.as_str());
    let high = parse_decimal(raw.2.as_str());
    let low = parse_decimal(raw.3.as_str());
    let close = parse_decimal(raw.4.as_str());
    let volume = parse_decimal(raw.5.as_str());
    match (open, high, low, close, volume) {
        (Some(o), Some(h), Some(l), Some(c), Some(v)) => Some(
            Kline { open_time: raw.0, close_time: raw.6, open: o, high: h, low: l, close: c, volume: v },
        ),
        _ => None,
    }
}

} // verus!
