//! Conversion of upstream units into what the store keeps.

use crate::dtos::NewNodeDTO;
use crate::mempool_api::NodeConnectivityRanking;
use chrono::{SecondsFormat, TimeZone, Utc};
use vstd::prelude::*;

verus! {

/// The last second of the year 9999, `9999-12-31T23:59:59Z`.
pub const MAX_TIMESTAMP: u64 = 253402300799;

/// The text that chrono gives for the UTC time `secs` seconds after the
/// epoch, in RFC 3339 with whole seconds and the `Z` designator.
pub uninterp spec fn rfc3339_utc_seconds(secs: int) -> Seq<char>;

/// Whether `c` is one of the ten decimal digits.
pub open spec fn is_digit(c: char) -> bool {
    '0' <= c <= '9'
}

/// Whether `text` has the form `YYYY-MM-DDTHH:MM:SSZ`: twenty characters,
/// whole seconds, no fraction, and the `Z` designator.
pub open spec fn is_second_precision_utc(text: Seq<char>) -> bool {
    &&& text.len() == 20
    &&& is_digit(text[0]) && is_digit(text[1]) && is_digit(text[2]) && is_digit(text[3])
    &&& text[4] == '-'
    &&& is_digit(text[5]) && is_digit(text[6])
    &&& text[7] == '-'
    &&& is_digit(text[8]) && is_digit(text[9])
    &&& text[10] == 'T'
    &&& is_digit(text[11]) && is_digit(text[12])
    &&& text[13] == ':'
    &&& is_digit(text[14]) && is_digit(text[15])
    &&& text[16] == ':'
    &&& is_digit(text[17]) && is_digit(text[18])
    &&& text[19] == 'Z'
}

/// The ISO 8601 text of a Unix timestamp: chrono's text for the years 1970
/// to 9999, and the empty text for every later time.
pub open spec fn iso_text(unix_timestamp: int) -> Seq<char> {
    if 0 <= unix_timestamp <= MAX_TIMESTAMP {
        rfc3339_utc_seconds(unix_timestamp)
    } else {
        Seq::empty()
    }
}

/// Calls chrono's `Utc.timestamp_opt(secs, 0).single()` and, where that gives
/// a time, its `to_rfc3339_opts(SecondsFormat::Secs, true)`.
///
/// Trusted: the text is a function of `secs` alone; chrono has a time for
/// every second of the years 1970 to 9999, and writes such a time as four
/// digits of the year, two each of month, day, hour, minute and second, with
/// `-`, `T` and `:` between them and `Z` at the end.
#[verifier::external_body]
fn utc_rfc3339_seconds(secs: i64) -> (text: Option<String>)
    ensures
        0 <= secs <= MAX_TIMESTAMP ==> text is Some,
        text matches Some(t) ==> t@ == rfc3339_utc_seconds(secs as int),
        text matches Some(t) ==> (0 <= secs <= MAX_TIMESTAMP ==> is_second_precision_utc(t@)),
{
    match Utc.timestamp_opt(secs, 0).single() {
        Some(time) => Some(time.to_rfc3339_opts(SecondsFormat::Secs, true)),
        None => None,
    }
}

/// The text of a formatted time, or the empty text where there is none.
pub fn iso_or_empty(formatted: Option<String>) -> (text: String)
    ensures
        formatted matches Some(t) ==> text@ == t@,
        formatted is None ==> text@ == Seq::<char>::empty(),
{
    match formatted {
        Some(t) => t,
        None => String::new(),
    }
}

/// Convert a Unix timestamp to ISO 8601 text with whole seconds.
///
/// A timestamp after the year 9999 gives the empty text.
pub fn convert_unix_to_iso(unix_timestamp: u64) -> (text: String)
    ensures
        text@ == iso_text(unix_timestamp as int),
        unix_timestamp <= MAX_TIMESTAMP ==> is_second_precision_utc(text@),
        unix_timestamp > MAX_TIMESTAMP ==> text@.len() == 0,
{
    if unix_timestamp > MAX_TIMESTAMP {
        return String::new();
    }
    let formatted = utc_rfc3339_seconds(unix_timestamp as i64);
    iso_or_empty(formatted)
}

/// Whether `record` is the storage-ready form of the upstream entry `node`
/// with the capacity text `capacity_in_btc`: the channels widened, the
/// first-seen time as ISO 8601 text or empty, everything else unchanged.
pub open spec fn normalized(
    node: NodeConnectivityRanking,
    capacity_in_btc: Seq<char>,
    record: NewNodeDTO,
) -> bool {
    &&& record.channels == node.channels
    &&& record.public_key@ == node.publicKey@
    &&& record.alias@ == node.alias@
    &&& record.capacity_in_btc@ == capacity_in_btc
    &&& record.first_seen_iso@ == iso_text(node.firstSeen as int)
    &&& record.updated_at == node.updatedAt
}

/// The storage-ready form of one upstream entry.
///
/// `capacity_in_btc` is the decimal text of the entry's capacity in BTC. An
/// entry whose first-seen time lies after the year 9999 is kept, with an
/// empty first-seen text: normalisation never fails.
pub fn normalize(node: NodeConnectivityRanking, capacity_in_btc: String) -> (record: NewNodeDTO)
    ensures
        normalized(node, capacity_in_btc@, record),
        node.firstSeen <= MAX_TIMESTAMP ==> is_second_precision_utc(record.first_seen_iso@),
        node.firstSeen > MAX_TIMESTAMP ==> record.first_seen_iso@.len() == 0,
{
    let first_seen_iso = convert_unix_to_iso(node.firstSeen);
    NewNodeDTO {
        public_key: node.publicKey,
        alias: node.alias,
        channels: node.channels as u64,
        capacity_in_btc,
        first_seen_iso,
        updated_at: node.updatedAt,
    }
}

} // verus!
