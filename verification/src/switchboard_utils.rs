//! What the oracle takes from a feed: the snapshot of an aggregator, the
//! checks that decide whether it is trusted, and the ways to decode its
//! reading.

use vstd::prelude::*;
use vstd::slice::slice_subrange;
use crate::error::{OracleError, ValidationError};
use crate::fixed::{decode, decode_spec, DecodeError, Fixed, MAX_SCALE};
use crate::identity::Pubkey;
use crate::text::{
    lemma_rendered_bytes,
    parse_decimal,
    parse_decimal_text,
    render_decimal,
    rendered,
    trim_blanks,
    trimmed,
};

verus! {

/// A reading as a feed reports it: it stands for `mantissa * 10^(-scale)`.
#[derive(Clone, Copy, Debug, PartialEq, Eq, Structural)]
pub struct SwitchboardDecimal {
    pub mantissa: i128,
    pub scale: u32,
}

/// What the oracle reads of an aggregator at one moment.
#[derive(Clone, Copy, Debug)]
pub struct FeedSnapshot {
    /// The latest confirmed result.
    pub result: SwitchboardDecimal,
    /// When the round of the result was opened, in seconds.
    pub timestamp: i64,
    /// The program that owns the aggregator account.
    pub owner: Pubkey,
    /// The uncertainty that the feed reports for the result.
    pub std_deviation: SwitchboardDecimal,
}

/// A decoded reading.
#[derive(Clone, Copy, Debug, PartialEq, Eq, Structural)]
pub struct SwitchboardResult {
    pub value: Fixed,
}

impl SwitchboardResult {
    /// The decoded reading of value `value`.
    pub fn new(value: Fixed) -> (r: Self)
        ensures
            r.value == value,
    {
        SwitchboardResult { value }
    }
}

/// The prices and yields of the six liquid-staking tokens, each at the
/// ordinal of its asset kind.
#[derive(Clone, Copy, Debug)]
pub struct MultiAssetResult {
    pub prices: [Fixed; 6],
    pub apys: [Fixed; 6],
}

impl SwitchboardDecimal {
    /// The value of the reading, if it has one.
    pub open spec fn decoded(self) -> Result<Fixed, DecodeError> {
        decode_spec(self.mantissa as int, self.scale as int)
    }

    /// Decodes the reading.
    pub fn decode(&self) -> (r: Result<Fixed, DecodeError>)
        ensures
            r == self.decoded(),
    {
        if self.scale > MAX_SCALE as u32 {
            Err(DecodeError::NonFinite)
        } else {
            decode(self.mantissa, self.scale as i32)
        }
    }
}

impl FeedSnapshot {
    /// The snapshot is older at `now` than `max_age_seconds`.
    pub open spec fn is_stale(self, now: i64, max_age_seconds: i64) -> bool {
        now - self.timestamp > max_age_seconds
    }

    /// The uncertainty of the snapshot is above `confidence_bound`, or has
    /// no value that could be held against it.
    pub open spec fn exceeds_confidence(self, confidence_bound: Fixed) -> bool {
        match self.std_deviation.decoded() {
            Ok(band) => band.raw > confidence_bound.raw,
            Err(_) => true,
        }
    }

    /// What [`validate`] returns. The owner is checked first, then the age,
    /// then the uncertainty.
    pub open spec fn validated(
        self,
        now: i64,
        max_age_seconds: i64,
        confidence_bound: Fixed,
        feed_authority: Pubkey,
    ) -> Result<SwitchboardDecimal, ValidationError> {
        if self.owner != feed_authority {
            Err(ValidationError::InvalidFeedAccount)
        } else if self.is_stale(now, max_age_seconds) {
            Err(ValidationError::StaleData)
        } else if self.exceeds_confidence(confidence_bound) {
            Err(ValidationError::ExceedsConfidenceInterval)
        } else {
            Ok(self.result)
        }
    }
}

/// Decides whether a snapshot is trusted at `now`.
///
/// - `InvalidFeedAccount`: the snapshot is not owned by `feed_authority`.
/// - `StaleData`: it is older than `max_age_seconds`.
/// - `ExceedsConfidenceInterval`: its uncertainty is above
///   `confidence_bound`, or cannot be decoded.
///
/// A trusted snapshot yields its reading as it is.
pub fn validate(
    feed: &FeedSnapshot,
    now: i64,
    max_age_seconds: i64,
    confidence_bound: Fixed,
    feed_authority: &Pubkey,
) -> (r: Result<SwitchboardDecimal, ValidationError>)
    ensures
        r == feed.validated(now, max_age_seconds, confidence_bound, *feed_authority),
{
    if feed.owner != *feed_authority {
        return Err(ValidationError::InvalidFeedAccount);
    }
    let age: i128 = now as i128 - feed.timestamp as i128;
    if age > max_age_seconds as i128 {
        return Err(ValidationError::StaleData);
    }
    match feed.std_deviation.decode() {
        Ok(band) => {
            if band.raw > confidence_bound.raw {
                return Err(ValidationError::ExceedsConfidenceInterval);
            }
        },
        Err(_) => {
            return Err(ValidationError::ExceedsConfidenceInterval);
        },
    }
    Ok(feed.result)
}

/// Decodes a reading that holds one value.
pub fn switchboard_decimal_to_result(decimal: &SwitchboardDecimal) -> (r: Result<
    SwitchboardResult,
    OracleError,
>)
    ensures
        r == match decimal.decoded() {
            Ok(value) => Ok::<SwitchboardResult, OracleError>(SwitchboardResult { value }),
            Err(e) => Err::<SwitchboardResult, OracleError>(OracleError::Decode(e)),
        },
{
    match decimal.decode() {
        Ok(value) => Ok(SwitchboardResult { value }),
        Err(e) => Err(OracleError::Decode(e)),
    }
}

/// Decodes the reading of the base asset's price: it holds one value.
pub fn parse_sol_price(decimal: &SwitchboardDecimal) -> (r: Result<SwitchboardResult, OracleError>)
    ensures
        r == match decimal.decoded() {
            Ok(value) => Ok::<SwitchboardResult, OracleError>(SwitchboardResult { value }),
            Err(e) => Err::<SwitchboardResult, OracleError>(OracleError::Decode(e)),
        },
{
    switchboard_decimal_to_result(decimal)
}

/// Decodes the reading of the feed of the base asset's price.
pub fn get_sol_price(feed: &FeedSnapshot) -> (r: Result<SwitchboardResult, OracleError>)
    ensures
        r == match feed.result.decoded() {
            Ok(value) => Ok::<SwitchboardResult, OracleError>(SwitchboardResult { value }),
            Err(e) => Err::<SwitchboardResult, OracleError>(OracleError::Decode(e)),
        },
{
    parse_sol_price(&feed.result)
}

/// Decodes the reading of a feed that holds one value.
pub fn get_switchboard_result(feed: &FeedSnapshot) -> (r: Result<SwitchboardResult, OracleError>)
    ensures
        r == match feed.result.decoded() {
            Ok(value) => Ok::<SwitchboardResult, OracleError>(SwitchboardResult { value }),
            Err(e) => Err::<SwitchboardResult, OracleError>(OracleError::Decode(e)),
        },
{
    switchboard_decimal_to_result(&feed.result)
}

/// Writes the value of a reading as text.
pub fn switchboard_decimal_to_string(decimal: &SwitchboardDecimal) -> (r: Result<
    Vec<u8>,
    OracleError,
>)
    ensures
        match decimal.decoded() {
            Ok(value) => r is Ok && r->Ok_0@ == rendered(value),
            Err(e) => r == Err::<Vec<u8>, OracleError>(OracleError::Decode(e)),
        },
{
    match decimal.decode() {
        Ok(value) => Ok(render_decimal(value)),
        Err(e) => Err(OracleError::Decode(e)),
    }
}

/// The value that the field `field` of a packed text holds: the number
/// that it spells between its blanks, if it spells one.
pub open spec fn field_value(field: Seq<u8>) -> Option<Fixed> {
    parse_decimal(trimmed(field))
}

/// The values `head` followed by the values `rest`, if there are any.
pub open spec fn followed_by(head: Seq<Fixed>, rest: Option<Seq<Fixed>>) -> Option<Seq<Fixed>> {
    match rest {
        Some(values) => Some(head + values),
        None => None,
    }
}

/// The value `first` followed by the values `rest`, if both are there.
pub open spec fn joined(first: Option<Fixed>, rest: Option<Seq<Fixed>>) -> Option<Seq<Fixed>> {
    match first {
        Some(value) => followed_by(seq![value], rest),
        None => None,
    }
}

/// The values of the fields of `text` from the one that starts at `start`
/// on, where the bytes from `start` up to `pos` hold no comma: one value for
/// each field, and nothing at all when one of the fields spells no number.
pub open spec fn values_from(text: Seq<u8>, start: int, pos: int) -> Option<Seq<Fixed>>
    decreases text.len() - pos,
{
    if pos >= text.len() {
        joined(field_value(text.subrange(start, text.len() as int)), Some(Seq::empty()))
    } else if text[pos] == 44 {
        joined(field_value(text.subrange(start, pos)), values_from(text, pos + 1, pos + 1))
    } else {
        values_from(text, start, pos + 1)
    }
}

/// The values of a packed text. Its fields are what stands between its
/// commas, so there is one field more than there are commas. When every
/// field spells a number, the values are those numbers in the order of the
/// fields; when one does not, the text has no values.
pub open spec fn packed_values(text: Seq<u8>) -> Option<Seq<Fixed>> {
    values_from(text, 0, 0)
}

/// The number of commas in `text` from `pos` on.
pub open spec fn commas_from(text: Seq<u8>, pos: int) -> nat
    decreases text.len() - pos,
{
    if pos >= text.len() {
        0
    } else if text[pos] == 44 {
        1 + commas_from(text, pos + 1)
    } else {
        commas_from(text, pos + 1)
    }
}

/// The prices among twelve packed values: those at the even positions.
pub open spec fn unpacked_prices(values: Seq<Fixed>) -> Seq<Fixed> {
    Seq::new(6, |i: int| values[2 * i])
}

/// The yields among twelve packed values: those at the odd positions.
pub open spec fn unpacked_apys(values: Seq<Fixed>) -> Seq<Fixed> {
    Seq::new(6, |i: int| values[2 * i + 1])
}

/// Whether `result` is what the packed values `values` stand for.
pub open spec fn unpacks_to(values: Seq<Fixed>, result: MultiAssetResult) -> bool {
    &&& values.len() == 12
    &&& result.prices@ == unpacked_prices(values)
    &&& result.apys@ == unpacked_apys(values)
}

/// What a packed text decodes to: the prices and yields that its values
/// stand for when it has exactly twelve fields and each of them spells a
/// number, and `InvalidFeedAccount` otherwise.
pub open spec fn packed_result(text: Seq<u8>) -> Result<MultiAssetResult, OracleError> {
    match packed_values(text) {
        Some(values) => if values.len() == 12 {
            Ok(choose|result: MultiAssetResult| unpacks_to(values, result))
        } else {
            Err(OracleError::Validation(ValidationError::InvalidFeedAccount))
        },
        None => Err(OracleError::Validation(ValidationError::InvalidFeedAccount)),
    }
}

/// What a reading decodes to when it is read as a packed one: never a
/// result. The text of its value is one field, not twelve, so a reading that
/// has a value is refused with `InvalidFeedAccount`, and one that has none
/// with `NonFinite`.
pub open spec fn packed_reading(decimal: SwitchboardDecimal) -> Result<
    MultiAssetResult,
    OracleError,
> {
    match decimal.decoded() {
        Err(e) => Err(OracleError::Decode(e)),
        Ok(_) => Err(OracleError::Validation(ValidationError::InvalidFeedAccount)),
    }
}

/// Twelve values stand for one result only.
pub proof fn lemma_unpacks_to_one(values: Seq<Fixed>, first: MultiAssetResult, second: MultiAssetResult)
    requires
        unpacks_to(values, first),
        unpacks_to(values, second),
    ensures
        first == second,
{
    assert(first.prices =~= second.prices);
    assert(first.apys =~= second.apys);
}

/// A text that has values has one for each field: one more than it has
/// commas.
pub proof fn lemma_one_value_for_each_field(text: Seq<u8>, start: int, pos: int)
    requires
        0 <= start <= pos <= text.len(),
    ensures
        values_from(text, start, pos) matches Some(values) ==> values.len() == 1 + commas_from(
            text,
            pos,
        ),
    decreases text.len() - pos,
{
    if pos < text.len() {
        if text[pos] == 44 {
            lemma_one_value_for_each_field(text, pos + 1, pos + 1);
        } else {
            lemma_one_value_for_each_field(text, start, pos + 1);
        }
    }
}

/// The values of a packed text in the order of their fields, or nothing
/// when a field spells no number.
pub fn read_packed_values(text: &[u8]) -> (r: Option<Vec<Fixed>>)
    ensures
        match r {
            Some(values) => packed_values(text@) == Some(values@),
            None => packed_values(text@) is None,
        },
{
    let len = text.len();
    let mut values: Vec<Fixed> = Vec::new();
    let mut start: usize = 0;
    let mut pos: usize = 0;
    proof {
        let all = values_from(text@, 0, 0);
        if all is Some {
            assert(values@ + all->Some_0 =~= all->Some_0);
        }
    }
    while pos < len
        invariant
            start <= pos <= len,
            len == text@.len(),
            followed_by(values@, values_from(text@, start as int, pos as int)) == packed_values(
                text@,
            ),
        decreases len - pos,
    {
        if text[pos] == 44 {
            let field = slice_subrange(text, start, pos);
            let ghost before = values@;
            match parse_decimal_text(trim_blanks(field)) {
                Some(value) => {
                    values.push(value);
                },
                None => {
                    return None;
                },
            }
            proof {
                let rest = values_from(text@, pos + 1, pos + 1);
                if rest is Some {
                    assert(values@ + rest->Some_0 =~= before + (seq![values@.last()]
                        + rest->Some_0));
                }
            }
            start = pos + 1;
        }
        pos = pos + 1;
    }
    let field = slice_subrange(text, start, len);
    let ghost before = values@;
    match parse_decimal_text(trim_blanks(field)) {
        Some(value) => {
            values.push(value);
        },
        None => {
            return None;
        },
    }
    proof {
        assert(values@ =~= before + (seq![values@.last()] + Seq::<Fixed>::empty()));
    }
    Some(values)
}

/// Reads the prices and yields of the six liquid-staking tokens from a
/// packed text: twelve numbers between commas, price and yield in turn, each
/// at its fixed position.
///
/// Blanks around a number are passed over. A text that does not have
/// exactly twelve fields, or in which a field spells no number, is refused
/// with `InvalidFeedAccount`: no value is taken from another position than
/// its own.
pub fn parse_packed_values(text: &[u8]) -> (r: Result<MultiAssetResult, OracleError>)
    ensures
        r == packed_result(text@),
        r matches Ok(result) ==> packed_values(text@) matches Some(values) && unpacks_to(
            values,
            result,
        ),
{
    let values = match read_packed_values(text) {
        None => {
            return Err(OracleError::Validation(ValidationError::InvalidFeedAccount));
        },
        Some(values) => values,
    };
    if values.len() != 12 {
        return Err(OracleError::Validation(ValidationError::InvalidFeedAccount));
    }
    let result = MultiAssetResult {
        prices: [values[0], values[2], values[4], values[6], values[8], values[10]],
        apys: [values[1], values[3], values[5], values[7], values[9], values[11]],
    };
    proof {
        assert(result.prices@ =~= unpacked_prices(values@));
        assert(result.apys@ =~= unpacked_apys(values@));
        let chosen = choose|chosen: MultiAssetResult| unpacks_to(values@, chosen);
        lemma_unpacks_to_one(values@, result, chosen);
    }
    Ok(result)
}

/// A text without a comma has no more than one value.
pub proof fn lemma_one_field(text: Seq<u8>, start: int, pos: int)
    requires
        0 <= start <= pos <= text.len(),
        forall|i: int| pos <= i < text.len() ==> text[i] != 44,
    ensures
        values_from(text, start, pos) matches Some(values) ==> values.len() == 1,
    decreases text.len() - pos,
{
    if pos < text.len() {
        lemma_one_field(text, start, pos + 1);
    }
}

/// Decodes a reading that holds the prices and yields of the six
/// liquid-staking tokens: the value of the reading is written as text, and
/// the text is read as a packed text.
///
/// The text of one value holds one field, so no reading decodes in this
/// way. A caller that holds a packed text reads it with
/// [`parse_packed_values`].
pub fn parse_multi_asset_data(decimal: &SwitchboardDecimal) -> (r: Result<
    MultiAssetResult,
    OracleError,
>)
    ensures
        r == packed_reading(*decimal),
{
    match switchboard_decimal_to_string(decimal) {
        Err(e) => Err(e),
        Ok(text) => {
            proof {
                lemma_rendered_bytes(decimal.decoded()->Ok_0);
                lemma_one_field(text@, 0, 0);
            }
            parse_packed_values(text.as_slice())
        },
    }
}

/// Decodes the reading of a feed that holds the prices and yields of the
/// six liquid-staking tokens.
pub fn get_multi_asset_result(feed: &FeedSnapshot) -> (r: Result<MultiAssetResult, OracleError>)
    ensures
        r == packed_reading(feed.result),
{
    parse_multi_asset_data(&feed.result)
}

} // verus!
