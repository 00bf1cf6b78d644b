//! The ledger: one record of price and yield for each slot, and the rule
//! that bounds how far a price may move in one write.

use vstd::prelude::*;
use crate::error::LedgerError;
use crate::fixed::{Fixed, ONE};
use crate::wide::{distance, magnitude, size_of, wide_exceeds, wide_product};

verus! {

/// Number of slots in the ledger, and the most assets a registry holds.
pub const MAX_ASSETS: usize = 10;

/// The record of one asset.
///
/// A record that was never written holds zero everywhere; it is told from a
/// record with a price of zero by `last_update_time == 0`.
#[derive(Clone, Copy, Debug, PartialEq, Eq, Structural)]
pub struct PriceData {
    pub price: Fixed,
    pub last_price: Fixed,
    pub last_update_time: i64,
    pub apy: Fixed,
}

/// The records of all slots.
#[derive(Clone, Copy, Debug)]
pub struct PriceOracleData {
    pub price_data: [PriceData; MAX_ASSETS],
    pub bump: u8,
}

/// What a ledger holds: the record of each slot.
pub struct LedgerModel {
    pub records: Seq<PriceData>,
    pub bump: u8,
}

impl View for PriceOracleData {
    type V = LedgerModel;

    open spec fn view(&self) -> LedgerModel {
        LedgerModel { records: self.price_data@, bump: self.bump }
    }
}

/// Whether the move from `old` to `new`, taken relative to `old`, is above
/// `max`: `|new - old| / old > max`, stated without a division. A price of
/// zero is no baseline, and nothing exceeds the limit from it.
pub open spec fn price_change_exceeds(old: Fixed, new: Fixed, max: Fixed) -> bool {
    let change = magnitude(new.raw - old.raw);
    if old.raw > 0 {
        change * ONE > max.raw * old.raw
    } else if old.raw < 0 {
        change * ONE < max.raw * old.raw
    } else {
        false
    }
}

/// Whether the ledger refuses to write `new` over `old` under the limit
/// `max`: a price below zero is refused whatever the limit, as a move that
/// none allows, and a price of zero or above when it has moved too far.
pub open spec fn price_refused(old: Fixed, new: Fixed, max: Fixed) -> bool {
    new.raw < 0 || price_change_exceeds(old, new, max)
}

impl PriceData {
    /// The record that was never written.
    pub open spec fn zeroed() -> PriceData {
        PriceData {
            price: Fixed { raw: 0 },
            last_price: Fixed { raw: 0 },
            last_update_time: 0,
            apy: Fixed { raw: 0 },
        }
    }

    /// Both prices of the record are zero or above.
    pub open spec fn non_negative(self) -> bool {
        self.price.raw >= 0 && self.last_price.raw >= 0
    }

    /// The record after `new_price` was written at `now`: the price that was
    /// current becomes the previous one, unless it was zero, in which case
    /// the previous price is the new price too.
    pub open spec fn with_price(self, new_price: Fixed, now: i64) -> PriceData {
        PriceData {
            price: new_price,
            last_price: if self.price.raw == 0 {
                new_price
            } else {
                self.price
            },
            last_update_time: now,
            apy: self.apy,
        }
    }

    /// The record after `new_apy` was written at `now`.
    pub open spec fn with_apy(self, new_apy: Fixed, now: i64) -> PriceData {
        PriceData {
            price: self.price,
            last_price: self.last_price,
            last_update_time: now,
            apy: new_apy,
        }
    }
}

impl Default for PriceData {
    fn default() -> (r: Self)
        ensures
            r == PriceData::zeroed(),
    {
        PriceData {
            price: Fixed { raw: 0 },
            last_price: Fixed { raw: 0 },
            last_update_time: 0,
            apy: Fixed { raw: 0 },
        }
    }
}

/// Decides whether the move from `old` to `new` is above the limit `max`.
pub fn exceeds_limit(old: Fixed, new: Fixed, max: Fixed) -> (r: bool)
    ensures
        r == price_change_exceeds(old, new, max),
{
    if old.raw == 0 {
        return false;
    }
    let change: u128 = distance(new.raw, old.raw);
    let moved = wide_product(change, 1_000_000_000);
    if old.raw > 0 {
        if max.raw < 0 {
            proof {
                assert(max.raw * old.raw < 0 <= change * ONE) by (nonlinear_arith)
                    requires
                        max.raw < 0,
                        old.raw > 0,
                        change >= 0,
                        ONE == 1_000_000_000,
                ;
            }
            return true;
        }
        let allowed = wide_product(size_of(max.raw), size_of(old.raw));
        wide_exceeds(moved, allowed)
    } else {
        if max.raw >= 0 {
            proof {
                assert(max.raw * old.raw <= 0 <= change * ONE) by (nonlinear_arith)
                    requires
                        max.raw >= 0,
                        old.raw < 0,
                        change >= 0,
                        ONE == 1_000_000_000,
                ;
            }
            return false;
        }
        let allowed = wide_product(size_of(max.raw), size_of(old.raw));
        proof {
            assert((-max.raw) * (-old.raw) == max.raw * old.raw) by (nonlinear_arith);
        }
        wide_exceeds(allowed, moved)
    }
}

/// Decides whether the ledger refuses to write `new` over `old` under the
/// limit `max`.
pub fn refuses_price(old: Fixed, new: Fixed, max: Fixed) -> (r: bool)
    ensures
        r == price_refused(old, new, max),
{
    new.raw < 0 || exceeds_limit(old, new, max)
}

impl LedgerModel {
    /// The ledger has a record for each of its [`MAX_ASSETS`] slots.
    pub open spec fn wf(self) -> bool {
        self.records.len() == MAX_ASSETS
    }

    /// Both prices of every record are zero or above.
    pub open spec fn non_negative(self) -> bool {
        forall|slot: int|
            0 <= slot < self.records.len() ==> (#[trigger] self.records[slot]).non_negative()
    }

    /// Every record whose time of update is zero has a price of zero: no
    /// record was written at time zero.
    pub open spec fn unwritten_are_zero(self) -> bool {
        forall|slot: int|
            0 <= slot < self.records.len() && (#[trigger] self.records[slot]).last_update_time == 0
                ==> self.records[slot].price.raw == 0
    }

    /// The ledger with `record` at `slot`.
    pub open spec fn with_record(self, slot: int, record: PriceData) -> LedgerModel {
        LedgerModel { records: self.records.update(slot, record), ..self }
    }

    /// The ledger after a write of `new_price` to `slot` was asked for, and
    /// what the write returns. Of a price that is refused nothing is written.
    pub open spec fn apply_price_update(
        self,
        slot: int,
        new_price: Fixed,
        now: i64,
        max_relative_change: Fixed,
    ) -> (LedgerModel, Result<(), LedgerError>) {
        if price_refused(self.records[slot].price, new_price, max_relative_change) {
            (self, Err(LedgerError::PriceChangeExceedsLimit))
        } else {
            (self.with_record(slot, self.records[slot].with_price(new_price, now)), Ok(()))
        }
    }

    /// The ledger after `new_apy` was written to `slot`.
    pub open spec fn apply_apy_update(self, slot: int, new_apy: Fixed, now: i64) -> LedgerModel {
        self.with_record(slot, self.records[slot].with_apy(new_apy, now))
    }

    /// The ledger after a write of `new_price` and `new_apy` to `slot` was
    /// asked for, and what the write returns. When the price is refused
    /// neither is written.
    pub open spec fn apply_price_and_apy_update(
        self,
        slot: int,
        new_price: Fixed,
        new_apy: Fixed,
        now: i64,
        max_relative_change: Fixed,
    ) -> (LedgerModel, Result<(), LedgerError>) {
        if price_refused(self.records[slot].price, new_price, max_relative_change) {
            (self, Err(LedgerError::PriceChangeExceedsLimit))
        } else {
            (
                self.with_record(
                    slot,
                    self.records[slot].with_price(new_price, now).with_apy(new_apy, now),
                ),
                Ok(()),
            )
        }
    }
}

impl PriceOracleData {
    /// The ledger in which no record was ever written.
    pub fn new(bump: u8) -> (r: PriceOracleData)
        ensures
            r@ == (LedgerModel { records: Seq::new(MAX_ASSETS as nat, |slot: int| PriceData::zeroed()), bump }),
            r@.wf(),
            r@.non_negative(),
    {
        let r = PriceOracleData { price_data: [PriceData::default(); MAX_ASSETS], bump };
        assert(r@.records =~= Seq::new(MAX_ASSETS as nat, |slot: int| PriceData::zeroed()));
        r
    }

    /// Writes `new_price` to the record at `slot`, unless it is below zero or
    /// lies too far from the current price.
    ///
    /// On `PriceChangeExceedsLimit` nothing is written. A ledger whose prices
    /// are zero or above stays one.
    pub fn apply_price_update(
        &mut self,
        slot: usize,
        new_price: Fixed,
        now: i64,
        max_relative_change: Fixed,
    ) -> (r: Result<(), LedgerError>)
        requires
            slot < MAX_ASSETS,
        ensures
            (final(self)@, r) == old(self)@.apply_price_update(
                slot as int,
                new_price,
                now,
                max_relative_change,
            ),
            old(self)@.non_negative() ==> final(self)@.non_negative(),
    {
        let record = self.price_data[slot];
        if refuses_price(record.price, new_price, max_relative_change) {
            return Err(LedgerError::PriceChangeExceedsLimit);
        }
        let last_price = if record.price.raw == 0 {
            new_price
        } else {
            record.price
        };
        self.price_data[slot] = PriceData {
            price: new_price,
            last_price,
            last_update_time: now,
            apy: record.apy,
        };
        Ok(())
    }

    /// Writes `new_apy` to the record at `slot`. No limit bounds a yield.
    pub fn apply_apy_update(&mut self, slot: usize, new_apy: Fixed, now: i64)
        requires
            slot < MAX_ASSETS,
        ensures
            final(self)@ == old(self)@.apply_apy_update(slot as int, new_apy, now),
            old(self)@.non_negative() ==> final(self)@.non_negative(),
    {
        let record = self.price_data[slot];
        self.price_data[slot] = PriceData {
            price: record.price,
            last_price: record.last_price,
            last_update_time: now,
            apy: new_apy,
        };
    }

    /// Writes `new_price` and `new_apy` to the record at `slot`, or neither:
    /// when the price is below zero or lies too far from the current one, the
    /// yield is not written either.
    pub fn apply_price_and_apy_update(
        &mut self,
        slot: usize,
        new_price: Fixed,
        new_apy: Fixed,
        now: i64,
        max_relative_change: Fixed,
    ) -> (r: Result<(), LedgerError>)
        requires
            slot < MAX_ASSETS,
        ensures
            (final(self)@, r) == old(self)@.apply_price_and_apy_update(
                slot as int,
                new_price,
                new_apy,
                now,
                max_relative_change,
            ),
            old(self)@.non_negative() ==> final(self)@.non_negative(),
    {
        match self.apply_price_update(slot, new_price, now, max_relative_change) {
            Ok(()) => {
                self.apply_apy_update(slot, new_apy, now);
                assert(self@.records =~= old(self)@.apply_price_and_apy_update(
                    slot as int,
                    new_price,
                    new_apy,
                    now,
                    max_relative_change,
                ).0.records);
                Ok(())
            },
            Err(e) => Err(e),
        }
    }

    /// The record at `slot`.
    pub fn record(&self, slot: usize) -> (r: PriceData)
        requires
            slot < MAX_ASSETS,
        ensures
            r == self@.records[slot as int],
    {
        self.price_data[slot]
    }
}

} // verus!
