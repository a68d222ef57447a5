//! Creating series.
use vstd::prelude::*;
use crate::error::CampgroundError;
use crate::fee::{calculate_fee, fee_of};
use crate::ids::decimal_string;
use crate::ledger::{series_id_of, Contract};
use crate::metadata::{
    copy_series, format_json_trail, is_snapshot, partial_metadata_from_trail_series, same_series,
    JsonTrail, SeriesSupply, TrailSeries, TrailSeriesMetadata,
};
use crate::storage::{byte_cost, storage_byte_cost};
use crate::MAX_PRICE;

verus! {

/// Bytes of storage a new series is estimated to take beyond its input.
pub const SERIES_STORAGE_MARGIN: usize = 500;

/// The inputs of a series creation are acceptable: a price below the ceiling,
/// at least one ticket, at least one resource, and a fee that can be computed.
pub open spec fn valid_series_input(
    metadata: TrailSeriesMetadata,
    price: Option<u128>,
    fee_percentage: u64,
) -> bool {
    let p = match price {
        Some(p) => p,
        None => 0,
    };
    &&& (price is Some ==> p < MAX_PRICE)
    &&& metadata.tickets_amount > 0
    &&& metadata.resources@.len() > 0
    &&& p * fee_percentage <= u128::MAX
}

/// `new` is `old` with one more series, `s`, and nothing else changed.
pub open spec fn series_added(old: &Contract, new: &Contract, s: TrailSeries) -> bool {
    let n = old.series().len() as int;
    &&& new.series() == old.series().push(s)
    &&& new.tokens_by_id@.len() == n + 1
    &&& forall|k: int| 0 <= k < n ==> #[trigger] new.copies(k) == old.copies(k)
    &&& new.copies(n).len() == 0
    &&& new.tokens_per_owner@ == old.tokens_per_owner@
    &&& new.nonmintable_trails@ == old.nonmintable_trails@.push(false)
    &&& new.same_config(old)
}

impl Contract {
    /// Estimated storage deposit for creating a series from a request of
    /// `input_bytes` bytes.
    pub fn create_trail_series_estimated(&self, input_bytes: usize) -> (r: Option<u128>)
        ensures
            match r {
                Some(cost) => cost == (input_bytes + SERIES_STORAGE_MARGIN) * byte_cost(),
                None => input_bytes + SERIES_STORAGE_MARGIN > usize::MAX,
            },
    {
        if input_bytes > usize::MAX - SERIES_STORAGE_MARGIN {
            return None;
        }
        let high_approximate = input_bytes + SERIES_STORAGE_MARGIN;
        assert(high_approximate * byte_cost() <= u128::MAX) by (nonlinear_arith)
            requires
                high_approximate <= u64::MAX,
                byte_cost() == 10_000_000_000_000_000_000,
        ;
        Some(high_approximate as u128 * storage_byte_cost())
    }

    /// Creates a series from `metadata`, created by `creator_id` or else by
    /// `caller`, at time `now`. The series gets the next id, `price` (zero
    /// when absent), and the fee that the current percentage and minimum give
    /// on that price. Returns the series' composed view.
    pub fn create_trail_series(
        &mut self,
        caller: &String,
        metadata: TrailSeriesMetadata,
        price: Option<u128>,
        creator_id: Option<String>,
        creator_royalty: Option<u128>,
        now: u64,
    ) -> (r: Result<JsonTrail, CampgroundError>)
        requires
            old(self).wf(),
        ensures
            final(self).wf(),
            match r {
                Ok(view) => {
                    let n = old(self).series().len() as int;
                    let s = final(self).series()[n];
                    let p = match price {
                        Some(p) => p,
                        None => 0,
                    };
                    &&& valid_series_input(metadata, price, old(self).campground_fee)
                    &&& series_added(old(self), final(self), s)
                    &&& s.is_mintable
                    &&& s.creator_id@ == match creator_id {
                        Some(c) => c@,
                        None => caller@,
                    }
                    &&& s.issue_at == now
                    &&& s.metadata == metadata
                    &&& s.supply == (SeriesSupply { total: metadata.tickets_amount, circulating: 0 })
                    &&& s.price == p
                    &&& s.campground_fee_near == fee_of(
                        p as int,
                        old(self).campground_fee as int,
                        old(self).campground_minimum_fee_yocto_near as int,
                    )
                    &&& s.creator_royalty_near == creator_royalty
                    &&& view.token_id@ == series_id_of(n)
                    &&& view.owner_id@ == s.creator_id@
                    &&& same_series(view.series, s)
                    &&& is_snapshot(view.metadata, s)
                },
                Err(e) => {
                    &&& *final(self) == *old(self)
                    &&& e == CampgroundError::InvalidArgument
                    &&& !valid_series_input(metadata, price, old(self).campground_fee)
                },
            },
    {
        let n = self.trails_metadata_by_id.len();
        let p = match price {
            Some(indicated) => {
                if indicated >= MAX_PRICE {
                    return Err(CampgroundError::InvalidArgument);
                }
                indicated
            },
            None => 0,
        };
        if metadata.tickets_amount == 0 {
            return Err(CampgroundError::InvalidArgument);
        }
        if metadata.resources.len() == 0 {
            return Err(CampgroundError::InvalidArgument);
        }
        if self.campground_fee > 0 && p > u128::MAX / (self.campground_fee as u128) {
            proof {
                assert(p * self.campground_fee > u128::MAX) by (nonlinear_arith)
                    requires
                        self.campground_fee > 0,
                        p > u128::MAX / (self.campground_fee as u128),
                ;
            }
            return Err(CampgroundError::InvalidArgument);
        }
        proof {
            if self.campground_fee > 0 {
                assert(p * self.campground_fee <= u128::MAX) by (nonlinear_arith)
                    requires
                        self.campground_fee > 0,
                        p <= u128::MAX / (self.campground_fee as u128),
                ;
            }
        }
        let fee = calculate_fee(p, self.campground_fee, self.campground_minimum_fee_yocto_near);
        let creator = match creator_id {
            Some(c) => c,
            None => caller.clone(),
        };
        let quantity = metadata.tickets_amount;
        let series = TrailSeries {
            is_mintable: true,
            creator_id: creator,
            issue_at: now,
            metadata,
            supply: SeriesSupply { total: quantity, circulating: 0 },
            price: p,
            campground_fee_near: fee,
            creator_royalty_near: creator_royalty,
        };
        let ghost before = *self;
        self.trails_metadata_by_id.push(series);
        self.tokens_by_id.push(Vec::new());
        self.nonmintable_trails.push(false);
        proof {
            let after = *self;
            assert forall|k: int| 0 <= k < n implies #[trigger] after.copies(k) == before.copies(
                k,
            ) by {
                assert(after.tokens_by_id@[k] == before.tokens_by_id@[k]);
            }
            assert forall|k: int| 0 <= k < after.series().len() implies {
                &&& #[trigger] after.series()[k].supply.circulating == after.copies(k).len()
                &&& after.series()[k].supply.circulating <= after.series()[k].supply.total
                &&& after.series()[k].supply.circulating == after.series()[k].supply.total
                    ==> !after.series()[k].is_mintable
            } by {
                if k < n {
                    assert(after.series()[k] == before.series()[k]);
                    assert(before.series()[k].supply.circulating == before.copies(k).len());
                }
            }
            assert forall|k: int, m: int| after.copy_exists(k, m) implies #[trigger] after.copies(
                k,
            )[m].token_id@ == series_id_of(k) by {
                assert(before.copy_exists(k, m));
            }
            assert forall|a: Seq<char>, t: (usize, usize)| #[trigger]
                crate::ledger::holds(after.tokens_per_owner@, a, t) implies after.copy_exists(
                t.0 as int,
                t.1 as int,
            ) && after.owner_of(t.0 as int, t.1 as int) == a by {
                assert(before.copy_exists(t.0 as int, t.1 as int));
            }
            assert forall|k: int, m: int| after.copy_exists(k, m) implies crate::ledger::holds(
                after.tokens_per_owner@,
                #[trigger] after.owner_of(k, m),
                (k as usize, m as usize),
            ) by {
                assert(before.copy_exists(k, m));
                assert(after.owner_of(k, m) == before.owner_of(k, m));
            }
        }
        let stored = &self.trails_metadata_by_id[n];
        let view = format_json_trail(
            decimal_string(n as u128 + 1),
            stored.creator_id.clone(),
            copy_series(stored),
            partial_metadata_from_trail_series(stored),
            false,
        );
        Ok(view)
    }
}

} // verus!
