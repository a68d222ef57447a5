//! Minting copies of a series, and selling them.
use vstd::prelude::*;
use crate::error::CampgroundError;
use crate::event::{is_mint_event, price_memo, price_memo_text, NearEvent};
use crate::ids::{decimal_string, format_copy_id};
use crate::ledger::{add_token, copy_key_id, holds, id_index, series_id_of, Contract};
use crate::metadata::{is_snapshot, partial_metadata_from_trail_series, TrailBusiness, TrailSeries, TrailSeriesMetadata};
use crate::storage::Transfer;

verus! {

/// What a buyer pays for a series, and the platform's part of it: the price
/// where it exceeds the fee, else the fee itself.
pub open spec fn price_and_fee(price: u128, fee: u128) -> (u128, u128) {
    if price > fee {
        (price, fee)
    } else {
        (fee, fee)
    }
}

/// The validity window of `m`, if it has one, holds the time `now`.
pub open spec fn window_open(m: TrailSeriesMetadata, now: u64) -> bool {
    &&& (m.starts_at is Some ==> m.starts_at->0 <= now)
    &&& (m.expires_at is Some ==> now < m.expires_at->0)
}

/// Buyers may mint series `i` at time `now`.
pub open spec fn buyable(c: &Contract, i: int, now: u64) -> bool {
    &&& !c.blocked(i)
    &&& c.series()[i].is_mintable
    &&& window_open(c.series()[i].metadata, now)
}

/// `new` is `old` after minting the next copy of series `i` to `receiver`.
pub open spec fn minted(old: &Contract, new: &Contract, i: int, receiver: Seq<char>) -> bool {
    let s = old.series()[i];
    let n = s.supply.circulating as int;
    &&& n < s.supply.total
    &&& new.series().len() == old.series().len()
    &&& forall|k: int| 0 <= k < old.series().len() && k != i ==> #[trigger] new.series()[k] == old.series()[k]
    &&& new.series()[i] == (TrailSeries {
        supply: crate::metadata::SeriesSupply { circulating: (n + 1) as u64, ..s.supply },
        is_mintable: n + 1 < s.supply.total,
        ..s
    })
    &&& new.tokens_by_id@.len() == old.tokens_by_id@.len()
    &&& forall|k: int| 0 <= k < old.series().len() && k != i ==> #[trigger] new.copies(k) == old.copies(k)
    &&& new.copies(i).len() == n + 1
    &&& new.copies(i).subrange(0, n) == old.copies(i)
    &&& new.copies(i)[n].owner_id@ == receiver
    &&& new.copies(i)[n].token_id@ == series_id_of(i)
    &&& is_snapshot(new.copies(i)[n].partial_metadata, new.series()[i])
    &&& forall|a: Seq<char>, t: (usize, usize)|
        #[trigger] holds(new.tokens_per_owner@, a, t) <==> (holds(old.tokens_per_owner@, a, t) || (a
            == receiver && t == (i as usize, n as usize)))
    &&& new.nonmintable_trails@ == old.nonmintable_trails@
    &&& new.same_config(old)
}

/// Price and platform fee of `trail_series`, as `price_and_fee` states.
pub fn get_price_and_fee(trail_series: &TrailSeries) -> (r: (u128, u128))
    ensures
        r == price_and_fee(trail_series.price, trail_series.campground_fee_near),
{
    if trail_series.price > trail_series.campground_fee_near {
        (trail_series.price, trail_series.campground_fee_near)
    } else {
        (trail_series.campground_fee_near, trail_series.campground_fee_near)
    }
}

/// A completed purchase: the copy minted, the payments the host must make,
/// and the notification to log.
#[derive(Debug)]
pub struct Sale {
    pub token_id: String,
    pub transfers: Vec<Transfer>,
    pub event: NearEvent,
}

impl Contract {
    /// Mints the next copy of series `series_id` to `receiver_id`. Returns the
    /// copy id, `"{series}:{n}"` for the n-th copy, and the notification to
    /// log. The mint that reaches the supply closes the series.
    pub(crate) fn nft_internal_mint_series(&mut self, series_id: &String, receiver_id: &String) -> (r:
        Result<(String, NearEvent), CampgroundError>)
        requires
            old(self).wf(),
        ensures
            final(self).wf(),
            match r {
                Ok((copy_id, event)) => {
                    let i = id_index(series_id@);
                    let n = old(self).series()[i].supply.circulating as int;
                    &&& old(self).has_series(series_id@)
                    &&& old(self).series()[i].is_mintable
                    &&& minted(old(self), final(self), i, receiver_id@)
                    &&& copy_id@ == copy_key_id(i, n)
                    &&& is_mint_event(
                        event,
                        receiver_id@,
                        copy_id@,
                        price_memo_text(old(self).series()[i].price),
                    )
                },
                Err(e) => {
                    &&& *final(self) == *old(self)
                    &&& e == if !old(self).has_series(series_id@) {
                        CampgroundError::NotFound
                    } else {
                        CampgroundError::NotMintable
                    }
                    &&& old(self).has_series(series_id@) ==> !old(self).series()[id_index(
                        series_id@,
                    )].is_mintable
                },
            },
    {
        let i = match self.series_index(series_id) {
            Some(i) => i,
            None => {
                return Err(CampgroundError::NotFound);
            },
        };
        if !self.trails_metadata_by_id[i].is_mintable {
            return Err(CampgroundError::NotMintable);
        }
        let ghost before = *self;
        assert(before.wf());
        let count = self.trails_metadata_by_id.len();
        let copies_len = self.tokens_by_id[i].len();
        let n = self.trails_metadata_by_id[i].supply.circulating;
        let total = self.trails_metadata_by_id[i].supply.total;
        assert(n < total && n == copies_len) by {
            assert(before.series()[i as int].supply.circulating == before.copies(i as int).len());
        }
        let mut series = self.trails_metadata_by_id.remove(i);
        series.supply.circulating = n + 1;
        if n + 1 >= total {
            series.is_mintable = false;
        }
        self.trails_metadata_by_id.insert(i, series);
        let ghost new_series = before.series()[i as int];
        assert(self.trails_metadata_by_id@ =~= before.trails_metadata_by_id@.update(
            i as int,
            self.trails_metadata_by_id@[i as int],
        ));

        let ownership_id = format_copy_id((i + 1) as u64, n + 1);
        let token = TrailBusiness {
            owner_id: receiver_id.clone(),
            token_id: decimal_string((i + 1) as u128),
            partial_metadata: partial_metadata_from_trail_series(&self.trails_metadata_by_id[i]),
        };
        let mut copies = self.tokens_by_id.remove(i);
        let ghost old_copies = copies@;
        copies.push(token);
        self.tokens_by_id.insert(i, copies);
        assert(self.tokens_by_id@ =~= before.tokens_by_id@.update(
            i as int,
            self.tokens_by_id@[i as int],
        ));
        assert(self.copies(i as int).subrange(0, n as int) =~= before.copies(i as int));

        proof {
            assert(before.copies(i as int).len() == n);
            if holds(before.tokens_per_owner@, receiver_id@, (i, copies_len)) {
                assert(before.copy_exists(i as int, n as int));
            }
        }
        add_token(&mut self.tokens_per_owner, receiver_id, (i, copies_len));

        proof {
            let after = *self;
            assert forall|k: int|
                0 <= k < after.series().len() implies #[trigger] after.copies(k) == if k == i {
                after.copies(i as int)
            } else {
                before.copies(k)
            } by {}
            assert forall|k: int| 0 <= k < after.series().len() implies {
                &&& #[trigger] after.series()[k].supply.circulating == after.copies(k).len()
                &&& after.series()[k].supply.circulating <= after.series()[k].supply.total
                &&& after.series()[k].supply.circulating == after.series()[k].supply.total
                    ==> !after.series()[k].is_mintable
            } by {
                if k != i {
                    assert(before.series()[k].supply.circulating == before.copies(k).len());
                }
            }
            assert forall|k: int, j: int| after.copy_exists(k, j) implies #[trigger] after.copies(
                k,
            )[j].token_id@ == series_id_of(k) by {
                if k != i || j < n {
                    assert(before.copy_exists(k, j));
                    if k == i {
                        assert(after.copies(k)[j] == before.copies(k)[j]);
                    }
                    assert(before.copies(k)[j].token_id@ == series_id_of(k));
                }
            }
            assert forall|a: Seq<char>, t: (usize, usize)| #[trigger]
                holds(after.tokens_per_owner@, a, t) implies after.copy_exists(
                t.0 as int,
                t.1 as int,
            ) && after.owner_of(t.0 as int, t.1 as int) == a by {
                if holds(before.tokens_per_owner@, a, t) {
                    assert(before.copy_exists(t.0 as int, t.1 as int));
                    assert(before.owner_of(t.0 as int, t.1 as int) == a);
                    if t.0 as int == i {
                        assert(after.copies(i as int)[t.1 as int] == before.copies(i as int)[t.1 as int]);
                    }
                }
            }
            assert forall|k: int, j: int| after.copy_exists(k, j) implies holds(
                after.tokens_per_owner@,
                #[trigger] after.owner_of(k, j),
                (k as usize, j as usize),
            ) by {
                if k != i || j < n {
                    assert(before.copy_exists(k, j));
                    if k == i {
                        assert(after.copies(k)[j] == before.copies(k)[j]);
                    }
                    assert(holds(before.tokens_per_owner@, before.owner_of(k, j), (k as usize, j as usize)));
                }
            }
        }

        let price = self.trails_metadata_by_id[i].price;
        let event = NearEvent::log_nft_mint(
            receiver_id.clone(),
            vec![ownership_id.clone()],
            Some(price_memo(price)),
        );
        Ok((ownership_id, event))
    }

    /// Price a buyer pays for a copy of series `trail_series_id`.
    pub fn nft_get_series_price(&self, trail_series_id: &String) -> (r: Result<u128, CampgroundError>)
        ensures
            match r {
                Ok(p) => self.has_series(trail_series_id@) && p == price_and_fee(
                    self.series()[id_index(trail_series_id@)].price,
                    self.series()[id_index(trail_series_id@)].campground_fee_near,
                ).0,
                Err(e) => e == CampgroundError::NotFound && !self.has_series(trail_series_id@),
            },
    {
        match self.series_index(trail_series_id) {
            Some(i) => Ok(get_price_and_fee(&self.trails_metadata_by_id[i]).0),
            None => Err(CampgroundError::NotFound),
        }
    }

    /// Buys the next copy of series `trail_series_id` for `receiver_id`, at
    /// time `now`, paying `attached_deposit`, which must equal the price
    /// exactly. The creator gets the price less the fee, when that is above
    /// zero; the treasury gets the fee.
    pub fn nft_buy_series(
        &mut self,
        trail_series_id: &String,
        receiver_id: &String,
        attached_deposit: u128,
        now: u64,
    ) -> (r: Result<Sale, CampgroundError>)
        requires
            old(self).wf(),
        ensures
            final(self).wf(),
            match r {
                Ok(sale) => {
                    let i = id_index(trail_series_id@);
                    let s = old(self).series()[i];
                    let (price, fee) = price_and_fee(s.price, s.campground_fee_near);
                    &&& old(self).has_series(trail_series_id@)
                    &&& attached_deposit == price
                    &&& buyable(old(self), i, now)
                    &&& minted(old(self), final(self), i, receiver_id@)
                    &&& sale.token_id@ == copy_key_id(i, s.supply.circulating as int)
                    &&& is_mint_event(sale.event, receiver_id@, sale.token_id@, price_memo_text(s.price))
                    &&& sale.transfers@.len() == if price > fee { 2int } else { 1int }
                    &&& price > fee ==> sale.transfers@[0].receiver_id == s.creator_id
                        && sale.transfers@[0].amount == price - fee
                    &&& sale.transfers@.last().receiver_id == old(self).campground_treasury_address
                    &&& sale.transfers@.last().amount == fee
                },
                Err(e) => {
                    let i = id_index(trail_series_id@);
                    let s = old(self).series()[i];
                    &&& *final(self) == *old(self)
                    &&& e == if !old(self).has_series(trail_series_id@) {
                        CampgroundError::NotFound
                    } else if attached_deposit != price_and_fee(s.price, s.campground_fee_near).0 {
                        CampgroundError::InsufficientPayment
                    } else {
                        CampgroundError::NotMintable
                    }
                    &&& old(self).has_series(trail_series_id@) && attached_deposit == price_and_fee(
                        s.price,
                        s.campground_fee_near,
                    ).0 ==> !buyable(old(self), i, now)
                },
            },
    {
        let i = match self.series_index(trail_series_id) {
            Some(i) => i,
            None => {
                return Err(CampgroundError::NotFound);
            },
        };
        let (price, fee) = get_price_and_fee(&self.trails_metadata_by_id[i]);
        if attached_deposit != price {
            return Err(CampgroundError::InsufficientPayment);
        }
        if self.nonmintable_trails[i] || !self.trails_metadata_by_id[i].is_mintable {
            return Err(CampgroundError::NotMintable);
        }
        match self.trails_metadata_by_id[i].metadata.starts_at {
            Some(start) => {
                if now < start {
                    return Err(CampgroundError::NotMintable);
                }
            },
            None => {},
        }
        match self.trails_metadata_by_id[i].metadata.expires_at {
            Some(end) => {
                if now >= end {
                    return Err(CampgroundError::NotMintable);
                }
            },
            None => {},
        }
        let creator = self.trails_metadata_by_id[i].creator_id.clone();
        let price_after_fee = price - fee;
        let (token_id, event) = match self.nft_internal_mint_series(trail_series_id, receiver_id) {
            Ok(minted) => minted,
            Err(e) => {
                return Err(e);
            },
        };
        let mut transfers: Vec<Transfer> = Vec::new();
        if price_after_fee > 0 {
            transfers.push(Transfer { receiver_id: creator, amount: price_after_fee });
        }
        transfers.push(
            Transfer { receiver_id: self.campground_treasury_address.clone(), amount: fee },
        );
        Ok(Sale { token_id, transfers, event })
    }

    /// Mints the next copy of series `token_id` to `receiver_id`, without
    /// payment; only the series' creator (`caller`) may.
    pub fn nft_mint(&mut self, caller: &String, token_id: &String, receiver_id: &String) -> (r:
        Result<(String, NearEvent), CampgroundError>)
        requires
            old(self).wf(),
        ensures
            final(self).wf(),
            match r {
                Ok((copy_id, event)) => {
                    let i = id_index(token_id@);
                    let s = old(self).series()[i];
                    &&& old(self).has_series(token_id@)
                    &&& caller@ == s.creator_id@
                    &&& s.is_mintable
                    &&& minted(old(self), final(self), i, receiver_id@)
                    &&& copy_id@ == copy_key_id(i, s.supply.circulating as int)
                    &&& is_mint_event(event, receiver_id@, copy_id@, price_memo_text(s.price))
                },
                Err(e) => {
                    let s = old(self).series()[id_index(token_id@)];
                    &&& *final(self) == *old(self)
                    &&& e == if !old(self).has_series(token_id@) {
                        CampgroundError::NotFound
                    } else if caller@ != s.creator_id@ {
                        CampgroundError::Unauthorized
                    } else {
                        CampgroundError::NotMintable
                    }
                    &&& old(self).has_series(token_id@) && caller@ == s.creator_id@ ==> !s.is_mintable
                },
            },
    {
        let i = match self.series_index(token_id) {
            Some(i) => i,
            None => {
                return Err(CampgroundError::NotFound);
            },
        };
        if *caller != self.trails_metadata_by_id[i].creator_id {
            return Err(CampgroundError::Unauthorized);
        }
        self.nft_internal_mint_series(token_id, receiver_id)
    }
}

} // verus!
