//! Moving copies between owners, and reading a copy back.
use vstd::prelude::*;
use crate::error::CampgroundError;
use crate::ledger::{add_token, copy_indices, holds, remove_token, Contract};
use crate::metadata::{
    copy_business, copy_series, copy_token_metadata, same_copy, same_series, same_token_metadata,
    JsonTrail, NFTContractMetadata, TrailBusiness,
};

verus! {

/// `new` is `old` after copy (`i`, `j`) moved from `sender` to `receiver`.
pub open spec fn transferred(
    old: &Contract,
    new: &Contract,
    i: int,
    j: int,
    sender: Seq<char>,
    receiver: Seq<char>,
) -> bool {
    &&& new.series() == old.series()
    &&& new.nonmintable_trails@ == old.nonmintable_trails@
    &&& new.same_config(old)
    &&& new.tokens_by_id@.len() == old.tokens_by_id@.len()
    &&& forall|k: int| 0 <= k < old.series().len() && k != i ==> #[trigger] new.copies(k) == old.copies(k)
    &&& new.copies(i).len() == old.copies(i).len()
    &&& forall|m: int| 0 <= m < old.copies(i).len() && m != j ==> #[trigger] new.copies(i)[m] == old.copies(i)[m]
    &&& new.copies(i)[j].owner_id@ == receiver
    &&& new.copies(i)[j].token_id == old.copies(i)[j].token_id
    &&& new.copies(i)[j].partial_metadata == old.copies(i)[j].partial_metadata
    &&& forall|a: Seq<char>, t: (usize, usize)|
        #[trigger] holds(new.tokens_per_owner@, a, t) <==> ((holds(old.tokens_per_owner@, a, t) && !(a
            == sender && t == (i as usize, j as usize))) || (a == receiver && t == (i as usize, j as usize)))
}

impl Contract {
    /// Moves copy `trail_id` from `sender_id`, its owner, to `receiver_id`.
    /// Returns the copy's record as it was before the move, and as it is after.
    pub(crate) fn internal_transfer(
        &mut self,
        sender_id: &String,
        receiver_id: &String,
        trail_id: &String,
    ) -> (r: Result<(TrailBusiness, TrailBusiness), CampgroundError>)
        requires
            old(self).wf(),
        ensures
            final(self).wf(),
            match r {
                Ok((old_copy, new_copy)) => {
                    let (i, j) = copy_indices(trail_id@);
                    &&& old(self).has_copy(trail_id@)
                    &&& sender_id@ == old(self).owner_of(i, j)
                    &&& receiver_id@ != old(self).owner_of(i, j)
                    &&& transferred(old(self), final(self), i, j, sender_id@, receiver_id@)
                    &&& same_copy(old_copy, old(self).copies(i)[j])
                    &&& same_copy(new_copy, final(self).copies(i)[j])
                },
                Err(e) => {
                    let (i, j) = copy_indices(trail_id@);
                    &&& *final(self) == *old(self)
                    &&& e == if !old(self).has_copy(trail_id@) {
                        CampgroundError::NotFound
                    } else if sender_id@ != old(self).owner_of(i, j) {
                        CampgroundError::Unauthorized
                    } else {
                        CampgroundError::InvalidArgument
                    }
                    &&& old(self).has_copy(trail_id@) && sender_id@ == old(self).owner_of(i, j)
                        ==> receiver_id@ == old(self).owner_of(i, j)
                },
            },
    {
        let (i, j) = match self.copy_index(trail_id) {
            Some(p) => p,
            None => {
                return Err(CampgroundError::NotFound);
            },
        };
        if *sender_id != self.tokens_by_id[i][j].owner_id {
            return Err(CampgroundError::Unauthorized);
        }
        if *receiver_id == self.tokens_by_id[i][j].owner_id {
            return Err(CampgroundError::InvalidArgument);
        }
        let ghost before = *self;
        assert(before.wf());
        proof {
            assert(holds(before.tokens_per_owner@, before.owner_of(i as int, j as int), (i, j)));
        }
        remove_token(&mut self.tokens_per_owner, sender_id, (i, j));
        proof {
            if holds(before.tokens_per_owner@, receiver_id@, (i, j)) {
                assert(before.owner_of(i as int, j as int) == receiver_id@);
            }
        }
        add_token(&mut self.tokens_per_owner, receiver_id, (i, j));

        let mut copies = self.tokens_by_id.remove(i);
        let ghost old_copies = copies@;
        let mut copy = copies.remove(j);
        let old_copy = copy_business(&copy);
        copy.owner_id = receiver_id.clone();
        let new_copy = copy_business(&copy);
        copies.insert(j, copy);
        assert(copies@ =~= old_copies.update(j as int, copies@[j as int]));
        self.tokens_by_id.insert(i, copies);
        assert(self.tokens_by_id@ =~= before.tokens_by_id@.update(
            i as int,
            self.tokens_by_id@[i as int],
        ));

        proof {
            let after = *self;
            assert forall|k: int|
                0 <= k < after.series().len() && k != i implies #[trigger] after.copies(k)
                == before.copies(k) by {}
            assert forall|k: int| 0 <= k < after.series().len() implies {
                &&& #[trigger] after.series()[k].supply.circulating == after.copies(k).len()
                &&& after.series()[k].supply.circulating <= after.series()[k].supply.total
                &&& after.series()[k].supply.circulating == after.series()[k].supply.total
                    ==> !after.series()[k].is_mintable
            } by {
                assert(before.series()[k].supply.circulating == before.copies(k).len());
            }
            assert forall|k: int, m: int| after.copy_exists(k, m) implies #[trigger] after.copies(
                k,
            )[m].token_id@ == crate::ledger::series_id_of(k) by {
                assert(before.copy_exists(k, m));
                assert(before.copies(k)[m].token_id@ == crate::ledger::series_id_of(k));
            }
            assert forall|a: Seq<char>, t: (usize, usize)| #[trigger]
                holds(after.tokens_per_owner@, a, t) implies after.copy_exists(
                t.0 as int,
                t.1 as int,
            ) && after.owner_of(t.0 as int, t.1 as int) == a by {
                if t != (i, j) {
                    assert(holds(before.tokens_per_owner@, a, t));
                    assert(before.copy_exists(t.0 as int, t.1 as int));
                    assert(before.owner_of(t.0 as int, t.1 as int) == a);
                    if t.0 == i {
                        assert(after.copies(i as int)[t.1 as int] == before.copies(i as int)[t.1 as int]);
                    }
                } else if a != receiver_id@ {
                    assert(holds(before.tokens_per_owner@, a, t));
                    assert(before.owner_of(i as int, j as int) == a);
                }
            }
            assert forall|k: int, m: int| after.copy_exists(k, m) implies holds(
                after.tokens_per_owner@,
                #[trigger] after.owner_of(k, m),
                (k as usize, m as usize),
            ) by {
                if k != i || m != j {
                    assert(before.copy_exists(k, m));
                    if k == i {
                        assert(after.copies(k)[m] == before.copies(k)[m]);
                    }
                    assert(before.tokens_by_id.len() == before.tokens_by_id@.len());
                    assert(before.tokens_by_id@[k].len() == before.copies(k).len());
                    assert((k as usize, m as usize) != (i, j));
                    assert(holds(before.tokens_per_owner@, before.owner_of(k, m), (k as usize, m as usize)));
                } else {
                    assert(after.owner_of(k, m) == receiver_id@);
                    assert((k as usize, m as usize) == (i, j));
                }
            }
        }
        Ok((old_copy, new_copy))
    }

    /// Transfers copy `token_id`, held by `caller`, to `receiver_id`.
    pub fn nft_transfer(
        &mut self,
        caller: &String,
        receiver_id: &String,
        token_id: &String,
        memo: Option<String>,
    ) -> (r: Result<(), CampgroundError>)
        requires
            old(self).wf(),
        ensures
            final(self).wf(),
            match r {
                Ok(()) => {
                    let (i, j) = copy_indices(token_id@);
                    &&& old(self).has_copy(token_id@)
                    &&& caller@ == old(self).owner_of(i, j)
                    &&& receiver_id@ != old(self).owner_of(i, j)
                    &&& transferred(old(self), final(self), i, j, caller@, receiver_id@)
                },
                Err(e) => {
                    let (i, j) = copy_indices(token_id@);
                    &&& *final(self) == *old(self)
                    &&& e == if !old(self).has_copy(token_id@) {
                        CampgroundError::NotFound
                    } else if caller@ != old(self).owner_of(i, j) {
                        CampgroundError::Unauthorized
                    } else {
                        CampgroundError::InvalidArgument
                    }
                    &&& old(self).has_copy(token_id@) && caller@ == old(self).owner_of(i, j)
                        ==> receiver_id@ == old(self).owner_of(i, j)
                },
            },
    {
        match self.internal_transfer(caller, receiver_id, token_id) {
            Ok(_) => Ok(()),
            Err(e) => Err(e),
        }
    }

    /// The composed view of copy `token_id`, if it exists: its owner, its
    /// series, and its display snapshot.
    pub fn nft_token(&self, token_id: String) -> (r: Option<JsonTrail>)
        requires
            self.wf(),
        ensures
            match r {
                Some(view) => {
                    let (i, j) = copy_indices(token_id@);
                    &&& self.has_copy(token_id@)
                    &&& view.token_id == token_id
                    &&& view.owner_id@ == self.owner_of(i, j)
                    &&& same_series(view.series, self.series()[i])
                    &&& same_token_metadata(view.metadata, self.copies(i)[j].partial_metadata)
                },
                None => !self.has_copy(token_id@),
            },
    {
        match self.copy_index(&token_id) {
            Some((i, j)) => {
                let copy = &self.tokens_by_id[i][j];
                Some(
                    JsonTrail {
                        token_id,
                        owner_id: copy.owner_id.clone(),
                        series: copy_series(&self.trails_metadata_by_id[i]),
                        metadata: copy_token_metadata(&copy.partial_metadata),
                    },
                )
            },
            None => None,
        }
    }

    /// Metadata of the ledger itself.
    pub fn nft_metadata(&self) -> (r: &NFTContractMetadata)
        ensures
            *r == self.metadata,
    {
        &self.metadata
    }
}

} // verus!
