//! Properties of the ledger that span several operations or every state.
use vstd::prelude::*;
use crate::ids::copy_id_of;
use crate::ledger::{copy_key_id, holds, Contract};
use crate::market::{buyable, minted, price_and_fee, window_open};
use crate::storage::{refund_due, storage_cost};
use crate::sub_admin::flags_set;

verus! {

/// Copies of a series are numbered in order: starting from a series with no
/// copies, the k-th mint brings the circulating count to k and names its copy
/// `"{series}:{k}"`.
pub proof fn lemma_sequential_copy_ids(states: Seq<Contract>, i: int, receivers: Seq<Seq<char>>)
    requires
        states.len() >= 1,
        receivers.len() == states.len() - 1,
        0 <= i < states[0].series().len(),
        states[0].series()[i].supply.circulating == 0,
        forall|m: int|
            0 <= m < states.len() - 1 ==> minted(
                &#[trigger] states[m],
                &states[m + 1],
                i,
                receivers[m],
            ),
    ensures
        forall|m: int|
            0 <= m < states.len() ==> (#[trigger] states[m]).series().len() == states[0].series().len(),
        forall|m: int|
            0 <= m < states.len() ==> #[trigger] states[m].series()[i].supply.circulating == m,
        forall|m: int|
            0 <= m < states.len() - 1 ==> copy_key_id(
                i,
                #[trigger] states[m].series()[i].supply.circulating as int,
            ) == copy_id_of((i + 1) as nat, (m + 1) as nat),
    decreases states.len(),
{
    if states.len() > 1 {
        let prefix = states.drop_last();
        assert forall|m: int| 0 <= m < prefix.len() - 1 implies minted(
            &#[trigger] prefix[m],
            &prefix[m + 1],
            i,
            receivers.drop_last()[m],
        ) by {
            assert(minted(&states[m], &states[m + 1], i, receivers[m]));
        }
        lemma_sequential_copy_ids(prefix, i, receivers.drop_last());
        let last = states.len() - 1;
        assert(prefix[last - 1] == states[last - 1]);
        assert(minted(&states[last - 1], &states[last], i, receivers[last - 1]));
        assert(prefix[0] == states[0]);
        assert(states[last - 1].series().len() == states[0].series().len());
        assert(states[last - 1].series()[i].supply.circulating == last - 1);
        assert forall|m: int| 0 <= m < states.len() implies (#[trigger] states[m]).series().len()
            == states[0].series().len() by {
            if m < last {
                assert(prefix[m] == states[m]);
            }
        }
        assert forall|m: int| 0 <= m < states.len() implies #[trigger] states[m].series()[
            i
        ].supply.circulating == m by {
            if m < last {
                assert(prefix[m] == states[m]);
            }
        }
    }
}

/// A series whose supply is used up cannot be minted or bought; the mint that
/// uses it up closes the series.
pub proof fn lemma_supply_closure(c: &Contract, i: int, now: u64)
    requires
        c.wf(),
        0 <= i < c.series().len(),
        c.series()[i].supply.circulating == c.series()[i].supply.total,
    ensures
        !c.series()[i].is_mintable,
        !buyable(c, i, now),
{
}

/// The mint that brings the circulating count to the supply clears the
/// series' mintable flag.
pub proof fn lemma_closing_mint(old: &Contract, new: &Contract, i: int, receiver: Seq<char>)
    requires
        minted(old, new, i, receiver),
        old.series()[i].supply.circulating + 1 == old.series()[i].supply.total,
    ensures
        !new.series()[i].is_mintable,
        new.series()[i].supply.circulating == new.series()[i].supply.total,
{
}

/// Every copy is listed in the owner index under exactly one account, its
/// owner's, and the index lists nothing else.
pub proof fn lemma_index_consistency(c: &Contract)
    requires
        c.wf(),
    ensures
        forall|i: int, j: int, a: Seq<char>|
            c.copy_exists(i, j) ==> (#[trigger] holds(c.tokens_per_owner@, a, (i as usize, j as usize))
                <==> a == c.owner_of(i, j)),
        forall|a: Seq<char>, t: (usize, usize)|
            #[trigger] holds(c.tokens_per_owner@, a, t) ==> c.copy_exists(t.0 as int, t.1 as int),
{
    assert forall|i: int, j: int, a: Seq<char>| c.copy_exists(i, j) implies (#[trigger] holds(
        c.tokens_per_owner@,
        a,
        (i as usize, j as usize),
    ) <==> a == c.owner_of(i, j)) by {
        assert(c.tokens_by_id.len() == c.tokens_by_id@.len());
        assert(c.tokens_by_id@[i].len() == c.copies(i).len());
        assert(holds(c.tokens_per_owner@, c.owner_of(i, j), (i as usize, j as usize)));
        if holds(c.tokens_per_owner@, a, (i as usize, j as usize)) {
            assert(c.owner_of((i as usize) as int, (j as usize) as int) == a);
        }
    }
}

/// Blocking a series stops buyers from minting it, with its supply and
/// mintable flag untouched; unblocking it makes it buyable again whenever its
/// own state allows.
pub proof fn lemma_blocked_gate(old: &Contract, new: &Contract, i: int, blocked: bool, now: u64)
    requires
        0 <= i < old.series().len(),
        old.nonmintable_trails@.len() == old.series().len(),
        flags_set(old, new, old.nonmintable_trails@.update(i, blocked)),
    ensures
        new.series()[i] == old.series()[i],
        blocked ==> !buyable(new, i, now),
        !blocked ==> (buyable(new, i, now) <==> (old.series()[i].is_mintable && window_open(
            old.series()[i].metadata,
            now,
        ))),
{
}

/// A sale pays the creator the price less the fee and the treasury the fee,
/// and these add up to what the buyer pays. Where the price does not exceed
/// the fee, the buyer pays the fee and the creator gets nothing.
pub proof fn lemma_payment_split(price: u128, fee: u128)
    ensures
        ({
            let (paid, platform) = price_and_fee(price, fee);
            &&& platform == fee
            &&& (paid - platform) + platform == paid
            &&& price > fee ==> paid == price && paid - platform == price - fee
            &&& price <= fee ==> paid == fee && paid - platform == 0
        }),
{
}

/// Attaching exactly the storage cost leaves no refund; attaching more than
/// one yoctoNEAR over it refunds exactly the excess.
pub proof fn lemma_storage_reconciliation(storage_used: int, excess: int)
    requires
        storage_used >= 0,
        excess >= 0,
    ensures
        refund_due(storage_used, 0, storage_cost(storage_used)) == 0,
        excess > 1 ==> refund_due(storage_used, 0, storage_cost(storage_used) + excess) == excess,
        excess <= 1 ==> refund_due(storage_used, 0, storage_cost(storage_used) + excess) == 0,
{
}

} // verus!
