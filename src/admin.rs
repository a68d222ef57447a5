//! Changes that only the ledger's owner may make: fee parameters, treasury
//! address and settings.
use vstd::prelude::*;
use crate::error::CampgroundError;
use crate::ledger::{keys_unique, setting, Contract};

verus! {

/// The invariant rests on the collections and the settings alone.
proof fn lemma_wf_frame(a: &Contract, b: &Contract)
    requires
        a.wf(),
        b.tokens_per_owner@ == a.tokens_per_owner@,
        b.tokens_by_id@ == a.tokens_by_id@,
        b.trails_metadata_by_id@ == a.trails_metadata_by_id@,
        b.nonmintable_trails@ == a.nonmintable_trails@,
        keys_unique(b.settings@),
    ensures
        b.wf(),
{
    assert forall|i: int| 0 <= i < b.series().len() implies #[trigger] b.copies(i) == a.copies(i) by {}
    assert forall|i: int, j: int| b.copy_exists(i, j) implies #[trigger] b.owner_of(i, j) == a.owner_of(
        i,
        j,
    ) by {}
}

/// Position of setting `key`, if it is set.
fn find_setting(settings: &Vec<(String, String)>, key: &String) -> (r: Option<usize>)
    ensures
        match r {
            Some(k) => k < settings@.len() && settings@[k as int].0@ == key@,
            None => forall|m: int| 0 <= m < settings@.len() ==> settings@[m].0@ != key@,
        },
{
    let mut k: usize = 0;
    while k < settings.len()
        invariant
            k <= settings@.len(),
            forall|m: int| 0 <= m < k ==> settings@[m].0@ != key@,
        decreases settings.len() - k,
    {
        if settings[k].0 == *key {
            return Some(k);
        }
        k += 1;
    }
    None
}

impl Contract {
    /// Whether `caller` owns the ledger.
    pub fn is_caller_contract_owner(&self, caller: &String) -> (r: bool)
        ensures
            r == (caller@ == self.owner_id@),
    {
        *caller == self.owner_id
    }

    /// Refuses a caller other than the ledger's owner.
    pub fn require_contract_owner(&self, caller: &String) -> (r: Result<(), CampgroundError>)
        ensures
            r is Ok <==> caller@ == self.owner_id@,
            r is Err ==> r == Err::<(), CampgroundError>(CampgroundError::Unauthorized),
    {
        if self.is_caller_contract_owner(caller) {
            Ok(())
        } else {
            Err(CampgroundError::Unauthorized)
        }
    }

    /// Sets the fee percentage that new series are priced with.
    pub fn change_campground_fee(&mut self, caller: &String, fee: u64) -> (r: Result<(), CampgroundError>)
        requires
            old(self).wf(),
        ensures
            final(self).wf(),
            r is Ok <==> caller@ == old(self).owner_id@,
            r is Ok ==> *final(self) == (Contract { campground_fee: fee, ..*old(self) }),
            r is Err ==> *final(self) == *old(self) && r == Err::<(), CampgroundError>(
                CampgroundError::Unauthorized,
            ),
    {
        self.require_contract_owner(caller)?;
        let ghost before = *self;
        self.campground_fee = fee;
        proof {
            lemma_wf_frame(&before, self);
        }
        Ok(())
    }

    /// Sets the account that receives the fees.
    pub fn change_campground_treasury_address(&mut self, caller: &String, addr: String) -> (r:
        Result<(), CampgroundError>)
        requires
            old(self).wf(),
        ensures
            final(self).wf(),
            r is Ok <==> caller@ == old(self).owner_id@,
            r is Ok ==> *final(self) == (Contract { campground_treasury_address: addr, ..*old(self) }),
            r is Err ==> *final(self) == *old(self) && r == Err::<(), CampgroundError>(
                CampgroundError::Unauthorized,
            ),
    {
        self.require_contract_owner(caller)?;
        let ghost before = *self;
        self.campground_treasury_address = addr;
        proof {
            lemma_wf_frame(&before, self);
        }
        Ok(())
    }

    /// Sets the lowest fee that new series are priced with, in yoctoNEAR.
    pub fn change_campground_minimum_fee(&mut self, caller: &String, fee: u128) -> (r: Result<
        (),
        CampgroundError,
    >)
        requires
            old(self).wf(),
        ensures
            final(self).wf(),
            r is Ok <==> caller@ == old(self).owner_id@,
            r is Ok ==> *final(self) == (Contract {
                campground_minimum_fee_yocto_near: fee,
                ..*old(self)
            }),
            r is Err ==> *final(self) == *old(self) && r == Err::<(), CampgroundError>(
                CampgroundError::Unauthorized,
            ),
    {
        self.require_contract_owner(caller)?;
        let ghost before = *self;
        self.campground_minimum_fee_yocto_near = fee;
        proof {
            lemma_wf_frame(&before, self);
        }
        Ok(())
    }

    /// Sets setting `key` to `value`, replacing any earlier value.
    pub fn add_setting(&mut self, caller: &String, key: String, value: String) -> (r: Result<
        (),
        CampgroundError,
    >)
        requires
            old(self).wf(),
        ensures
            final(self).wf(),
            r is Ok <==> caller@ == old(self).owner_id@,
            r is Ok ==> *final(self) == (Contract { settings: final(self).settings, ..*old(self) }),
            r is Ok ==> forall|k: Seq<char>, v: Seq<char>|
                #[trigger] setting(final(self).settings@, k, v) <==> if k == key@ {
                    v == value@
                } else {
                    setting(old(self).settings@, k, v)
                },
            r is Err ==> *final(self) == *old(self) && r == Err::<(), CampgroundError>(
                CampgroundError::Unauthorized,
            ),
    {
        self.require_contract_owner(caller)?;
        let ghost before = self.settings@;
        let ghost start = *self;
        let ghost key_view = key@;
        let ghost value_view = value@;
        let found = find_setting(&self.settings, &key);
        if let Some(k) = found {
            self.settings.remove(k);
            self.settings.insert(k, (key, value));
            assert(self.settings@ =~= before.update(k as int, self.settings@[k as int]));
            proof {
                let after = self.settings@;
                assert forall|k1: int, k2: int|
                    0 <= k1 < after.len() && 0 <= k2 < after.len() && k1 != k2 implies #[trigger] after[k1].0@
                    != #[trigger] after[k2].0@ by {
                    if k1 != k && k2 != k {
                        assert(before[k1].0@ != before[k2].0@);
                    } else if k1 == k {
                        assert(before[k1].0@ != before[k2].0@);
                    } else {
                        assert(before[k1].0@ != before[k2].0@);
                    }
                }
                assert forall|kk: Seq<char>, v: Seq<char>| #[trigger]
                    setting(after, kk, v) <==> if kk == key_view {
                        v == value_view
                    } else {
                        setting(before, kk, v)
                    } by {
                    if setting(after, kk, v) {
                        let m = choose|m: int|
                            0 <= m < after.len() && #[trigger] after[m].0@ == kk && after[m].1@ == v;
                        if m != k && kk == key_view {
                            assert(before[m].0@ != before[k as int].0@);
                        }
                        if m != k {
                            assert(before[m] == after[m]);
                        }
                    }
                    if kk == key_view && v == value_view {
                        assert(after[k as int].0@ == kk);
                    }
                    if kk != key_view && setting(before, kk, v) {
                        let m = choose|m: int|
                            0 <= m < before.len() && #[trigger] before[m].0@ == kk && before[m].1@
                                == v;
                        assert(after[m] == before[m]);
                        assert(after[m].0@ == kk);
                    }
                }
            }
        } else {
            self.settings.push((key, value));
            proof {
                let after = self.settings@;
                assert forall|k1: int, k2: int|
                    0 <= k1 < after.len() && 0 <= k2 < after.len() && k1 != k2 implies #[trigger] after[k1].0@
                    != #[trigger] after[k2].0@ by {
                    if k1 < before.len() && k2 < before.len() {
                        assert(before[k1].0@ != before[k2].0@);
                    }
                }
                assert forall|kk: Seq<char>, v: Seq<char>| #[trigger]
                    setting(after, kk, v) <==> if kk == key_view {
                        v == value_view
                    } else {
                        setting(before, kk, v)
                    } by {
                    if setting(after, kk, v) {
                        let m = choose|m: int|
                            0 <= m < after.len() && #[trigger] after[m].0@ == kk && after[m].1@ == v;
                        if m < before.len() {
                            assert(before[m] == after[m]);
                        }
                    }
                    if kk == key_view && v == value_view {
                        assert(after[before.len() as int].0@ == kk);
                    }
                    if kk != key_view && setting(before, kk, v) {
                        let m = choose|m: int|
                            0 <= m < before.len() && #[trigger] before[m].0@ == kk && before[m].1@
                                == v;
                        assert(after[m] == before[m]);
                        assert(after[m].0@ == kk);
                    }
                }
            }
        }
        proof {
            lemma_wf_frame(&start, self);
        }
        Ok(())
    }
}

} // verus!
