//! Blocking and unblocking series for buyers: allowed to a series' creator,
//! and to the sub-admin named in the settings.
use vstd::prelude::*;
use crate::error::CampgroundError;
use crate::ledger::{id_index, keys_unique, setting, Contract};
use crate::storage::{is_valid_account_id, valid_account_id};

verus! {

/// Setting that names the sub-admin account.
pub const SUB_ADMIN_ADDRESS: &'static str = "sub_admin_address";

/// `a` is the sub-admin: the setting names it, and it is a well-formed account id.
pub open spec fn is_subadmin(c: &Contract, a: Seq<char>) -> bool {
    setting(c.settings@, SUB_ADMIN_ADDRESS@, a) && valid_account_id(a)
}

/// `caller` may block or unblock series `i`.
pub open spec fn may_toggle(c: &Contract, caller: Seq<char>, i: int) -> bool {
    caller == c.series()[i].creator_id@ || is_subadmin(c, caller)
}

/// `new` is `old` with the blocked flags set to `flags`, and nothing else changed.
pub open spec fn flags_set(old: &Contract, new: &Contract, flags: Seq<bool>) -> bool {
    &&& new.nonmintable_trails@ == flags
    &&& new.tokens_per_owner@ == old.tokens_per_owner@
    &&& new.tokens_by_id@ == old.tokens_by_id@
    &&& new.trails_metadata_by_id@ == old.trails_metadata_by_id@
    &&& new.same_config(old)
}

proof fn lemma_flags_wf(a: &Contract, b: &Contract)
    requires
        a.wf(),
        b.tokens_per_owner@ == a.tokens_per_owner@,
        b.tokens_by_id@ == a.tokens_by_id@,
        b.trails_metadata_by_id@ == a.trails_metadata_by_id@,
        b.nonmintable_trails@.len() == a.nonmintable_trails@.len(),
        b.settings@ == a.settings@,
    ensures
        b.wf(),
{
    assert forall|i: int| 0 <= i < b.series().len() implies #[trigger] b.copies(i) == a.copies(i) by {}
    assert forall|i: int, j: int| b.copy_exists(i, j) implies #[trigger] b.owner_of(i, j) == a.owner_of(
        i,
        j,
    ) by {}
}

impl Contract {
    /// The sub-admin account, if the settings name a well-formed one.
    pub fn get_subadmin(&self) -> (r: Option<String>)
        requires
            self.wf(),
        ensures
            match r {
                Some(a) => is_subadmin(self, a@),
                None => forall|a: Seq<char>| !is_subadmin(self, a),
            },
    {
        let key = String::from_str(SUB_ADMIN_ADDRESS);
        let mut k: usize = 0;
        while k < self.settings.len()
            invariant
                k <= self.settings@.len(),
                self.wf(),
                key@ == SUB_ADMIN_ADDRESS@,
                forall|m: int| 0 <= m < k ==> self.settings@[m].0@ != key@,
            decreases self.settings.len() - k,
        {
            if self.settings[k].0 == key {
                let value = &self.settings[k].1;
                if is_valid_account_id(value) {
                    return Some(value.clone());
                }
                proof {
                    assert(keys_unique(self.settings@));
                    assert forall|a: Seq<char>| !is_subadmin(self, a) by {
                        if setting(self.settings@, SUB_ADMIN_ADDRESS@, a) {
                            let m = choose|m: int|
                                0 <= m < self.settings@.len() && #[trigger] self.settings@[m].0@
                                    == SUB_ADMIN_ADDRESS@ && self.settings@[m].1@ == a;
                            if m != k {
                                assert(self.settings@[m].0@ != self.settings@[k as int].0@);
                            }
                        }
                    }
                }
                return None;
            }
            k += 1;
        }
        None
    }

    /// Whether `caller` is the sub-admin.
    pub fn is_caller_subadmin(&self, caller: &String) -> (r: bool)
        requires
            self.wf(),
        ensures
            r == is_subadmin(self, caller@),
    {
        match self.get_subadmin() {
            Some(a) => {
                proof {
                    if is_subadmin(self, caller@) && a@ != caller@ {
                        let m1 = choose|m: int|
                            0 <= m < self.settings@.len() && #[trigger] self.settings@[m].0@
                                == SUB_ADMIN_ADDRESS@ && self.settings@[m].1@ == a@;
                        let m2 = choose|m: int|
                            0 <= m < self.settings@.len() && #[trigger] self.settings@[m].0@
                                == SUB_ADMIN_ADDRESS@ && self.settings@[m].1@ == caller@;
                        assert(m1 != m2);
                        assert(self.settings@[m1].0@ != self.settings@[m2].0@);
                    }
                }
                a == *caller
            },
            None => false,
        }
    }

    /// Refuses a caller other than the sub-admin.
    pub fn require_subadmin(&self, caller: &String) -> (r: Result<(), CampgroundError>)
        requires
            self.wf(),
        ensures
            r is Ok <==> is_subadmin(self, caller@),
            r is Err ==> r == Err::<(), CampgroundError>(CampgroundError::Unauthorized),
    {
        if self.is_caller_subadmin(caller) {
            Ok(())
        } else {
            Err(CampgroundError::Unauthorized)
        }
    }

    /// Checks that `caller` may block or unblock series `trail_id`; returns
    /// where the series is kept.
    pub fn verify_toggle_minting_caller(&self, caller: &String, trail_id: &String) -> (r: Result<
        usize,
        CampgroundError,
    >)
        requires
            self.wf(),
        ensures
            match r {
                Ok(i) => {
                    &&& self.has_series(trail_id@)
                    &&& i == id_index(trail_id@)
                    &&& may_toggle(self, caller@, i as int)
                },
                Err(e) => e == if !self.has_series(trail_id@) {
                    CampgroundError::NotFound
                } else {
                    CampgroundError::Unauthorized
                } && (self.has_series(trail_id@) ==> !may_toggle(
                    self,
                    caller@,
                    id_index(trail_id@),
                )),
            },
    {
        let i = match self.series_index(trail_id) {
            Some(i) => i,
            None => {
                return Err(CampgroundError::NotFound);
            },
        };
        if *caller == self.trails_metadata_by_id[i].creator_id {
            return Ok(i);
        }
        match self.require_subadmin(caller) {
            Ok(()) => Ok(i),
            Err(e) => Err(e),
        }
    }

    /// Lets buyers mint series `trail_id` again. Returns whether it was blocked.
    pub fn remove_trail_from_nonmintable_list(&mut self, caller: &String, trail_id: &String) -> (r:
        Result<bool, CampgroundError>)
        requires
            old(self).wf(),
        ensures
            final(self).wf(),
            match r {
                Ok(was_blocked) => {
                    let i = id_index(trail_id@);
                    &&& old(self).has_series(trail_id@)
                    &&& may_toggle(old(self), caller@, i)
                    &&& was_blocked == old(self).blocked(i)
                    &&& flags_set(old(self), final(self), old(self).nonmintable_trails@.update(i, false))
                },
                Err(e) => {
                    &&& *final(self) == *old(self)
                    &&& e == if !old(self).has_series(trail_id@) {
                        CampgroundError::NotFound
                    } else {
                        CampgroundError::Unauthorized
                    }
                    &&& old(self).has_series(trail_id@) ==> !may_toggle(
                        old(self),
                        caller@,
                        id_index(trail_id@),
                    )
                },
            },
    {
        let i = self.verify_toggle_minting_caller(caller, trail_id)?;
        let ghost before = *self;
        let was_blocked = self.nonmintable_trails[i];
        self.nonmintable_trails.remove(i);
        self.nonmintable_trails.insert(i, false);
        assert(self.nonmintable_trails@ =~= before.nonmintable_trails@.update(i as int, false));
        proof {
            lemma_flags_wf(&before, self);
        }
        Ok(was_blocked)
    }

    /// Blocks buyers from minting series `trail_id`. Returns whether it was
    /// not blocked yet.
    pub fn insert_trail_from_nonmintable_list(&mut self, caller: &String, trail_id: &String) -> (r:
        Result<bool, CampgroundError>)
        requires
            old(self).wf(),
        ensures
            final(self).wf(),
            match r {
                Ok(newly_blocked) => {
                    let i = id_index(trail_id@);
                    &&& old(self).has_series(trail_id@)
                    &&& may_toggle(old(self), caller@, i)
                    &&& newly_blocked == !old(self).blocked(i)
                    &&& flags_set(old(self), final(self), old(self).nonmintable_trails@.update(i, true))
                },
                Err(e) => {
                    &&& *final(self) == *old(self)
                    &&& e == if !old(self).has_series(trail_id@) {
                        CampgroundError::NotFound
                    } else {
                        CampgroundError::Unauthorized
                    }
                    &&& old(self).has_series(trail_id@) ==> !may_toggle(
                        old(self),
                        caller@,
                        id_index(trail_id@),
                    )
                },
            },
    {
        let i = self.verify_toggle_minting_caller(caller, trail_id)?;
        let ghost before = *self;
        let was_blocked = self.nonmintable_trails[i];
        self.nonmintable_trails.remove(i);
        self.nonmintable_trails.insert(i, true);
        assert(self.nonmintable_trails@ =~= before.nonmintable_trails@.update(i as int, true));
        proof {
            lemma_flags_wf(&before, self);
        }
        Ok(!was_blocked)
    }

    /// Unblocks every series (`enable_minting`) or blocks every series; only
    /// the sub-admin may.
    pub fn toggle_for_all(&mut self, caller: &String, enable_minting: bool) -> (r: Result<
        (),
        CampgroundError,
    >)
        requires
            old(self).wf(),
        ensures
            final(self).wf(),
            r is Ok <==> is_subadmin(old(self), caller@),
            r is Ok ==> flags_set(
                old(self),
                final(self),
                Seq::new(old(self).series().len(), |i: int| !enable_minting),
            ),
            r is Err ==> *final(self) == *old(self) && r == Err::<(), CampgroundError>(
                CampgroundError::Unauthorized,
            ),
    {
        self.require_subadmin(caller)?;
        let ghost before = *self;
        let count = self.trails_metadata_by_id.len();
        let mut flags: Vec<bool> = Vec::new();
        let mut i: usize = 0;
        while i < count
            invariant
                i <= count,
                count == before.series().len(),
                flags@ == Seq::new(i as nat, |k: int| !enable_minting),
            decreases count - i,
        {
            flags.push(!enable_minting);
            i += 1;
            assert(flags@ =~= Seq::new(i as nat, |k: int| !enable_minting));
        }
        self.nonmintable_trails = flags;
        proof {
            lemma_flags_wf(&before, self);
        }
        Ok(())
    }
}

} // verus!
