//! Read-only views of the ledger: series, copies, owners and settings.
use vstd::prelude::*;
use crate::error::CampgroundError;
use crate::ids::format_copy_id;
use crate::ledger::{copy_indices, copy_key_id, find_owner, holds, id_index, Contract};
use crate::metadata::{copy_series, same_series, TrailBusiness, TrailSeries};

verus! {

/// Some copy of series `i` is held by `a`.
pub open spec fn owns_copy_of(c: &Contract, a: Seq<char>, i: int) -> bool {
    exists|j: int| c.copy_exists(i, j) && #[trigger] c.owner_of(i, j) == a
}

/// `id` is the id of a copy that `a` holds.
pub open spec fn held_copy_id(c: &Contract, a: Seq<char>, id: Seq<char>) -> bool {
    exists|i: int, j: int|
        #![trigger c.copy_exists(i, j)]
        c.copy_exists(i, j) && c.owner_of(i, j) == a && id == copy_key_id(i, j)
}

/// The indices below `n` that satisfy `p`, in increasing order.
pub open spec fn indices_where(n: nat, p: spec_fn(int) -> bool) -> Seq<int>
    decreases n,
{
    if n == 0 {
        Seq::empty()
    } else {
        let s = indices_where((n - 1) as nat, p);
        if p(n - 1) {
            s.push(n - 1)
        } else {
            s
        }
    }
}

/// Whether copy list `tokens` holds a copy of series `i`.
fn lists_series(tokens: &Vec<(usize, usize)>, i: usize) -> (r: bool)
    ensures
        r == exists|m: int| 0 <= m < tokens@.len() && (#[trigger] tokens@[m]).0 == i,
{
    let mut m: usize = 0;
    while m < tokens.len()
        invariant
            m <= tokens@.len(),
            forall|k: int| 0 <= k < m ==> (#[trigger] tokens@[k]).0 != i,
        decreases tokens.len() - m,
    {
        if tokens[m].0 == i {
            return true;
        }
        m += 1;
    }
    false
}

impl Contract {
    /// Whether a series with id `series_id` exists.
    pub fn series_exists(&self, series_id: &String) -> (r: bool)
        ensures
            r == self.has_series(series_id@),
    {
        self.series_index(series_id).is_some()
    }

    /// The ledger's owner.
    pub fn get_owner(&self) -> (r: &String)
        ensures
            *r == self.owner_id,
    {
        &self.owner_id
    }

    /// Series `series_id`, if it exists.
    pub fn get_trail_by_id_optional(&self, series_id: &String) -> (r: Option<&TrailSeries>)
        ensures
            match r {
                Some(s) => self.has_series(series_id@) && *s == self.series()[id_index(series_id@)],
                None => !self.has_series(series_id@),
            },
    {
        match self.series_index(series_id) {
            Some(i) => Some(&self.trails_metadata_by_id[i]),
            None => None,
        }
    }

    /// Series `series_id`.
    pub fn get_trail_by_id(&self, series_id: &String) -> (r: Result<&TrailSeries, CampgroundError>)
        ensures
            match r {
                Ok(s) => self.has_series(series_id@) && *s == self.series()[id_index(series_id@)],
                Err(e) => e == CampgroundError::NotFound && !self.has_series(series_id@),
            },
    {
        match self.series_index(series_id) {
            Some(i) => Ok(&self.trails_metadata_by_id[i]),
            None => Err(CampgroundError::NotFound),
        }
    }

    /// Whether `owner_id` holds a copy of series `series_id`.
    pub fn is_owner(&self, series_id: &String, owner_id: &String) -> (r: bool)
        requires
            self.wf(),
        ensures
            r == (self.has_series(series_id@) && owns_copy_of(self, owner_id@, id_index(series_id@))),
    {
        let i = match self.series_index(series_id) {
            Some(i) => i,
            None => {
                return false;
            },
        };
        self.owns_series(owner_id, i)
    }

    /// Whether `owner_id` holds a copy of the series kept at `i`, read from
    /// the owner index.
    fn owns_series(&self, owner_id: &String, i: usize) -> (r: bool)
        requires
            self.wf(),
            i < self.series().len(),
        ensures
            r == owns_copy_of(self, owner_id@, i as int),
    {
        let owners = &self.tokens_per_owner;
        match find_owner(owners, owner_id) {
            Some(k) => {
                let found = lists_series(&owners[k].tokens, i);
                proof {
                    crate::ledger::lemma_entry_holds(owners@, k as int);
                    let tokens = owners@[k as int].tokens@;
                    if found {
                        let m = choose|m: int| 0 <= m < tokens.len() && (#[trigger] tokens[m]).0 == i;
                        let t = tokens[m];
                        assert(tokens.contains(t));
                        assert(holds(owners@, owner_id@, t));
                        assert(self.owner_of(i as int, t.1 as int) == owner_id@);
                    } else if owns_copy_of(self, owner_id@, i as int) {
                        let j = choose|j: int| self.copy_exists(i as int, j) && #[trigger] self.owner_of(
                            i as int,
                            j,
                        ) == owner_id@;
                        assert(holds(owners@, self.owner_of(i as int, j), (i, j as usize)));
                        assert(tokens.contains((i, j as usize)));
                        let m = choose|m: int| 0 <= m < tokens.len() && tokens[m] == (i, j as usize);
                        assert(tokens[m].0 == i);
                    }
                }
                found
            },
            None => {
                proof {
                    if owns_copy_of(self, owner_id@, i as int) {
                        let j = choose|j: int| self.copy_exists(i as int, j) && #[trigger] self.owner_of(
                            i as int,
                            j,
                        ) == owner_id@;
                        assert(holds(owners@, self.owner_of(i as int, j), (i, j as usize)));
                    }
                }
                false
            },
        }
    }

    /// Whether `owner_id` created series `series_id`.
    pub fn is_creator(&self, series_id: &String, owner_id: &String) -> (r: bool)
        ensures
            r == (self.has_series(series_id@) && self.series()[id_index(series_id@)].creator_id@
                == owner_id@),
    {
        match self.series_index(series_id) {
            Some(i) => self.trails_metadata_by_id[i].creator_id == *owner_id,
            None => false,
        }
    }

    /// The record of copy `trail_and_copy_id`, if it exists.
    pub fn get_trail_business(&self, trail_and_copy_id: &String) -> (r: Option<&TrailBusiness>)
        requires
            self.wf(),
        ensures
            match r {
                Some(b) => {
                    let (i, j) = copy_indices(trail_and_copy_id@);
                    self.has_copy(trail_and_copy_id@) && *b == self.copies(i)[j]
                },
                None => !self.has_copy(trail_and_copy_id@),
            },
    {
        match self.copy_index(trail_and_copy_id) {
            Some((i, j)) => Some(&self.tokens_by_id[i][j]),
            None => None,
        }
    }

    /// The series that `owner_id` holds a copy of, in creation order.
    pub fn get_all_trails_by_owner(&self, owner_id: &String) -> (r: Vec<TrailSeries>)
        requires
            self.wf(),
        ensures
            ({
                let ids = indices_where(
                    self.series().len(),
                    |i: int| owns_copy_of(self, owner_id@, i),
                );
                &&& r@.len() == ids.len()
                &&& forall|m: int| 0 <= m < ids.len() ==> same_series(#[trigger] r@[m], self.series()[ids[m]])
            }),
    {
        let ghost p = |i: int| owns_copy_of(self, owner_id@, i);
        let count = self.trails_metadata_by_id.len();
        let mut out: Vec<TrailSeries> = Vec::new();
        let mut i: usize = 0;
        while i < count
            invariant
                self.wf(),
                i <= count,
                count == self.series().len(),
                p == (|i: int| owns_copy_of(self, owner_id@, i)),
                out@.len() == indices_where(i as nat, p).len(),
                forall|m: int|
                    0 <= m < out@.len() ==> same_series(
                        #[trigger] out@[m],
                        self.series()[indices_where(i as nat, p)[m]],
                    ),
            decreases count - i,
        {
            let ghost before = indices_where(i as nat, p);
            assert(indices_where((i + 1) as nat, p) == if p(i as int) {
                before.push(i as int)
            } else {
                before
            });
            if self.owns_series(owner_id, i) {
                out.push(copy_series(&self.trails_metadata_by_id[i]));
            }
            i += 1;
        }
        out
    }

    /// The series that `creator_id` created, in creation order.
    pub fn get_all_trails_by_creator(&self, creator_id: &String) -> (r: Vec<TrailSeries>)
        ensures
            ({
                let ids = indices_where(
                    self.series().len(),
                    |i: int| self.series()[i].creator_id@ == creator_id@,
                );
                &&& r@.len() == ids.len()
                &&& forall|m: int| 0 <= m < ids.len() ==> same_series(#[trigger] r@[m], self.series()[ids[m]])
            }),
    {
        let ghost p = |i: int| self.series()[i].creator_id@ == creator_id@;
        let count = self.trails_metadata_by_id.len();
        let mut out: Vec<TrailSeries> = Vec::new();
        let mut i: usize = 0;
        while i < count
            invariant
                i <= count,
                count == self.series().len(),
                p == (|i: int| self.series()[i].creator_id@ == creator_id@),
                out@.len() == indices_where(i as nat, p).len(),
                forall|m: int|
                    0 <= m < out@.len() ==> same_series(
                        #[trigger] out@[m],
                        self.series()[indices_where(i as nat, p)[m]],
                    ),
            decreases count - i,
        {
            let ghost before = indices_where(i as nat, p);
            assert(indices_where((i + 1) as nat, p) == if p(i as int) {
                before.push(i as int)
            } else {
                before
            });
            if self.trails_metadata_by_id[i].creator_id == *creator_id {
                out.push(copy_series(&self.trails_metadata_by_id[i]));
            }
            i += 1;
        }
        out
    }

    /// Ids of the copies that `account_id` holds, as the owner index lists
    /// them.
    pub fn nft_tokens_for_owner(&self, account_id: &String) -> (r: Vec<String>)
        requires
            self.wf(),
        ensures
            forall|i: int, j: int|
                0 <= i && 0 <= j ==> ((self.copy_exists(i, j) && self.owner_of(i, j) == account_id@)
                    <==> exists|m: int| 0 <= m < r@.len() && #[trigger] r@[m]@ == copy_key_id(i, j)),
            forall|m: int| 0 <= m < r@.len() ==> held_copy_id(self, account_id@, #[trigger] r@[m]@),
            forall|m1: int, m2: int|
                0 <= m1 < r@.len() && 0 <= m2 < r@.len() && m1 != m2 ==> #[trigger] r@[m1]@
                    != #[trigger] r@[m2]@,
            r@.no_duplicates(),
    {
        let owners = &self.tokens_per_owner;
        let mut out: Vec<String> = Vec::new();
        match find_owner(owners, account_id) {
            Some(k) => {
                let tokens = &owners[k].tokens;
                proof {
                    crate::ledger::lemma_entry_holds(owners@, k as int);
                }
                let mut m: usize = 0;
                while m < tokens.len()
                    invariant
                        self.wf(),
                        owners == &self.tokens_per_owner,
                        k < owners@.len(),
                        tokens == &owners@[k as int].tokens,
                        owners@[k as int].account_id@ == account_id@,
                        m <= tokens@.len(),
                        out@.len() == m,
                        forall|q: int|
                            0 <= q < m ==> (#[trigger] out@[q])@ == copy_key_id(
                                tokens@[q].0 as int,
                                tokens@[q].1 as int,
                            ),
                    decreases tokens.len() - m,
                {
                    let t = tokens[m];
                    proof {
                        assert(tokens@.contains(t));
                        assert(holds(owners@, account_id@, t));
                        assert(self.copy_exists(t.0 as int, t.1 as int));
                        assert(self.tokens_by_id.len() == self.tokens_by_id@.len());
                        assert(self.tokens_by_id@[t.0 as int].len() == self.copies(t.0 as int).len());
                    }
                    out.push(format_copy_id(t.0 as u64 + 1, t.1 as u64 + 1));
                    m += 1;
                }
                proof {
                    let tokens_v = owners@[k as int].tokens@;
                    assert forall|i: int, j: int|
                        0 <= i && 0 <= j implies ((self.copy_exists(i, j) && self.owner_of(i, j)
                            == account_id@) <==> exists|q: int|
                            0 <= q < out@.len() && #[trigger] out@[q]@ == copy_key_id(i, j)) by {
                        if self.copy_exists(i, j) && self.owner_of(i, j) == account_id@ {
                            assert(self.tokens_by_id.len() == self.tokens_by_id@.len());
                            assert(self.tokens_by_id@[i].len() == self.copies(i).len());
                            assert(holds(owners@, self.owner_of(i, j), (i as usize, j as usize)));
                            assert(tokens_v.contains((i as usize, j as usize)));
                            let q = choose|q: int| 0 <= q < tokens_v.len() && tokens_v[q] == (
                                i as usize,
                                j as usize,
                            );
                            assert(out@[q]@ == copy_key_id(i, j));
                        }
                        if exists|q: int| 0 <= q < out@.len() && #[trigger] out@[q]@ == copy_key_id(i, j) {
                            let q = choose|q: int| 0 <= q < out@.len() && #[trigger] out@[q]@ == copy_key_id(i, j);
                            let t = tokens_v[q];
                            assert(tokens_v.contains(t));
                            assert(holds(owners@, account_id@, t));
                            assert(self.copy_exists(t.0 as int, t.1 as int));
                            crate::ids::lemma_copy_id_injective(
                                (t.0 + 1) as nat,
                                (t.1 + 1) as nat,
                                (i + 1) as nat,
                                (j + 1) as nat,
                            );
                            assert(t.0 as int == i && t.1 as int == j);
                            assert(self.owner_of(t.0 as int, t.1 as int) == account_id@);
                        }
                    }
                    assert forall|q: int| 0 <= q < out@.len() implies held_copy_id(
                        self,
                        account_id@,
                        #[trigger] out@[q]@,
                    ) by {
                        let t = tokens_v[q];
                        assert(tokens_v.contains(t));
                        assert(holds(owners@, account_id@, t));
                        assert(self.copy_exists(t.0 as int, t.1 as int));
                        assert(out@[q]@ == copy_key_id(t.0 as int, t.1 as int));
                        assert(self.copy_exists(t.0 as int, t.1 as int) && self.owner_of(t.0 as int, t.1 as int)
                            == account_id@ && out@[q]@ == copy_key_id(t.0 as int, t.1 as int));
                    }
                    assert(tokens_v.no_duplicates());
                    assert forall|m1: int, m2: int|
                        0 <= m1 < out@.len() && 0 <= m2 < out@.len() && m1 != m2 implies #[trigger] out@[m1]@
                        != #[trigger] out@[m2]@ by {
                        let t1 = tokens_v[m1];
                        let t2 = tokens_v[m2];
                        assert(t1 != t2);
                        if out@[m1]@ == out@[m2]@ {
                            crate::ids::lemma_copy_id_injective(
                                (t1.0 + 1) as nat,
                                (t1.1 + 1) as nat,
                                (t2.0 + 1) as nat,
                                (t2.1 + 1) as nat,
                            );
                        }
                    }
                    assert forall|m1: int, m2: int|
                        0 <= m1 < out@.len() && 0 <= m2 < out@.len() && m1 != m2 implies out@[m1]
                        != out@[m2] by {
                        assert(out@[m1]@ != out@[m2]@);
                    }
                }
                out
            },
            None => {
                proof {
                    assert forall|i: int, j: int|
                        !(self.copy_exists(i, j) && self.owner_of(i, j) == account_id@) by {
                        if self.copy_exists(i, j) && self.owner_of(i, j) == account_id@ {
                            assert(holds(owners@, self.owner_of(i, j), (i as usize, j as usize)));
                        }
                    }
                }
                out
            },
        }
    }

    /// Minimum fee on a sale, in yoctoNEAR.
    pub fn get_current_fee(&self) -> (r: u128)
        ensures
            r == self.campground_minimum_fee_yocto_near,
    {
        self.campground_minimum_fee_yocto_near
    }

    /// Fee percentage on a sale.
    pub fn get_fee_percentage(&self) -> (r: u64)
        ensures
            r == self.campground_fee,
    {
        self.campground_fee
    }

    /// Account that receives the fees.
    pub fn get_treasury_address(&self) -> (r: String)
        ensures
            r == self.campground_treasury_address,
    {
        self.campground_treasury_address.clone()
    }

    /// Whether buyers are allowed to mint series `trail_id`: true unless the
    /// series exists and is blocked.
    pub fn is_trail_mintable(&self, trail_id: &String) -> (r: bool)
        requires
            self.wf(),
        ensures
            r == !(self.has_series(trail_id@) && self.blocked(id_index(trail_id@))),
    {
        match self.series_index(trail_id) {
            Some(i) => !self.nonmintable_trails[i],
            None => true,
        }
    }
}

} // verus!
