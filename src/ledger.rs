//! The ledger's state: series, their copies, the owner index, the blocked
//! flags and the settings, with the invariant that ties them together.
use vstd::prelude::*;
use crate::ids::{copy_id_of, decimal, next_delim, parse_copy_id, parse_decimal, value_of};
use crate::metadata::{NFTContractMetadata, TrailBusiness, TrailSeries};
use crate::ONE_NEAR;

verus! {

/// One account's entry in the owner index: the copies it holds, each as
/// (series index, copy index).
pub struct OwnerTokens {
    pub account_id: String,
    pub tokens: Vec<(usize, usize)>,
}

/// The ledger. Series `"n"` is kept at index `n - 1`; copy `"n:m"` is kept at
/// index `m - 1` of its series' copies.
pub struct Contract {
    /// Account allowed to change fees, treasury and settings.
    pub owner_id: String,
    /// Owner index: for each account holding copies, the copies it holds.
    pub tokens_per_owner: Vec<OwnerTokens>,
    /// Copies of each series, in minting order.
    pub tokens_by_id: Vec<Vec<TrailBusiness>>,
    /// Series, in creation order.
    pub trails_metadata_by_id: Vec<TrailSeries>,
    /// For each series, whether buyers are currently blocked from minting it.
    pub nonmintable_trails: Vec<bool>,
    pub metadata: NFTContractMetadata,
    /// Fee percentage taken on each sale.
    pub campground_fee: u64,
    /// Account that receives the fees.
    pub campground_treasury_address: String,
    /// Lowest fee taken on a sale, in yoctoNEAR.
    pub campground_minimum_fee_yocto_near: u128,
    /// Free key/value settings, keys unique.
    pub settings: Vec<(String, String)>,
}

/// Id of the series kept at index `i`.
pub open spec fn series_id_of(i: int) -> Seq<char> {
    decimal((i + 1) as nat)
}

/// Id of the copy kept at index `j` of the series kept at index `i`.
pub open spec fn copy_key_id(i: int, j: int) -> Seq<char> {
    copy_id_of((i + 1) as nat, (j + 1) as nat)
}

/// Index of the series whose id is `id`, where `id` is a series id.
pub open spec fn id_index(id: Seq<char>) -> int {
    value_of(id) - 1
}

/// Series index and copy index named by `id`, where `id` is a copy id.
pub open spec fn copy_indices(id: Seq<char>) -> (int, int) {
    let p = next_delim(id, 0);
    (value_of(id.subrange(0, p)) - 1, value_of(id.subrange(p + 1, id.len() as int)) - 1)
}

/// Some entry of the owner index for account `a` lists copy `t`.
pub open spec fn holds(owners: Seq<OwnerTokens>, a: Seq<char>, t: (usize, usize)) -> bool {
    exists|k: int|
        0 <= k < owners.len() && owners[k].account_id@ == a && #[trigger] owners[k].tokens@.contains(
            t,
        )
}

/// No two settings share a key.
pub open spec fn keys_unique(settings: Seq<(String, String)>) -> bool {
    forall|k1: int, k2: int|
        0 <= k1 < settings.len() && 0 <= k2 < settings.len() && k1 != k2 ==> #[trigger] settings[k1].0@
            != #[trigger] settings[k2].0@
}

/// The settings map `key` to `value`.
pub open spec fn setting(settings: Seq<(String, String)>, key: Seq<char>, value: Seq<char>) -> bool {
    exists|k: int| 0 <= k < settings.len() && #[trigger] settings[k].0@ == key && settings[k].1@ == value
}

/// Entries have distinct accounts; each lists at least one copy, none twice.
pub open spec fn index_ok(owners: Seq<OwnerTokens>) -> bool {
    &&& forall|k1: int, k2: int|
        0 <= k1 < owners.len() && 0 <= k2 < owners.len() && k1 != k2 ==> #[trigger] owners[k1].account_id@
            != #[trigger] owners[k2].account_id@
    &&& forall|k: int|
        0 <= k < owners.len() ==> #[trigger] owners[k].tokens@.len() > 0
            && owners[k].tokens@.no_duplicates()
}

impl Contract {
    pub open spec fn series(&self) -> Seq<TrailSeries> {
        self.trails_metadata_by_id@
    }

    /// A series with id `id` exists; it is kept at `id_index(id)`.
    pub open spec fn has_series(&self, id: Seq<char>) -> bool {
        0 <= id_index(id) < self.series().len() && id == series_id_of(id_index(id))
    }

    /// A copy with id `id` exists; it is kept at `copy_indices(id)`.
    pub open spec fn has_copy(&self, id: Seq<char>) -> bool {
        let (i, j) = copy_indices(id);
        self.copy_exists(i, j) && id == copy_key_id(i, j)
    }

    pub open spec fn copies(&self, i: int) -> Seq<TrailBusiness> {
        self.tokens_by_id@[i]@
    }

    pub open spec fn copy_exists(&self, i: int, j: int) -> bool {
        0 <= i < self.series().len() && 0 <= j < self.copies(i).len()
    }

    pub open spec fn owner_of(&self, i: int, j: int) -> Seq<char> {
        self.copies(i)[j].owner_id@
    }

    pub open spec fn blocked(&self, i: int) -> bool {
        self.nonmintable_trails@[i]
    }

    /// The invariant of the ledger.
    pub open spec fn wf(&self) -> bool {
        &&& self.tokens_by_id@.len() == self.series().len()
        &&& self.nonmintable_trails@.len() == self.series().len()
        &&& forall|i: int|
            0 <= i < self.series().len() ==> {
                &&& #[trigger] self.series()[i].supply.circulating == self.copies(i).len()
                &&& self.series()[i].supply.circulating <= self.series()[i].supply.total
                &&& self.series()[i].supply.circulating == self.series()[i].supply.total
                    ==> !self.series()[i].is_mintable
            }
        &&& forall|i: int, j: int|
            self.copy_exists(i, j) ==> #[trigger] self.copies(i)[j].token_id@ == series_id_of(i)
        &&& index_ok(self.tokens_per_owner@)
        &&& keys_unique(self.settings@)
        &&& forall|a: Seq<char>, t: (usize, usize)|
            #[trigger] holds(self.tokens_per_owner@, a, t) ==> self.copy_exists(t.0 as int, t.1 as int)
                && self.owner_of(t.0 as int, t.1 as int) == a
        &&& forall|i: int, j: int|
            self.copy_exists(i, j) ==> holds(
                self.tokens_per_owner@,
                #[trigger] self.owner_of(i, j),
                (i as usize, j as usize),
            )
    }

    /// The settings and the fee parameters unchanged.
    pub open spec fn same_config(&self, other: &Contract) -> bool {
        &&& self.owner_id == other.owner_id
        &&& self.metadata == other.metadata
        &&& self.campground_fee == other.campground_fee
        &&& self.campground_treasury_address == other.campground_treasury_address
        &&& self.campground_minimum_fee_yocto_near == other.campground_minimum_fee_yocto_near
        &&& self.settings@ == other.settings@
    }
}

pub proof fn lemma_entry_holds(owners: Seq<OwnerTokens>, k: int)
    requires
        index_ok(owners),
        0 <= k < owners.len(),
    ensures
        forall|t: (usize, usize)|
            holds(owners, owners[k].account_id@, t) <==> #[trigger] owners[k].tokens@.contains(t),
{
    assert forall|t: (usize, usize)|
        holds(owners, owners[k].account_id@, t) implies #[trigger] owners[k].tokens@.contains(t) by {
        let m = choose|m: int|
            0 <= m < owners.len() && owners[m].account_id@ == owners[k].account_id@
                && #[trigger] owners[m].tokens@.contains(t);
        if m != k {
            assert(owners[m].account_id@ != owners[k].account_id@);
        }
    }
}

proof fn lemma_remove_entry(owners: Seq<OwnerTokens>, k: int)
    requires
        index_ok(owners),
        0 <= k < owners.len(),
    ensures
        index_ok(owners.remove(k)),
        forall|a: Seq<char>, t: (usize, usize)|
            #[trigger] holds(owners.remove(k), a, t) <==> (a != owners[k].account_id@ && holds(
                owners,
                a,
                t,
            )),
        forall|m: int|
            0 <= m < owners.remove(k).len() ==> #[trigger] owners.remove(k)[m].account_id@
                != owners[k].account_id@,
{
    let r = owners.remove(k);
    assert forall|m: int| 0 <= m < r.len() implies r[m] == owners[if m < k {
        m
    } else {
        m + 1
    }] by {}
    assert forall|m: int| 0 <= m < r.len() implies #[trigger] r[m].account_id@
        != owners[k].account_id@ by {
        let idx = if m < k {
            m
        } else {
            m + 1
        };
        assert(owners[idx].account_id@ != owners[k].account_id@);
    }
    assert forall|k1: int, k2: int|
        0 <= k1 < r.len() && 0 <= k2 < r.len() && k1 != k2 implies #[trigger] r[k1].account_id@
        != #[trigger] r[k2].account_id@ by {
        let i1 = if k1 < k {
            k1
        } else {
            k1 + 1
        };
        let i2 = if k2 < k {
            k2
        } else {
            k2 + 1
        };
        assert(owners[i1].account_id@ != owners[i2].account_id@);
    }
    assert forall|m: int| 0 <= m < r.len() implies #[trigger] r[m].tokens@.len() > 0
        && r[m].tokens@.no_duplicates() by {
        let idx = if m < k {
            m
        } else {
            m + 1
        };
        assert(owners[idx].tokens@.len() > 0);
    }
    assert forall|a: Seq<char>, t: (usize, usize)| #[trigger]
        holds(r, a, t) <==> (a != owners[k].account_id@ && holds(owners, a, t)) by {
        if holds(r, a, t) {
            let m = choose|m: int|
                0 <= m < r.len() && r[m].account_id@ == a && #[trigger] r[m].tokens@.contains(t);
            let idx = if m < k {
                m
            } else {
                m + 1
            };
            assert(owners[idx].tokens@.contains(t));
        }
        if a != owners[k].account_id@ && holds(owners, a, t) {
            let idx = choose|idx: int|
                0 <= idx < owners.len() && owners[idx].account_id@ == a
                    && #[trigger] owners[idx].tokens@.contains(t);
            let m = if idx < k {
                idx
            } else {
                idx - 1
            };
            assert(r[m] == owners[idx]);
            assert(r[m].tokens@.contains(t));
        }
    }
}

proof fn lemma_push_entry(owners: Seq<OwnerTokens>, e: OwnerTokens)
    requires
        index_ok(owners),
        forall|m: int| 0 <= m < owners.len() ==> #[trigger] owners[m].account_id@ != e.account_id@,
        e.tokens@.len() > 0,
        e.tokens@.no_duplicates(),
    ensures
        index_ok(owners.push(e)),
        forall|a: Seq<char>, t: (usize, usize)|
            #[trigger] holds(owners.push(e), a, t) <==> (holds(owners, a, t) || (a == e.account_id@
                && e.tokens@.contains(t))),
{
    let r = owners.push(e);
    assert forall|k1: int, k2: int|
        0 <= k1 < r.len() && 0 <= k2 < r.len() && k1 != k2 implies #[trigger] r[k1].account_id@
        != #[trigger] r[k2].account_id@ by {
        if k1 < owners.len() && k2 < owners.len() {
            assert(owners[k1].account_id@ != owners[k2].account_id@);
        } else if k1 < owners.len() {
            assert(owners[k1].account_id@ != e.account_id@);
        } else {
            assert(owners[k2].account_id@ != e.account_id@);
        }
    }
    assert forall|m: int| 0 <= m < r.len() implies #[trigger] r[m].tokens@.len() > 0
        && r[m].tokens@.no_duplicates() by {
        if m < owners.len() {
            assert(owners[m].tokens@.len() > 0);
        }
    }
    assert forall|a: Seq<char>, t: (usize, usize)| #[trigger]
        holds(r, a, t) <==> (holds(owners, a, t) || (a == e.account_id@ && e.tokens@.contains(t))) by {
        if holds(r, a, t) {
            let m = choose|m: int|
                0 <= m < r.len() && r[m].account_id@ == a && #[trigger] r[m].tokens@.contains(t);
            if m < owners.len() {
                assert(owners[m].tokens@.contains(t));
            }
        }
        if holds(owners, a, t) {
            let idx = choose|idx: int|
                0 <= idx < owners.len() && owners[idx].account_id@ == a
                    && #[trigger] owners[idx].tokens@.contains(t);
            assert(r[idx] == owners[idx]);
            assert(r[idx].tokens@.contains(t));
        }
        if a == e.account_id@ && e.tokens@.contains(t) {
            assert(r[owners.len() as int] == e);
            assert(r[owners.len() as int].tokens@.contains(t));
        }
    }
}

proof fn lemma_remove_token(s: Seq<(usize, usize)>, m: int)
    requires
        s.no_duplicates(),
        0 <= m < s.len(),
    ensures
        s.remove(m).no_duplicates(),
        forall|u: (usize, usize)| #[trigger] s.remove(m).contains(u) <==> (s.contains(u) && u != s[m]),
{
    let r = s.remove(m);
    assert forall|i: int| 0 <= i < r.len() implies r[i] == s[if i < m {
        i
    } else {
        i + 1
    }] by {}
    assert forall|i: int, j: int| 0 <= i < r.len() && 0 <= j < r.len() && i != j implies r[i]
        != r[j] by {
        let a = if i < m {
            i
        } else {
            i + 1
        };
        let b = if j < m {
            j
        } else {
            j + 1
        };
        assert(s[a] != s[b]);
    }
    assert forall|u: (usize, usize)| #[trigger] r.contains(u) <==> (s.contains(u) && u != s[m]) by {
        if r.contains(u) {
            let i = choose|i: int| 0 <= i < r.len() && r[i] == u;
            let a = if i < m {
                i
            } else {
                i + 1
            };
            assert(s[a] == u);
            assert(s[a] != s[m]);
        }
        if s.contains(u) && u != s[m] {
            let a = choose|a: int| 0 <= a < s.len() && s[a] == u;
            let i = if a < m {
                a
            } else {
                a - 1
            };
            assert(r[i] == u);
        }
    }
}

/// Position of the owner-index entry for `a`, if any.
pub fn find_owner(owners: &Vec<OwnerTokens>, a: &String) -> (r: Option<usize>)
    ensures
        match r {
            Some(k) => k < owners@.len() && owners@[k as int].account_id@ == a@,
            None => forall|k: int| 0 <= k < owners@.len() ==> owners@[k].account_id@ != a@,
        },
{
    let mut k: usize = 0;
    while k < owners.len()
        invariant
            k <= owners@.len(),
            forall|m: int| 0 <= m < k ==> owners@[m].account_id@ != a@,
        decreases owners.len() - k,
    {
        if owners[k].account_id == *a {
            return Some(k);
        }
        k += 1;
    }
    None
}

fn find_token(tokens: &Vec<(usize, usize)>, t: (usize, usize)) -> (r: Option<usize>)
    ensures
        match r {
            Some(m) => m < tokens@.len() && tokens@[m as int] == t,
            None => !tokens@.contains(t),
        },
{
    let mut m: usize = 0;
    while m < tokens.len()
        invariant
            m <= tokens@.len(),
            forall|i: int| 0 <= i < m ==> tokens@[i] != t,
        decreases tokens.len() - m,
    {
        if tokens[m].0 == t.0 && tokens[m].1 == t.1 {
            return Some(m);
        }
        m += 1;
    }
    None
}

/// Lists copy `t` under account `a` in the owner index.
pub fn add_token(owners: &mut Vec<OwnerTokens>, a: &String, t: (usize, usize))
    requires
        index_ok(old(owners)@),
        !holds(old(owners)@, a@, t),
    ensures
        index_ok(final(owners)@),
        forall|b: Seq<char>, u: (usize, usize)|
            #[trigger] holds(final(owners)@, b, u) <==> (holds(old(owners)@, b, u) || (b == a@ && u
                == t)),
{
    let ghost before = owners@;
    match find_owner(owners, a) {
        Some(k) => {
            proof {
                lemma_remove_entry(before, k as int);
                lemma_entry_holds(before, k as int);
            }
            let mut e = owners.remove(k);
            let ghost mid = owners@;
            let ghost old_tokens = e.tokens@;
            e.tokens.push(t);
            proof {
                assert(!old_tokens.contains(t));
                assert(e.tokens@.no_duplicates()) by {
                    assert forall|i: int, j: int|
                        0 <= i < e.tokens@.len() && 0 <= j < e.tokens@.len() && i != j implies e.tokens@[i]
                        != e.tokens@[j] by {
                        if i < old_tokens.len() && j < old_tokens.len() {
                            assert(old_tokens[i] != old_tokens[j]);
                        } else if i < old_tokens.len() {
                            assert(old_tokens.contains(old_tokens[i]));
                        } else {
                            assert(old_tokens.contains(old_tokens[j]));
                        }
                    }
                }
                assert forall|u: (usize, usize)| #[trigger]
                    e.tokens@.contains(u) <==> (old_tokens.contains(u) || u == t) by {
                    if e.tokens@.contains(u) {
                        let i = choose|i: int| 0 <= i < e.tokens@.len() && e.tokens@[i] == u;
                        if i < old_tokens.len() {
                            assert(old_tokens[i] == u);
                        }
                    }
                    if old_tokens.contains(u) {
                        let i = choose|i: int| 0 <= i < old_tokens.len() && old_tokens[i] == u;
                        assert(e.tokens@[i] == u);
                    }
                    if u == t {
                        assert(e.tokens@[old_tokens.len() as int] == u);
                    }
                }
                lemma_push_entry(mid, e);
            }
            owners.push(e);
        },
        None => {
            let e = OwnerTokens { account_id: a.clone(), tokens: vec![t] };
            proof {
                assert(e.tokens@ =~= seq![t]);
                assert forall|u: (usize, usize)| #[trigger] e.tokens@.contains(u) <==> u == t by {
                    if u == t {
                        assert(e.tokens@[0] == u);
                    }
                }
                lemma_push_entry(before, e);
                assert forall|b: Seq<char>, u: (usize, usize)| #[trigger]
                    holds(before, b, u) implies b != a@ || u != t by {}
            }
            owners.push(e);
        },
    }
}

/// Takes copy `t` off account `a`'s entry in the owner index, and the entry
/// itself off the index if no copy is left in it.
pub fn remove_token(owners: &mut Vec<OwnerTokens>, a: &String, t: (usize, usize))
    requires
        index_ok(old(owners)@),
        holds(old(owners)@, a@, t),
    ensures
        index_ok(final(owners)@),
        forall|b: Seq<char>, u: (usize, usize)|
            #[trigger] holds(final(owners)@, b, u) <==> (holds(old(owners)@, b, u) && !(b == a@ && u
                == t)),
{
    let ghost before = owners@;
    let k = match find_owner(owners, a) {
        Some(k) => k,
        None => {
            proof {
                let m = choose|m: int|
                    0 <= m < before.len() && before[m].account_id@ == a@
                        && #[trigger] before[m].tokens@.contains(t);
            }
            return ;
        },
    };
    proof {
        lemma_remove_entry(before, k as int);
        lemma_entry_holds(before, k as int);
    }
    let mut e = owners.remove(k);
    let ghost mid = owners@;
    let ghost old_tokens = e.tokens@;
    let m = match find_token(&e.tokens, t) {
        Some(m) => m,
        None => {
            return ;
        },
    };
    proof {
        lemma_remove_token(old_tokens, m as int);
    }
    e.tokens.remove(m);
    if e.tokens.len() > 0 {
        proof {
            lemma_push_entry(mid, e);
        }
        owners.push(e);
    } else {
        proof {
            assert forall|u: (usize, usize)| !old_tokens.contains(u) || u == t by {
                if old_tokens.contains(u) && u != t {
                    assert(e.tokens@.contains(u));
                }
            }
        }
    }
}

impl Contract {
    /// A ledger with no series, owned by `owner_id`, sending fees to
    /// `treasury_id`: five percent, at least a tenth of a NEAR.
    pub fn new(owner_id: String, metadata: NFTContractMetadata, treasury_id: String) -> (r: Self)
        ensures
            r.wf(),
            r.series().len() == 0,
            r.tokens_per_owner@.len() == 0,
            r.settings@.len() == 0,
            r.owner_id == owner_id,
            r.metadata == metadata,
            r.campground_fee == 5,
            r.campground_treasury_address == treasury_id,
            r.campground_minimum_fee_yocto_near == ONE_NEAR / 10,
    {
        Contract {
            owner_id,
            tokens_per_owner: Vec::new(),
            tokens_by_id: Vec::new(),
            trails_metadata_by_id: Vec::new(),
            nonmintable_trails: Vec::new(),
            metadata,
            campground_fee: 5,
            campground_treasury_address: treasury_id,
            campground_minimum_fee_yocto_near: ONE_NEAR / 10,
            settings: Vec::new(),
        }
    }

    /// `new` with the default ledger metadata.
    pub fn new_default_meta(owner_id: String, treasury_id: String) -> (r: Self)
        ensures
            r.wf(),
            r.series().len() == 0,
            r.tokens_per_owner@.len() == 0,
            r.settings@.len() == 0,
            r.owner_id == owner_id,
            r.metadata.spec@ == seq!['n', 'f', 't', '-', '1', '.', '0', '.', '0'],
            r.metadata.symbol@ == seq!['C', 'M', 'P', 'G', 'R', 'N', 'D'],
            r.metadata.icon is None && r.metadata.base_uri is None,
            r.metadata.reference is None && r.metadata.reference_hash is None,
            r.campground_fee == 5,
            r.campground_treasury_address == treasury_id,
            r.campground_minimum_fee_yocto_near == ONE_NEAR / 10,
    {
        proof {
            reveal_strlit("nft-1.0.0");
            reveal_strlit("CMPGRND");
        }
        Self::new(
            owner_id,
            NFTContractMetadata {
                spec: String::from_str("nft-1.0.0"),
                name: String::from_str("Campground NFT Contract"),
                symbol: String::from_str("CMPGRND"),
                icon: None,
                base_uri: None,
                reference: None,
                reference_hash: None,
            },
            treasury_id,
        )
    }

    /// Where the copy with id `copy_id` is kept, if there is one.
    pub fn copy_index(&self, copy_id: &String) -> (r: Option<(usize, usize)>)
        requires
            self.wf(),
        ensures
            match r {
                Some((i, j)) => self.has_copy(copy_id@) && (i as int, j as int) == copy_indices(
                    copy_id@,
                ),
                None => !self.has_copy(copy_id@),
            },
    {
        let count = self.trails_metadata_by_id.len();
        match parse_copy_id(copy_id.as_str()) {
            Some((a, b)) => {
                proof {
                    crate::ids::lemma_copy_id_split(a as nat, b as nat);
                    crate::ids::lemma_decimal(a as nat);
                    crate::ids::lemma_decimal(b as nat);
                }
                if a >= 1 && a <= count as u64 {
                    let i = (a - 1) as usize;
                    let len = self.tokens_by_id[i].len();
                    if b >= 1 && b <= len as u64 {
                        return Some((i, (b - 1) as usize));
                    }
                }
                None
            },
            None => {
                proof {
                    if self.has_copy(copy_id@) {
                        let (i, j) = copy_indices(copy_id@);
                        assert(i + 1 <= count);
                        let len = self.tokens_by_id@[i]@.len();
                        assert(self.tokens_by_id@[i]@.len() <= usize::MAX) by {
                            assert(self.tokens_by_id@[i]@.len() == self.series()[i].supply.circulating);
                        }
                        assert(copy_id@ == copy_id_of(((i + 1) as u64) as nat, ((j + 1) as u64) as nat));
                    }
                }
                None
            },
        }
    }

    /// Index of the series with id `series_id`, if there is one.
    pub fn series_index(&self, series_id: &String) -> (r: Option<usize>)
        ensures
            match r {
                Some(i) => i < self.series().len() && series_id@ == series_id_of(i as int)
                    && i == id_index(series_id@) && self.has_series(series_id@),
                None => !self.has_series(series_id@) && forall|i: int|
                    0 <= i < self.series().len() ==> series_id@ != series_id_of(i),
            },
    {
        let count = self.trails_metadata_by_id.len();
        match parse_decimal(series_id.as_str()) {
            Some(n) => {
                if n >= 1 && n <= count as u64 {
                    proof {
                        crate::ids::lemma_decimal(n as nat);
                    }
                    Some((n - 1) as usize)
                } else {
                    proof {
                        assert forall|i: int| 0 <= i < self.series().len() implies series_id@
                            != series_id_of(i) by {
                            if series_id@ == series_id_of(i) {
                                crate::ids::lemma_decimal_injective(n as nat, (i + 1) as nat);
                            }
                        }
                    }
                    None
                }
            },
            None => {
                proof {
                    assert forall|i: int| 0 <= i < self.series().len() implies series_id@
                        != series_id_of(i) by {
                        assert(i + 1 <= count);
                        let n = (i + 1) as u64;
                        assert(n as nat == (i + 1) as nat);
                        assert(series_id@ != decimal(n as nat));
                    }
                }
                None
            },
        }
    }
}

} // verus!
