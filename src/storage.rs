//! Storage-deposit reconciliation, and the values the host supplies that are
//! plain computations.
use vstd::prelude::*;
use crate::error::CampgroundError;
use vstd::utf8::encode_utf8;

verus! {

/// Price of one byte of storage, in yoctoNEAR.
pub open spec fn byte_cost() -> int {
    10_000_000_000_000_000_000
}

/// Relies on near_sdk::env::storage_byte_cost: the price of one byte of
/// storage, the constant `STORAGE_PRICE_PER_BYTE` in this version.
#[verifier::external_body]
pub(crate) fn storage_byte_cost() -> (r: u128)
    ensures
        r == byte_cost(),
{
    near_sdk::env::storage_byte_cost()
}

pub open spec fn is_separator(c: char) -> bool {
    c == '-' || c == '_' || c == '.'
}

pub open spec fn is_lower_or_digit(c: char) -> bool {
    ('a' <= c && c <= 'z') || ('0' <= c && c <= '9')
}

/// A well-formed account id: 2 to 64 characters from `a-z`, `0-9`, `-`, `_`,
/// `.`, where a separator (`-`, `_`, `.`) neither starts nor ends the id nor
/// follows another separator.
pub open spec fn valid_account_id(s: Seq<char>) -> bool {
    &&& 2 <= s.len() <= 64
    &&& forall|i: int| 0 <= i < s.len() ==> is_lower_or_digit(s[i]) || is_separator(s[i])
    &&& forall|i: int|
        0 <= i < s.len() && #[trigger] is_separator(s[i]) ==> 0 < i < s.len() - 1 && !is_separator(
            s[i - 1],
        )
}

/// Relies on near_sdk::env::is_valid_account_id, which checks the byte length
/// (2 to 64) and the characters of an account id as `valid_account_id` states.
#[verifier::external_body]
pub(crate) fn is_valid_account_id(s: &String) -> (r: bool)
    ensures
        r == valid_account_id(s@),
{
    near_sdk::env::is_valid_account_id(s.as_bytes())
}

/// Bytes that `storage_used` bytes of storage cost.
pub open spec fn storage_cost(storage_used: int) -> int {
    storage_used * byte_cost()
}

/// Storage consumed between two measurements; freed storage counts as none.
pub fn storage_used_between(initial: u64, current: u64) -> (r: u64)
    ensures
        r == if current >= initial {
            current - initial
        } else {
            0
        },
{
    if current >= initial {
        current - initial
    } else {
        0
    }
}

/// What is left of `attached_deposit` once `extra_spend` and the cost of
/// `storage_used` bytes are taken out, when that is more than one yoctoNEAR;
/// else zero.
pub open spec fn refund_due(storage_used: int, extra_spend: int, attached_deposit: int) -> int {
    let left = attached_deposit - extra_spend - storage_cost(storage_used);
    if left > 1 {
        left
    } else {
        0
    }
}

/// Reconciles the attached deposit against the storage an operation used,
/// after `extra_spend` went elsewhere. Returns the refund owed to the caller:
/// what is left above the storage cost, or zero where at most one yoctoNEAR is
/// left.
pub fn refund_deposit(storage_used: u64, extra_spend: u128, attached_deposit: u128) -> (r: Result<
    u128,
    CampgroundError,
>)
    ensures
        match r {
            Ok(refund) => {
                &&& extra_spend <= attached_deposit
                &&& storage_cost(storage_used as int) <= attached_deposit - extra_spend
                &&& refund == refund_due(storage_used as int, extra_spend as int, attached_deposit as int)
            },
            Err(e) => {
                &&& e == CampgroundError::InsufficientPayment
                &&& (extra_spend > attached_deposit || storage_cost(storage_used as int)
                    > attached_deposit - extra_spend)
            },
        },
{
    let cost = storage_byte_cost();
    assert(storage_used * cost <= u64::MAX * 10_000_000_000_000_000_000) by (nonlinear_arith)
        requires
            cost == 10_000_000_000_000_000_000,
            storage_used <= u64::MAX,
    ;
    let required_cost = cost * storage_used as u128;
    if extra_spend > attached_deposit {
        return Err(CampgroundError::InsufficientPayment);
    }
    let available = attached_deposit - extra_spend;
    if required_cost > available {
        return Err(CampgroundError::InsufficientPayment);
    }
    let refund = available - required_cost;
    if refund > 1 {
        Ok(refund)
    } else {
        Ok(0)
    }
}

/// Bytes that an approved account id takes in storage: its length, four bytes
/// for that length, and eight for the approval id.
pub open spec fn approved_account_bytes(account_id: Seq<char>) -> int {
    encode_utf8(account_id).len() as int + 12
}

/// Bytes that a list of approved account ids takes in storage.
pub open spec fn approved_accounts_bytes(ids: Seq<String>) -> int
    decreases ids.len(),
{
    if ids.len() == 0 {
        0
    } else {
        approved_accounts_bytes(ids.drop_last()) + approved_account_bytes(ids.last()@)
    }
}

proof fn lemma_approved_prefix(ids: Seq<String>, i: int)
    requires
        0 <= i <= ids.len(),
    ensures
        0 <= approved_accounts_bytes(ids.subrange(0, i)) <= approved_accounts_bytes(ids),
    decreases ids.len(),
{
    if i == ids.len() {
        assert(ids.subrange(0, i) =~= ids);
        if ids.len() > 0 {
            lemma_approved_prefix(ids.drop_last(), 0);
        }
    } else {
        assert(ids.subrange(0, i) =~= ids.drop_last().subrange(0, i));
        lemma_approved_prefix(ids.drop_last(), i);
    }
}

pub fn bytes_for_approved_account_id(account_id: &String) -> (r: u64)
    requires
        approved_account_bytes(account_id@) <= u64::MAX,
    ensures
        r == approved_account_bytes(account_id@),
{
    let len = account_id.as_str().as_bytes().len();
    len as u64 + 4 + 8
}

/// A payment the host must make.
#[derive(Debug)]
pub struct Transfer {
    pub receiver_id: String,
    pub amount: u128,
}

/// The refund, to `account_id`, of the storage that the approvals of
/// `approved_account_ids` took.
pub fn refund_approved_account_ids(account_id: String, approved_account_ids: &Vec<String>) -> (r:
    Transfer)
    requires
        approved_accounts_bytes(approved_account_ids@) <= u64::MAX,
    ensures
        r.receiver_id == account_id,
        r.amount == storage_cost(approved_accounts_bytes(approved_account_ids@)),
{
    let mut released: u64 = 0;
    let mut i: usize = 0;
    while i < approved_account_ids.len()
        invariant
            i <= approved_account_ids@.len(),
            released == approved_accounts_bytes(approved_account_ids@.subrange(0, i as int)),
            approved_accounts_bytes(approved_account_ids@) <= u64::MAX,
        decreases approved_account_ids.len() - i,
    {
        proof {
            lemma_approved_prefix(approved_account_ids@, i as int + 1);
            assert(approved_account_ids@.subrange(0, i as int + 1).drop_last()
                =~= approved_account_ids@.subrange(0, i as int));
        }
        let bytes = bytes_for_approved_account_id(&approved_account_ids[i]);
        released = released + bytes;
        i += 1;
    }
    assert(approved_account_ids@.subrange(0, i as int) =~= approved_account_ids@);
    let cost = storage_byte_cost();
    assert(released * cost <= u64::MAX * 10_000_000_000_000_000_000) by (nonlinear_arith)
        requires
            cost == 10_000_000_000_000_000_000,
            released <= u64::MAX,
    ;
    Transfer { receiver_id: account_id, amount: released as u128 * cost }
}

} // verus!
