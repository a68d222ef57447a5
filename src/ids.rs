//! Series ids and copy ids: decimal numbers, and `"{series}:{copy}"` pairs.
use vstd::prelude::*;

verus! {

/// The character for a digit `0..=9`.
pub open spec fn digit_char(d: int) -> char {
    if d == 0 {
        '0'
    } else if d == 1 {
        '1'
    } else if d == 2 {
        '2'
    } else if d == 3 {
        '3'
    } else if d == 4 {
        '4'
    } else if d == 5 {
        '5'
    } else if d == 6 {
        '6'
    } else if d == 7 {
        '7'
    } else if d == 8 {
        '8'
    } else {
        '9'
    }
}

/// The value of a digit character, or -1 for any other character.
pub open spec fn digit_value(c: char) -> int {
    if c == '0' {
        0
    } else if c == '1' {
        1
    } else if c == '2' {
        2
    } else if c == '3' {
        3
    } else if c == '4' {
        4
    } else if c == '5' {
        5
    } else if c == '6' {
        6
    } else if c == '7' {
        7
    } else if c == '8' {
        8
    } else if c == '9' {
        9
    } else {
        -1
    }
}

/// The decimal text of `n`: most significant digit first, no leading zero.
pub open spec fn decimal(n: nat) -> Seq<char>
    decreases n,
{
    if n < 10 {
        seq![digit_char(n as int)]
    } else {
        decimal(n / 10).push(digit_char((n % 10) as int))
    }
}

/// The number that a string of digits reads as.
pub open spec fn value_of(s: Seq<char>) -> int
    decreases s.len(),
{
    if s.len() == 0 {
        0
    } else {
        value_of(s.drop_last()) * 10 + digit_value(s.last())
    }
}

pub open spec fn all_digits(s: Seq<char>) -> bool {
    forall|j: int| 0 <= j < s.len() ==> 0 <= #[trigger] digit_value(s[j]) <= 9
}

/// The id of copy number `copy` of series `series`.
pub open spec fn copy_id_of(series: nat, copy: nat) -> Seq<char> {
    decimal(series) + seq![':'] + decimal(copy)
}

/// The first position at or after `from` that holds the delimiter, or the length.
pub open spec fn next_delim(s: Seq<char>, from: int) -> int
    decreases s.len() - from,
{
    if from >= s.len() {
        s.len() as int
    } else if s[from] == ':' {
        from
    } else {
        next_delim(s, from + 1)
    }
}

/// Decimal text is non-empty, all digits, and reads back as its number.
pub proof fn lemma_decimal(n: nat)
    ensures
        decimal(n).len() >= 1,
        all_digits(decimal(n)),
        value_of(decimal(n)) == n,
    decreases n,
{
    if n < 10 {
        let s = decimal(n);
        assert(s.drop_last() =~= Seq::<char>::empty());
        assert(value_of(s.drop_last()) == 0);
        assert(digit_value(s.last()) == n);
    } else {
        lemma_decimal(n / 10);
        let s = decimal(n);
        assert(s.drop_last() =~= decimal(n / 10));
        assert(n == (n / 10) * 10 + n % 10) by (nonlinear_arith);
        assert(0 <= n % 10 < 10);
        assert(digit_value(s.last()) == n % 10);
        assert forall|j: int| 0 <= j < s.len() implies 0 <= #[trigger] digit_value(s[j]) <= 9 by {
            if j < s.len() - 1 {
                assert(s[j] == decimal(n / 10)[j]);
            }
        }
    }
}

proof fn lemma_prefix_value(s: Seq<char>)
    requires
        all_digits(s),
    ensures
        value_of(s) >= 0,
        forall|i: int| 0 <= i <= s.len() ==> value_of(#[trigger] s.subrange(0, i)) <= value_of(s),
    decreases s.len(),
{
    if s.len() > 0 {
        let t = s.drop_last();
        assert(all_digits(t)) by {
            assert forall|j: int| 0 <= j < t.len() implies 0 <= #[trigger] digit_value(t[j]) <= 9 by {
                assert(t[j] == s[j]);
            }
        }
        lemma_prefix_value(t);
        assert(0 <= digit_value(s[s.len() - 1]) <= 9);
        assert forall|i: int| 0 <= i <= s.len() implies value_of(#[trigger] s.subrange(0, i))
            <= value_of(s) by {
            if i < s.len() {
                assert(s.subrange(0, i) =~= t.subrange(0, i));
            } else {
                assert(s.subrange(0, i) =~= s);
            }
        }
    } else {
        assert forall|i: int| 0 <= i <= s.len() implies value_of(#[trigger] s.subrange(0, i))
            <= value_of(s) by {
            assert(s.subrange(0, i) =~= s);
        }
    }
}

/// Decimal text is determined by its number: distinct numbers have distinct texts.
pub proof fn lemma_decimal_injective(a: nat, b: nat)
    requires
        decimal(a) == decimal(b),
    ensures
        a == b,
{
    lemma_decimal(a);
    lemma_decimal(b);
}

proof fn lemma_next_delim_skips(s: Seq<char>, from: int, to: int)
    requires
        0 <= from <= to <= s.len(),
        forall|j: int| from <= j < to ==> s[j] != ':',
    ensures
        next_delim(s, from) == next_delim(s, to),
    decreases to - from,
{
    if from < to {
        lemma_next_delim_skips(s, from + 1, to);
    }
}

/// In a copy id, the first delimiter stands right after the series number.
pub proof fn lemma_copy_id_split(series: nat, copy: nat)
    ensures
        next_delim(copy_id_of(series, copy), 0) == decimal(series).len(),
        copy_id_of(series, copy).subrange(0, decimal(series).len() as int) =~= decimal(series),
        copy_id_of(series, copy).subrange(
            decimal(series).len() as int + 1,
            copy_id_of(series, copy).len() as int,
        ) =~= decimal(copy),
{
    let s = copy_id_of(series, copy);
    let d = decimal(series);
    lemma_decimal(series);
    assert forall|j: int| 0 <= j < d.len() implies s[j] != ':' by {
        assert(s[j] == d[j]);
        assert(0 <= digit_value(d[j]) <= 9);
    }
    lemma_next_delim_skips(s, 0, d.len() as int);
    assert(s[d.len() as int] == ':');
}

/// Copy ids are determined by their two numbers.
pub proof fn lemma_copy_id_injective(a: nat, b: nat, c: nat, d: nat)
    requires
        copy_id_of(a, b) == copy_id_of(c, d),
    ensures
        a == c,
        b == d,
{
    lemma_copy_id_split(a, b);
    lemma_copy_id_split(c, d);
    lemma_decimal_injective(a, c);
    lemma_decimal_injective(b, d);
}

fn digit_str(d: u128) -> (r: &'static str)
    requires
        d < 10,
    ensures
        r@ =~= seq![digit_char(d as int)],
{
    if d == 0 {
        proof {
            reveal_strlit("0");
        }
        "0"
    } else if d == 1 {
        proof {
            reveal_strlit("1");
        }
        "1"
    } else if d == 2 {
        proof {
            reveal_strlit("2");
        }
        "2"
    } else if d == 3 {
        proof {
            reveal_strlit("3");
        }
        "3"
    } else if d == 4 {
        proof {
            reveal_strlit("4");
        }
        "4"
    } else if d == 5 {
        proof {
            reveal_strlit("5");
        }
        "5"
    } else if d == 6 {
        proof {
            reveal_strlit("6");
        }
        "6"
    } else if d == 7 {
        proof {
            reveal_strlit("7");
        }
        "7"
    } else if d == 8 {
        proof {
            reveal_strlit("8");
        }
        "8"
    } else {
        proof {
            reveal_strlit("9");
        }
        "9"
    }
}

fn digit_of(c: char) -> (r: Option<u64>)
    ensures
        match r {
            Some(d) => d < 10 && digit_value(c) == d,
            None => digit_value(c) == -1,
        },
{
    if c == '0' {
        Some(0)
    } else if c == '1' {
        Some(1)
    } else if c == '2' {
        Some(2)
    } else if c == '3' {
        Some(3)
    } else if c == '4' {
        Some(4)
    } else if c == '5' {
        Some(5)
    } else if c == '6' {
        Some(6)
    } else if c == '7' {
        Some(7)
    } else if c == '8' {
        Some(8)
    } else if c == '9' {
        Some(9)
    } else {
        None
    }
}

/// The decimal text of `n`.
pub fn decimal_string(n: u128) -> (r: String)
    ensures
        r@ == decimal(n as nat),
    decreases n,
{
    if n < 10 {
        String::from_str(digit_str(n))
    } else {
        let mut s = decimal_string(n / 10);
        s.append(digit_str(n % 10));
        s
    }
}

/// Reads a decimal number; only the exact text that `decimal_string` writes is accepted.
pub fn parse_decimal(s: &str) -> (r: Option<u64>)
    ensures
        match r {
            Some(n) => s@ == decimal(n as nat),
            None => forall|n: u64| s@ != decimal(n as nat),
        },
{
    let len = s.unicode_len();
    if len == 0 {
        proof {
            assert forall|n: u64| s@ != decimal(n as nat) by {
                lemma_decimal(n as nat);
            }
        }
        return None;
    }
    let mut acc: u64 = 0;
    let mut i: usize = 0;
    while i < len
        invariant
            i <= len,
            len == s@.len(),
            acc == value_of(s@.subrange(0, i as int)),
            all_digits(s@.subrange(0, i as int)),
        decreases len - i,
    {
        let c = s.get_char(i);
        let ghost pre = s@.subrange(0, i as int);
        let ghost next = s@.subrange(0, i as int + 1);
        assert(next.drop_last() =~= pre);
        match digit_of(c) {
            None => {
                proof {
                    assert forall|n: u64| s@ != decimal(n as nat) by {
                        lemma_decimal(n as nat);
                        if s@ == decimal(n as nat) {
                            assert(0 <= digit_value(s@[i as int]) <= 9);
                        }
                    }
                }
                return None;
            },
            Some(d) => {
                if acc > (u64::MAX - d) / 10 {
                    proof {
                        assert(acc * 10 + d > u64::MAX) by (nonlinear_arith)
                            requires
                                acc > (u64::MAX - d) / 10,
                                d < 10,
                        ;
                        assert forall|n: u64| s@ != decimal(n as nat) by {
                            lemma_decimal(n as nat);
                            if s@ == decimal(n as nat) {
                                lemma_prefix_value(s@);
                                assert(value_of(next) == acc * 10 + d);
                            }
                        }
                    }
                    return None;
                }
                assert(acc * 10 + d <= u64::MAX) by (nonlinear_arith)
                    requires
                        acc <= (u64::MAX - d) / 10,
                        d < 10,
                ;
                acc = acc * 10 + d;
                proof {
                    assert forall|j: int| 0 <= j < next.len() implies 0 <= #[trigger] digit_value(
                        next[j],
                    ) <= 9 by {
                        if j < i {
                            assert(next[j] == pre[j]);
                        }
                    }
                }
            },
        }
        i += 1;
    }
    assert(s@.subrange(0, len as int) =~= s@);
    let back = decimal_string(acc as u128);
    let given = String::from_str(s);
    if back == given {
        Some(acc)
    } else {
        proof {
            assert forall|n: u64| s@ != decimal(n as nat) by {
                lemma_decimal(n as nat);
            }
        }
        None
    }
}

/// The id of copy number `copy` of series `series`: `"{series}:{copy}"`.
pub fn format_copy_id(series: u64, copy: u64) -> (r: String)
    ensures
        r@ == copy_id_of(series as nat, copy as nat),
{
    let mut s = decimal_string(series as u128);
    proof {
        reveal_strlit(":");
    }
    s.append(":");
    s.append(decimal_string(copy as u128).as_str());
    s
}

/// The first position at or after `from` that holds the delimiter, or the length.
fn find_delimiter(s: &str, from: usize) -> (r: usize)
    requires
        from <= s@.len(),
    ensures
        r == next_delim(s@, from as int),
        from <= r <= s@.len(),
        r < s@.len() ==> s@[r as int] == ':',
{
    proof {
        lemma_next_delim_bounds(s@, from as int);
    }
    let len = s.unicode_len();
    let mut i = from;
    while i < len
        invariant
            from <= i <= len,
            len == s@.len(),
            next_delim(s@, from as int) == next_delim(s@, i as int),
        decreases len - i,
    {
        if s.get_char(i) == crate::TRAIL_DELIMETER {
            return i;
        }
        i += 1;
    }
    i
}

/// Reads a copy id back into its series number and copy number.
pub fn parse_copy_id(id: &str) -> (r: Option<(u64, u64)>)
    ensures
        match r {
            Some((series, copy)) => id@ == copy_id_of(series as nat, copy as nat),
            None => forall|series: u64, copy: u64| id@ != copy_id_of(series as nat, copy as nat),
        },
{
    let len = id.unicode_len();
    let p = find_delimiter(id, 0);
    if p == len {
        proof {
            assert forall|a: u64, b: u64| id@ != copy_id_of(a as nat, b as nat) by {
                lemma_copy_id_split(a as nat, b as nat);
            }
        }
        return None;
    }
    let left = id.substring_char(0, p);
    let right = id.substring_char(p + 1, len);
    let a = parse_decimal(left);
    let b = parse_decimal(right);
    match (a, b) {
        (Some(a), Some(b)) => {
            assert(id@ =~= left@ + seq![':'] + right@);
            Some((a, b))
        },
        _ => {
            proof {
                assert forall|x: u64, y: u64| id@ != copy_id_of(x as nat, y as nat) by {
                    lemma_copy_id_split(x as nat, y as nat);
                }
            }
            None
        },
    }
}

/// Splits a copy id at its first delimiter: the series part, and the copy part
/// up to the next delimiter.
pub fn get_id_and_copy(trail_id: String) -> (r: (String, String))
    requires
        next_delim(trail_id@, 0) < trail_id@.len(),
    ensures
        r.0@ == trail_id@.subrange(0, next_delim(trail_id@, 0)),
        r.1@ == trail_id@.subrange(
            next_delim(trail_id@, 0) + 1,
            next_delim(trail_id@, next_delim(trail_id@, 0) + 1),
        ),
{
    let s = trail_id.as_str();
    let len = s.unicode_len();
    let p = find_delimiter(s, 0);
    assert(p < len);
    let q = find_delimiter(s, p + 1);
    proof {
        lemma_next_delim_bounds(s@, p as int + 1);
    }
    let id = String::from_str(s.substring_char(0, p));
    let copy = String::from_str(s.substring_char(p + 1, q));
    (id, copy)
}

proof fn lemma_next_delim_bounds(s: Seq<char>, from: int)
    requires
        0 <= from <= s.len(),
    ensures
        from <= next_delim(s, from) <= s.len(),
        next_delim(s, from) < s.len() ==> s[next_delim(s, from)] == ':',
    decreases s.len() - from,
{
    if from < s.len() && s[from] != ':' {
        lemma_next_delim_bounds(s, from + 1);
    }
}

} // verus!
