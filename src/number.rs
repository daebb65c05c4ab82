//! Reading numbers from tag values, and writing them back as digits.

use vstd::prelude::*;
use crate::text::trim;

verus! {

pub open spec fn is_digit(c: char) -> bool {
    '0' <= c <= '9'
}

pub open spec fn digit_value(c: char) -> nat {
    (c as int - '0' as int) as nat
}

pub open spec fn all_digits(s: Seq<char>) -> bool {
    forall|i: int| 0 <= i < s.len() ==> is_digit(#[trigger] s[i])
}

/// The number that a run of decimal digits writes.
pub open spec fn digits_value(s: Seq<char>) -> nat
    decreases s.len(),
{
    if s.len() == 0 {
        0
    } else {
        digits_value(s.drop_last()) * 10 + digit_value(s.last())
    }
}

/// The digits of an unsigned integer text, after an optional `+`.
pub open spec fn unsigned_digits(s: Seq<char>) -> Seq<char> {
    if s.len() > 0 && s[0] == '+' {
        s.drop_first()
    } else {
        s
    }
}

/// The value of an unsigned integer text (an optional `+`, then one or more
/// digits), where it is at most `limit`.
pub open spec fn unsigned_value(s: Seq<char>, limit: nat) -> Option<nat> {
    let d = unsigned_digits(s);
    if d.len() > 0 && all_digits(d) && digits_value(d) <= limit {
        Some(digits_value(d))
    } else {
        None
    }
}

/// The value of the digits `v[from..to]`, where it is at most `limit`.
fn digits_upto(v: &Vec<char>, from: usize, to: usize, limit: u128) -> (r: Option<u128>)
    requires
        from <= to <= v.len(),
        all_digits(v@.subrange(from as int, to as int)),
    ensures
        r == (if digits_value(v@.subrange(from as int, to as int)) <= limit {
            Some(digits_value(v@.subrange(from as int, to as int)) as u128)
        } else {
            None::<u128>
        }),
{
    let mut acc: u128 = 0;
    let mut over = false;
    let mut i: usize = from;
    assert(v@.subrange(from as int, from as int) =~= Seq::<char>::empty());
    while i < to
        invariant
            from <= i <= to <= v.len(),
            all_digits(v@.subrange(from as int, to as int)),
            !over ==> acc == digits_value(v@.subrange(from as int, i as int)) && acc <= limit,
            over ==> digits_value(v@.subrange(from as int, i as int)) > limit,
        decreases to - i,
    {
        let ghost prev = v@.subrange(from as int, i as int);
        let ghost next = v@.subrange(from as int, i + 1);
        assert(next.drop_last() =~= prev);
        assert(next.last() == v@.subrange(from as int, to as int)[i - from]);
        let c = v[i];
        let d = (c as u32 - '0' as u32) as u128;
        assert(d == digit_value(c));
        assert(digits_value(next) == digits_value(prev) * 10 + d);
        if !over {
            if d > limit || acc > (limit - d) / 10 {
                over = true;
                assert(digits_value(next) > limit) by (nonlinear_arith)
                    requires
                        digits_value(next) == acc * 10 + d,
                        d > limit || acc > (limit - d) / 10,
                        d <= limit ==> (limit - d) / 10 * 10 > limit - d - 10,
                ;
            } else {
                assert(acc * 10 + d <= limit) by (nonlinear_arith)
                    requires
                        acc <= (limit - d) / 10,
                        d <= limit,
                ;
                acc = acc * 10 + d;
            }
        } else {
            assert(digits_value(next) >= digits_value(prev)) by (nonlinear_arith)
                requires
                    digits_value(next) == digits_value(prev) * 10 + d,
            ;
        }
        i += 1;
    }
    if over {
        None
    } else {
        Some(acc)
    }
}

/// Reads an unsigned integer text (an optional `+`, then one or more
/// digits) whose value is at most `limit`.
pub fn parse_unsigned(v: &Vec<char>, limit: u128) -> (r: Option<u128>)
    ensures
        r == (match unsigned_value(v@, limit as nat) {
            Some(n) => Some(n as u128),
            None => None::<u128>,
        }),
{
    let from: usize = if v.len() > 0 && v[0] == '+' { 1 } else { 0 };
    let ghost d = unsigned_digits(v@);
    assert(d =~= v@.subrange(from as int, v.len() as int));
    if from == v.len() {
        assert(d.len() == 0);
        return None;
    }
    let mut i: usize = from;
    while i < v.len()
        invariant
            from <= i <= v.len(),
            d == v@.subrange(from as int, v.len() as int),
            d == unsigned_digits(v@),
            forall|k: int| from <= k < i ==> is_digit(v@[k]),
        decreases v.len() - i,
    {
        if !('0' <= v[i] && v[i] <= '9') {
            assert(!is_digit(d[i - from]));
            assert(!all_digits(d));
            return None;
        }
        i += 1;
    }
    assert(all_digits(d));
    digits_upto(v, from, v.len(), limit)
}

/// The number of digits that `s` starts with.
pub open spec fn leading_digits(s: Seq<char>) -> nat
    decreases s.len(),
{
    if s.len() > 0 && is_digit(s[0]) {
        1 + leading_digits(s.drop_first())
    } else {
        0
    }
}

/// The length of an optional leading sign.
pub open spec fn sign_len(s: Seq<char>) -> int {
    if s.len() > 0 && (s[0] == '+' || s[0] == '-') {
        1
    } else {
        0
    }
}

/// The value of a decimal number text (an optional sign, digits, then
/// optionally a decimal point and digits; one digit at least), truncated
/// toward zero and floored at zero. `None` where `s` is no such text.
pub open spec fn decimal_value(s: Seq<char>) -> Option<nat> {
    let b = s.skip(sign_len(s));
    let n = leading_digits(b);
    let rest = b.skip(n as int);
    if (rest.len() == 0 || (rest[0] == '.' && all_digits(rest.drop_first()))) && (n > 0
        || rest.len() > 1) {
        if s[0] == '-' {
            Some(0)
        } else {
            Some(digits_value(b.take(n as int)))
        }
    } else {
        None
    }
}

/// A value capped at the largest `u64`.
pub open spec fn cap_u64(n: nat) -> u64 {
    if n <= u64::MAX {
        n as u64
    } else {
        u64::MAX
    }
}

/// The value of a numeric tag: commas read as decimal points, white space
/// at the ends ignored. `None` where the value is malformed.
pub open spec fn numeric_tag(v: Seq<char>) -> Option<u64> {
    match decimal_value(trim(commas_to_points(v))) {
        Some(n) => Some(cap_u64(n)),
        None => None,
    }
}

pub open spec fn commas_to_points(v: Seq<char>) -> Seq<char> {
    v.map_values(|c: char| if c == ',' { '.' } else { c })
}

pub proof fn lemma_leading_digits(b: Seq<char>, k: int)
    requires
        0 <= k <= b.len(),
        forall|i: int| 0 <= i < k ==> is_digit(#[trigger] b[i]),
        k == b.len() || !is_digit(b[k]),
    ensures
        leading_digits(b) == k,
    decreases k,
{
    if k > 0 {
        let t = b.drop_first();
        assert forall|i: int| 0 <= i < k - 1 implies is_digit(#[trigger] t[i]) by {
            assert(t[i] == b[i + 1]);
        }
        lemma_leading_digits(t, k - 1);
    }
}

/// Reads a decimal number text (see `decimal_value`) as an integer,
/// capped at the largest `u64`.
pub fn parse_decimal(v: &Vec<char>) -> (r: Option<u64>)
    ensures
        r == (match decimal_value(v@) {
            Some(n) => Some(cap_u64(n)),
            None => None::<u64>,
        }),
{
    let s: usize = if v.len() > 0 && (v[0] == '+' || v[0] == '-') { 1 } else { 0 };
    let ghost b = v@.skip(s as int);
    let mut i: usize = s;
    while i < v.len() && '0' <= v[i] && v[i] <= '9'
        invariant
            s <= i <= v.len(),
            b == v@.skip(s as int),
            forall|k: int| s <= k < i ==> is_digit(#[trigger] v@[k]),
        decreases v.len() - i,
    {
        i += 1;
    }
    proof {
        assert forall|k: int| 0 <= k < i - s implies is_digit(#[trigger] b[k]) by {
            assert(b[k] == v@[k + s]);
        }
        lemma_leading_digits(b, i - s);
    }
    let n = i - s;
    let ghost rest = b.skip(n as int);
    assert(rest =~= v@.skip(i as int));
    let mut ok = true;
    if i < v.len() {
        if v[i] != '.' {
            ok = false;
        } else {
            let mut j: usize = i + 1;
            while j < v.len()
                invariant
                    i < j <= v.len(),
                    rest == v@.skip(i as int),
                    ok ==> forall|k: int| i < k < j ==> is_digit(#[trigger] v@[k]),
                    !ok ==> !all_digits(rest.drop_first()),
                decreases v.len() - j,
            {
                if !('0' <= v[j] && v[j] <= '9') {
                    assert(rest.drop_first()[j - i - 1] == v@[j as int]);
                    ok = false;
                }
                j += 1;
            }
            if ok {
                assert forall|k: int| 0 <= k < rest.drop_first().len() implies is_digit(
                    #[trigger] rest.drop_first()[k],
                ) by {
                    assert(rest.drop_first()[k] == v@[k + i + 1]);
                }
            }
        }
        if n == 0 && i + 1 == v.len() {
            ok = false;
        }
    } else if n == 0 {
        ok = false;
    }
    if !ok {
        return None;
    }
    if s == 1 && v[0] == '-' {
        return Some(0);
    }
    assert(b.take(n as int) =~= v@.subrange(s as int, i as int));
    assert(all_digits(v@.subrange(s as int, i as int)));
    match digits_upto(v, s, i, u64::MAX as u128) {
        Some(x) => Some(x as u64),
        None => Some(u64::MAX),
    }
}

/// Replaces each comma by a decimal point.
pub fn commas_as_points(v: &Vec<char>) -> (r: Vec<char>)
    ensures
        r@ == commas_to_points(v@),
{
    let mut r: Vec<char> = Vec::new();
    let mut i: usize = 0;
    while i < v.len()
        invariant
            i <= v.len(),
            r@ =~= commas_to_points(v@.take(i as int)),
        decreases v.len() - i,
    {
        let c = if v[i] == ',' { '.' } else { v[i] };
        r.push(c);
        i += 1;
        assert(commas_to_points(v@.take(i as int)) =~= commas_to_points(v@.take(i - 1)).push(c));
    }
    assert(v@.take(i as int) =~= v@);
    r
}

/// Reads the value of a numeric tag (see `numeric_tag`).
pub fn read_numeric_tag(v: &Vec<char>) -> (r: Option<u64>)
    ensures
        r == numeric_tag(v@),
{
    let t = crate::text::trimmed(&commas_as_points(v));
    parse_decimal(&t)
}

} // verus!
