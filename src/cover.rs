//! Names for exported cover images, unique over a run.

use vstd::prelude::*;
use crate::number::{all_digits, digit_value, digits_value, is_digit, leading_digits, lemma_leading_digits};
use crate::song::last_dot;
use crate::text::{chars_of, slice_of, string_of};

verus! {

pub open spec fn digit_char(d: nat) -> char
    recommends
        d < 10,
{
    (d + 48) as char
}

/// The decimal digits of `n`, without leading zeros.
pub open spec fn decimal(n: nat) -> Seq<char>
    decreases n,
{
    if n < 10 {
        seq![digit_char(n)]
    } else {
        decimal(n / 10).push(digit_char(n % 10))
    }
}

/// The extension of a path: what follows its last `.`, if it has one.
pub open spec fn extension(path: Seq<char>) -> Option<Seq<char>> {
    if last_dot(path) >= 0 {
        Some(path.skip(last_dot(path) + 1))
    } else {
        None
    }
}

pub open spec fn cover_prefix() -> Seq<char> {
    seq!['c', 'o', 'v', 'e', 'r', '-']
}

/// `cover-<index>.<extension of source>`, or `cover-<index>` where the
/// source has no extension.
pub open spec fn cover_name(index: nat, source: Seq<char>) -> Seq<char> {
    cover_prefix() + decimal(index) + match extension(source) {
        Some(e) => seq!['.'] + e,
        None => Seq::empty(),
    }
}

pub proof fn lemma_decimal(n: nat)
    ensures
        decimal(n).len() > 0,
        all_digits(decimal(n)),
        digits_value(decimal(n)) == n,
    decreases n,
{
    if n >= 10 {
        lemma_decimal(n / 10);
        assert(decimal(n).drop_last() =~= decimal(n / 10));
        assert(digit_value(digit_char(n % 10)) == n % 10);
        assert(n == (n / 10) * 10 + n % 10);
        assert(decimal(n).last() == digit_char(n % 10));
        assert(digits_value(decimal(n)) == digits_value(decimal(n / 10)) * 10 + n % 10);
        assert forall|k: int| 0 <= k < decimal(n).len() implies is_digit(#[trigger] decimal(n)[k]) by {
            if k < decimal(n).len() - 1 {
                assert(decimal(n)[k] == decimal(n / 10)[k]);
            }
        }
    } else {
        assert(digit_value(digit_char(n)) == n);
        assert(decimal(n).drop_last() =~= Seq::<char>::empty());
        assert(digits_value(decimal(n).drop_last()) == 0);
    }
}

/// The decimal digits of `n`.
pub fn decimal_digits(n: u64) -> (r: Vec<char>)
    ensures
        r@ == decimal(n as nat),
    decreases n,
{
    if n < 10 {
        let c = ((n as u8) + 48) as char;
        vec![c]
    } else {
        let mut v = decimal_digits(n / 10);
        let c = (((n % 10) as u8) + 48) as char;
        v.push(c);
        v
    }
}

/// The position of the last `.` in `v`, if any.
fn find_last_dot(v: &Vec<char>) -> (r: Option<usize>)
    ensures
        match r {
            Some(i) => i < v.len() && last_dot(v@) == i,
            None => last_dot(v@) == -1,
        },
{
    let mut i: usize = v.len();
    assert(v@.take(i as int) =~= v@);
    while i > 0
        invariant
            i <= v.len(),
            last_dot(v@) == last_dot(v@.take(i as int)),
        decreases i,
    {
        if v[i - 1] == '.' {
            return Some(i - 1);
        }
        assert(v@.take(i as int).drop_last() =~= v@.take(i - 1));
        i -= 1;
    }
    None
}

/// The name under which the cover image at `source` is exported as the
/// `index`-th cover of a run (see `cover_name`).
pub fn cover_file_name(index: u64, source: &str) -> (r: String)
    ensures
        r@ == cover_name(index as nat, source@),
{
    let path = chars_of(source);
    let mut name: Vec<char> = vec!['c', 'o', 'v', 'e', 'r', '-'];
    let digits = decimal_digits(index);
    let mut i: usize = 0;
    assert(name@ =~= cover_prefix());
    while i < digits.len()
        invariant
            i <= digits.len(),
            name@ =~= cover_prefix() + digits@.take(i as int),
        decreases digits.len() - i,
    {
        name.push(digits[i]);
        i += 1;
    }
    assert(digits@.take(i as int) =~= digits@);
    match find_last_dot(&path) {
        Some(d) => {
            let ext = slice_of(&path, d + 1, path.len());
            let ghost base = name@;
            name.push('.');
            let mut k: usize = 0;
            while k < ext.len()
                invariant
                    k <= ext.len(),
                    name@ =~= base + seq!['.'] + ext@.take(k as int),
                decreases ext.len() - k,
            {
                name.push(ext[k]);
                k += 1;
            }
            assert(ext@.take(k as int) =~= ext@);
            assert(name@ =~= cover_name(index as nat, source@));
        },
        None => {
            assert(name@ =~= cover_name(index as nat, source@));
        },
    }
    string_of(&name)
}

/// Cover names of different indices differ, whatever the sources'
/// extensions: no two covers exported in one run collide.
pub proof fn cover_names_distinct(i: nat, j: nat, a: Seq<char>, b: Seq<char>)
    requires
        i != j,
    ensures
        cover_name(i, a) != cover_name(j, b),
{
    lemma_digits_after_prefix(i, a);
    lemma_digits_after_prefix(j, b);
    lemma_decimal(i);
    lemma_decimal(j);
}

proof fn lemma_digits_after_prefix(i: nat, a: Seq<char>)
    ensures
        cover_name(i, a).skip(6).take(leading_digits(cover_name(i, a).skip(6)) as int) == decimal(i),
{
    lemma_decimal(i);
    let s = cover_name(i, a).skip(6);
    let n = decimal(i).len() as int;
    assert(s.take(n) =~= decimal(i));
    assert forall|k: int| 0 <= k < n implies is_digit(#[trigger] s[k]) by {
        assert(s[k] == decimal(i)[k]);
    }
    if n < s.len() {
        assert(s[n] == '.');
    }
    lemma_leading_digits(s, n);
}

/// The counter that numbers the covers exported in one run.
pub struct CoverIndex {
    next: u64,
}

impl CoverIndex {
    pub closed spec fn view(&self) -> nat {
        self.next as nat
    }

    /// A counter for a new run: the first cover gets index zero.
    pub fn new() -> (r: CoverIndex)
        ensures
            r@ == 0,
    {
        CoverIndex { next: 0 }
    }

    /// The index that the next exported cover gets.
    pub fn next(&self) -> (r: u64)
        ensures
            r == self@,
    {
        self.next
    }

    /// The name for the cover at `source`, under the current index.
    pub fn name_for(&self, source: &str) -> (r: String)
        ensures
            r@ == cover_name(self@, source@),
    {
        cover_file_name(self.next, source)
    }

    /// Records that a cover was exported under the current index.
    pub fn advance(&mut self)
        requires
            old(self)@ < u64::MAX,
        ensures
            final(self)@ == old(self)@ + 1,
    {
        self.next = self.next + 1;
    }
}

} // verus!
