//! Character-level text helpers: splitting into lines, trimming, fields.

use vstd::prelude::*;

verus! {

/// The pieces of `s` between line feeds, in order; there is always at least one.
pub open spec fn pieces(s: Seq<char>) -> Seq<Seq<char>>
    decreases s.len(),
{
    if s.len() == 0 {
        seq![Seq::empty()]
    } else {
        let p = pieces(s.drop_last());
        if s.last() == '\n' {
            p.push(Seq::empty())
        } else {
            p.update(p.len() - 1, p.last().push(s.last()))
        }
    }
}

/// A terminated line loses the carriage return of a `\r\n` ending.
pub open spec fn strip_cr(l: Seq<char>) -> Seq<char> {
    if l.len() > 0 && l.last() == '\r' {
        l.drop_last()
    } else {
        l
    }
}

/// The lines of a text: line feeds (or `\r\n`) end lines, and a final
/// line ending is optional.
pub open spec fn lines(s: Seq<char>) -> Seq<Seq<char>> {
    let p = pieces(s);
    let n = if p.last().len() == 0 { p.len() - 1 } else { p.len() as int };
    Seq::new(n as nat, |i: int| if i < p.len() - 1 { strip_cr(p[i]) } else { p[i] })
}

/// The contents of a list of character vectors.
pub open spec fn views(v: Seq<Vec<char>>) -> Seq<Seq<char>> {
    v.map_values(|l: Vec<char>| l@)
}

/// Splits a text into its lines.
pub fn split_lines(text: &Vec<char>) -> (r: Vec<Vec<char>>)
    ensures
        views(r@) == lines(text@),
{
    let mut done: Vec<Vec<char>> = Vec::new();
    let mut cur: Vec<char> = Vec::new();
    let mut i: usize = 0;
    proof {
        assert(text@.take(0) =~= Seq::<char>::empty());
        assert(views(done@).push(cur@) =~= pieces(text@.take(0)));
    }
    while i < text.len()
        invariant
            i <= text.len(),
            pieces(text@.take(i as int)) == views(done@).push(cur@),
        decreases text.len() - i,
    {
        let c = text[i];
        proof {
            assert(text@.take(i + 1).drop_last() =~= text@.take(i as int));
        }
        if c == '\n' {
            let ghost before = views(done@);
            done.push(cur);
            cur = Vec::new();
            proof {
                assert(views(done@) =~= before.push(done[done.len() - 1]@));
                assert(views(done@).push(cur@) =~= pieces(text@.take(i + 1)));
            }
        } else {
            cur.push(c);
            proof {
                assert(views(done@).push(cur@) =~= pieces(text@.take(i + 1)));
            }
        }
        i += 1;
    }
    proof {
        assert(text@.take(i as int) =~= text@);
    }
    let ghost p = pieces(text@);
    let mut r: Vec<Vec<char>> = Vec::new();
    let mut j: usize = 0;
    while j < done.len()
        invariant
            j <= done.len(),
            p == views(done@).push(cur@),
            r.len() == j,
            views(r@) =~= Seq::new(j as nat, |k: int| strip_cr(p[k])),
        decreases done.len() - j,
    {
        let line = &done[j];
        let n = line.len();
        let mut l: Vec<char> = Vec::new();
        let keep: usize = if n > 0 && line[n - 1] == '\r' { n - 1 } else { n };
        let mut k: usize = 0;
        while k < keep
            invariant
                keep <= line.len(),
                k <= keep,
                line@ == p[j as int],
                r.len() == j,
                j < done.len(),
                l@ =~= line@.take(k as int),
            decreases keep - k,
        {
            l.push(line[k]);
            k += 1;
        }
        proof {
            assert(l@ =~= strip_cr(p[j as int]));
        }
        let ghost before = views(r@);
        r.push(l);
        proof {
            assert(views(r@) =~= before.push(r[j as int]@));
        }
        j += 1;
    }
    if cur.len() > 0 {
        let ghost before = views(r@);
        r.push(cur);
        proof {
            assert(views(r@) =~= before.push(r[j as int]@));
        }
    }
    proof {
        assert(views(r@) =~= lines(text@));
    }
    r
}

} // verus!

verus! {

/// What `char::is_whitespace` answers for a character (the Unicode
/// `White_Space` property).
pub uninterp spec fn white_space(c: char) -> bool;

/// Relies on `char::is_whitespace`: the Unicode `White_Space` property,
/// which holds of space, tab, line feed and carriage return.
#[verifier::external_body]
pub(crate) fn is_space(c: char) -> (r: bool)
    ensures
        r == white_space(c),
        c == ' ' || c == '\t' || c == '\n' || c == '\r' ==> r,
{
    c.is_whitespace()
}

/// Relies on `str::chars`: the characters of a string slice, in order.
#[verifier::external_body]
pub(crate) fn chars_of(s: &str) -> (r: Vec<char>)
    ensures
        r@ == s@,
{
    s.chars().collect()
}

/// Relies on `String`'s `FromIterator<&char>`: the string of the given characters, in order.
#[verifier::external_body]
pub(crate) fn string_of(v: &Vec<char>) -> (r: String)
    ensures
        r@ == v@,
{
    v.iter().collect()
}

/// `s` without its leading white space.
pub open spec fn trim_start(s: Seq<char>) -> Seq<char>
    decreases s.len(),
{
    if s.len() > 0 && white_space(s[0]) {
        trim_start(s.drop_first())
    } else {
        s
    }
}

/// `s` without its trailing white space.
pub open spec fn trim_end(s: Seq<char>) -> Seq<char>
    decreases s.len(),
{
    if s.len() > 0 && white_space(s.last()) {
        trim_end(s.drop_last())
    } else {
        s
    }
}

/// `s` without white space at either end.
pub open spec fn trim(s: Seq<char>) -> Seq<char> {
    trim_end(trim_start(s))
}

/// The run of non-white-space characters that `s` starts with.
pub open spec fn word(s: Seq<char>) -> Seq<char>
    decreases s.len(),
{
    if s.len() > 0 && !white_space(s[0]) {
        seq![s[0]] + word(s.drop_first())
    } else {
        Seq::empty()
    }
}

/// The white-space separated field of `s` at position `k`; empty where `s`
/// has no such field.
pub open spec fn field(s: Seq<char>, k: nat) -> Seq<char>
    decreases k,
{
    let t = trim_start(s);
    if k == 0 {
        word(t)
    } else {
        field(t.skip(word(t).len() as int), (k - 1) as nat)
    }
}

/// The characters `v[from..to]`.
pub fn slice_of(v: &Vec<char>, from: usize, to: usize) -> (r: Vec<char>)
    requires
        from <= to <= v.len(),
    ensures
        r@ == v@.subrange(from as int, to as int),
{
    let mut r: Vec<char> = Vec::new();
    let mut i: usize = from;
    while i < to
        invariant
            from <= i <= to <= v.len(),
            r@ =~= v@.subrange(from as int, i as int),
        decreases to - i,
    {
        r.push(v[i]);
        i += 1;
    }
    r
}

/// The first position at or after `from` that holds no white space.
fn skip_space(v: &Vec<char>, from: usize) -> (r: usize)
    requires
        from <= v.len(),
    ensures
        from <= r <= v.len(),
        trim_start(v@.skip(from as int)) == v@.skip(r as int),
{
    let mut i: usize = from;
    while i < v.len() && is_space(v[i])
        invariant
            from <= i <= v.len(),
            trim_start(v@.skip(from as int)) == trim_start(v@.skip(i as int)),
        decreases v.len() - i,
    {
        assert(v@.skip(i as int).drop_first() =~= v@.skip(i + 1));
        i += 1;
    }
    proof {
        lemma_trim_start_stops(v@.skip(i as int));
    }
    i
}

proof fn lemma_trim_start_stops(s: Seq<char>)
    requires
        s.len() == 0 || !white_space(s[0]),
    ensures
        trim_start(s) == s,
{
}

/// The first position at or after `from` that holds white space.
fn skip_word(v: &Vec<char>, from: usize) -> (r: usize)
    requires
        from <= v.len(),
    ensures
        from <= r <= v.len(),
        word(v@.skip(from as int)) == v@.subrange(from as int, r as int),
        r == v.len() || white_space(v@[r as int]),
{
    let mut i: usize = from;
    while i < v.len() && !is_space(v[i])
        invariant
            from <= i <= v.len(),
            word(v@.skip(from as int)) == v@.subrange(from as int, i as int) + word(v@.skip(i as int)),
        decreases v.len() - i,
    {
        assert(v@.skip(i as int).drop_first() =~= v@.skip(i + 1));
        assert(v@.subrange(from as int, i as int) + seq![v@[i as int]] =~= v@.subrange(from as int, i + 1));
        assert(word(v@.skip(i as int)) == seq![v@[i as int]] + word(v@.skip(i + 1)));
        i += 1;
    }
    assert(word(v@.skip(i as int)) =~= Seq::<char>::empty());
    assert(v@.subrange(from as int, i as int) + Seq::<char>::empty() =~= v@.subrange(from as int, i as int));
    i
}

/// The white-space separated field of `v` at position `k` (empty where there is none).
pub fn field_at(v: &Vec<char>, k: usize) -> (r: Vec<char>)
    ensures
        r@ == field(v@, k as nat),
{
    let mut i: usize = 0;
    let mut n: usize = 0;
    assert(v@.skip(0) =~= v@);
    while n < k
        invariant
            n <= k,
            i <= v.len(),
            field(v@, k as nat) == field(v@.skip(i as int), (k - n) as nat),
        decreases k - n,
    {
        let s = skip_space(v, i);
        let e = skip_word(v, s);
        proof {
            let t = v@.skip(s as int);
            assert(t.skip(word(t).len() as int) =~= v@.skip(e as int));
        }
        i = e;
        n += 1;
    }
    let s = skip_space(v, i);
    let e = skip_word(v, s);
    slice_of(v, s, e)
}

/// `v` without white space at either end.
pub fn trimmed(v: &Vec<char>) -> (r: Vec<char>)
    ensures
        r@ == trim(v@),
{
    assert(v@.skip(0) =~= v@);
    let s = skip_space(v, 0);
    let mut e: usize = v.len();
    let ghost t = v@.skip(s as int);
    assert(t.take(t.len() as int) =~= t);
    while e > s && is_space(v[e - 1])
        invariant
            s <= e <= v.len(),
            t == v@.skip(s as int),
            trim_end(t) == trim_end(t.take(e - s)),
        decreases e,
    {
        assert(t.take(e - s).drop_last() =~= t.take(e - s - 1));
        e -= 1;
    }
    assert(t.take(e - s) =~= v@.subrange(s as int, e as int));
    slice_of(v, s, e)
}

} // verus!
