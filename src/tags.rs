//! The tag reader: `#KEY:VALUE` lines of a song description.

use vstd::prelude::*;
use crate::number::{numeric_tag, unsigned_value};
use crate::text::slice_of;

verus! {

/// The recognised tags; every other key is ignored.
#[derive(PartialEq, Eq, Structural, Clone, Copy, Debug)]
pub enum TagKind {
    Title,
    Artist,
    Cover,
    Bpm,
    Gap,
    End,
    Other,
}

pub open spec fn kind_of(key: Seq<char>) -> TagKind {
    if key == seq!['T', 'I', 'T', 'L', 'E'] {
        TagKind::Title
    } else if key == seq!['A', 'R', 'T', 'I', 'S', 'T'] {
        TagKind::Artist
    } else if key == seq!['C', 'O', 'V', 'E', 'R'] {
        TagKind::Cover
    } else if key == seq!['B', 'P', 'M'] {
        TagKind::Bpm
    } else if key == seq!['G', 'A', 'P'] {
        TagKind::Gap
    } else if key == seq!['E', 'N', 'D'] {
        TagKind::End
    } else {
        TagKind::Other
    }
}

/// The number of characters before the first `:` (the length where there is none).
pub open spec fn colon_pos(s: Seq<char>) -> nat
    decreases s.len(),
{
    if s.len() > 0 && s[0] != ':' {
        1 + colon_pos(s.drop_first())
    } else {
        0
    }
}

/// A tag line starts with `#` and holds a `:` that ends its key.
pub open spec fn is_tag_line(l: Seq<char>) -> bool {
    l.len() > 0 && l[0] == '#' && colon_pos(l.drop_first()) < l.len() - 1
}

pub open spec fn tag_key(l: Seq<char>) -> Seq<char> {
    l.drop_first().take(colon_pos(l.drop_first()) as int)
}

/// Everything after the first `:`.
pub open spec fn tag_value(l: Seq<char>) -> Seq<char> {
    l.drop_first().skip(colon_pos(l.drop_first()) + 1int)
}

pub open spec fn line_kind(l: Seq<char>) -> TagKind {
    if is_tag_line(l) {
        kind_of(tag_key(l))
    } else {
        TagKind::Other
    }
}

/// The value of the last tag of kind `k` among `ls`.
pub open spec fn last_value(ls: Seq<Seq<char>>, k: TagKind) -> Option<Seq<char>>
    decreases ls.len(),
{
    if ls.len() == 0 {
        None
    } else if line_kind(ls.last()) == k {
        Some(tag_value(ls.last()))
    } else {
        last_value(ls.drop_last(), k)
    }
}

/// The values of all `ARTIST` tags, in order.
pub open spec fn artist_tags(ls: Seq<Seq<char>>) -> Seq<Seq<char>>
    decreases ls.len(),
{
    if ls.len() == 0 {
        Seq::empty()
    } else if line_kind(ls.last()) == TagKind::Artist {
        artist_tags(ls.drop_last()).push(tag_value(ls.last()))
    } else {
        artist_tags(ls.drop_last())
    }
}

/// A numeric tag (`BPM`, `GAP`) whose value could not be read.
pub open spec fn is_malformed(l: Seq<char>) -> bool {
    (line_kind(l) == TagKind::Bpm || line_kind(l) == TagKind::Gap) && numeric_tag(tag_value(l))
        is None
}

/// The keys of the malformed numeric tags, in order.
pub open spec fn malformed_tags(ls: Seq<Seq<char>>) -> Seq<Seq<char>>
    decreases ls.len(),
{
    if ls.len() == 0 {
        Seq::empty()
    } else if is_malformed(ls.last()) {
        malformed_tags(ls.drop_last()).push(tag_key(ls.last()))
    } else {
        malformed_tags(ls.drop_last())
    }
}

/// A numeric tag's value, zero where it is absent or malformed.
pub open spec fn numeric_or_zero(v: Option<Seq<char>>) -> u64 {
    match v {
        Some(s) => match numeric_tag(s) {
            Some(n) => n,
            None => 0,
        },
        None => 0,
    }
}

/// Whole seconds of an `END` value in milliseconds, kept to 64 bits;
/// zero where the value is absent or no unsigned 128-bit integer.
pub open spec fn end_seconds(v: Option<Seq<char>>) -> u64 {
    match v {
        Some(s) => match unsigned_value(s, u128::MAX as nat) {
            Some(ms) => ((ms / 1000) % 0x1_0000_0000_0000_0000) as u64,
            None => 0,
        },
        None => 0,
    }
}

/// Whether `v` holds exactly the characters of `w`.
fn same_chars(v: &Vec<char>, w: &[char]) -> (r: bool)
    ensures
        r == (v@ == w@),
{
    if v.len() != w.len() {
        return false;
    }
    let mut i: usize = 0;
    while i < v.len()
        invariant
            i <= v.len() == w.len(),
            forall|k: int| 0 <= k < i ==> v@[k] == w@[k],
        decreases v.len() - i,
    {
        if v[i] != w[i] {
            return false;
        }
        i += 1;
    }
    assert(v@ =~= w@);
    true
}

/// The kind of tag that a key names.
pub fn key_kind(key: &Vec<char>) -> (r: TagKind)
    ensures
        r == kind_of(key@),
{
    let title: [char; 5] = ['T', 'I', 'T', 'L', 'E'];
    let artist: [char; 6] = ['A', 'R', 'T', 'I', 'S', 'T'];
    let cover: [char; 5] = ['C', 'O', 'V', 'E', 'R'];
    let bpm: [char; 3] = ['B', 'P', 'M'];
    let gap: [char; 3] = ['G', 'A', 'P'];
    let end: [char; 3] = ['E', 'N', 'D'];
    if same_chars(key, &title) {
        TagKind::Title
    } else if same_chars(key, &artist) {
        TagKind::Artist
    } else if same_chars(key, &cover) {
        TagKind::Cover
    } else if same_chars(key, &bpm) {
        TagKind::Bpm
    } else if same_chars(key, &gap) {
        TagKind::Gap
    } else if same_chars(key, &end) {
        TagKind::End
    } else {
        TagKind::Other
    }
}

proof fn lemma_colon_pos(s: Seq<char>, k: int)
    requires
        0 <= k <= s.len(),
        forall|i: int| 0 <= i < k ==> #[trigger] s[i] != ':',
        k == s.len() || s[k] == ':',
    ensures
        colon_pos(s) == k,
    decreases k,
{
    if k > 0 {
        let t = s.drop_first();
        assert forall|i: int| 0 <= i < k - 1 implies #[trigger] t[i] != ':' by {
            assert(t[i] == s[i + 1]);
        }
        lemma_colon_pos(t, k - 1);
    }
}

/// Splits a tag line into its key and its value; `None` for any other line.
pub fn split_tag(l: &Vec<char>) -> (r: Option<(Vec<char>, Vec<char>)>)
    ensures
        r is Some <==> is_tag_line(l@),
        r matches Some((k, v)) ==> k@ == tag_key(l@) && v@ == tag_value(l@),
{
    if l.len() == 0 || l[0] != '#' {
        return None;
    }
    let mut i: usize = 1;
    while i < l.len() && l[i] != ':'
        invariant
            1 <= i <= l.len(),
            forall|k: int| 1 <= k < i ==> #[trigger] l@[k] != ':',
        decreases l.len() - i,
    {
        i += 1;
    }
    let ghost t = l@.drop_first();
    proof {
        assert forall|k: int| 0 <= k < i - 1 implies #[trigger] t[k] != ':' by {
            assert(t[k] == l@[k + 1]);
        }
        lemma_colon_pos(t, i - 1);
    }
    if i == l.len() {
        return None;
    }
    let key = slice_of(l, 1, i);
    let value = slice_of(l, i + 1, l.len());
    assert(key@ =~= tag_key(l@));
    assert(value@ =~= tag_value(l@));
    Some((key, value))
}

/// The kind of a line, with the value and key where it is a tag line.
pub(crate) fn read_line(l: &Vec<char>) -> (r: (TagKind, Vec<char>, Vec<char>))
    ensures
        r.0 == line_kind(l@),
        r.0 != TagKind::Other ==> r.1@ == tag_key(l@) && r.2@ == tag_value(l@),
{
    match split_tag(l) {
        Some((k, v)) => {
            let kind = key_kind(&k);
            (kind, k, v)
        },
        None => (TagKind::Other, Vec::new(), Vec::new()),
    }
}

} // verus!
