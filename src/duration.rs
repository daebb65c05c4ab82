//! Inference of a missing song length from the last note line and the tempo.

use vstd::prelude::*;
use crate::number::{cap_u64, parse_unsigned, unsigned_value};
use crate::text::{field, field_at, views};

verus! {

/// A note line (regular, golden, freestyle or rap note) starts with one of
/// `:`, `*`, `R`, `F`, `G`.
pub open spec fn is_note_line(l: Seq<char>) -> bool {
    l.len() > 0 && (l[0] == ':' || l[0] == '*' || l[0] == 'R' || l[0] == 'F' || l[0] == 'G')
}

/// The last note line among `ls`.
pub open spec fn last_note(ls: Seq<Seq<char>>) -> Option<Seq<char>>
    decreases ls.len(),
{
    if ls.len() == 0 {
        None
    } else if is_note_line(ls.last()) {
        Some(ls.last())
    } else {
        last_note(ls.drop_last())
    }
}

/// The beat on which a note line ends: its second field (start beat) plus its
/// third (length), both unsigned 64-bit integers; `None` where either is not.
pub open spec fn note_end(l: Seq<char>) -> Option<nat> {
    match (unsigned_value(field(l, 1), u64::MAX as nat), unsigned_value(field(l, 2), u64::MAX as nat)) {
        (Some(s), Some(d)) => Some(s + d),
        _ => None,
    }
}

/// Seconds up to beat `end` at `bpm` beats per minute, a quarter of it (the
/// beat subdivision of the format), plus the gap in whole seconds.
pub open spec fn inferred_seconds(end: nat, bpm: nat, gap: nat) -> nat
    recommends
        bpm > 0,
{
    (end * 60 / bpm) / 4 + gap / 1000
}

/// The length that the note block gives to a song with the given fields,
/// where inference applies: no length yet, a known tempo, and a last note
/// line whose start and length can be read.
pub open spec fn inferred_duration(ls: Seq<Seq<char>>, duration: u64, bpm: u64, gap: u64) -> Option<u64> {
    if duration == 0 && bpm != 0 {
        match last_note(ls) {
            Some(l) => match note_end(l) {
                Some(e) => Some(cap_u64(inferred_seconds(e, bpm as nat, gap as nat))),
                None => None,
            },
            None => None,
        }
    } else {
        None
    }
}

/// The position of the last note line, searching from the end.
fn find_last_note(ls: &Vec<Vec<char>>) -> (r: Option<usize>)
    ensures
        match r {
            Some(i) => i < ls.len() && last_note(views(ls@)) == Some(ls@[i as int]@),
            None => last_note(views(ls@)) is None,
        },
{
    let ghost v = views(ls@);
    let mut i: usize = ls.len();
    assert(v.take(i as int) =~= v);
    while i > 0
        invariant
            i <= ls.len(),
            v == views(ls@),
            last_note(v) == last_note(v.take(i as int)),
        decreases i,
    {
        let l = &ls[i - 1];
        assert(v.take(i as int).last() == l@);
        if l.len() > 0 && (l[0] == ':' || l[0] == '*' || l[0] == 'R' || l[0] == 'F' || l[0] == 'G') {
            return Some(i - 1);
        }
        assert(v.take(i as int).drop_last() =~= v.take(i - 1));
        i -= 1;
    }
    None
}

/// The length that the note block gives (see `inferred_duration`), or
/// `None` where inference does not apply.
pub fn infer_duration(ls: &Vec<Vec<char>>, duration: u64, bpm: u64, gap: u64) -> (r: Option<u64>)
    ensures
        r == inferred_duration(views(ls@), duration, bpm, gap),
{
    if duration != 0 || bpm == 0 {
        return None;
    }
    match find_last_note(ls) {
        None => None,
        Some(i) => {
            let l = &ls[i];
            let start = parse_unsigned(&field_at(l, 1), u64::MAX as u128);
            let len = parse_unsigned(&field_at(l, 2), u64::MAX as u128);
            match (start, len) {
                (Some(s), Some(d)) => {
                    let end: u128 = s + d;
                    assert(end * 60 <= u128::MAX) by (nonlinear_arith)
                        requires
                            end <= 2 * u64::MAX,
                    ;
                    let secs: u128 = (end * 60 / (bpm as u128)) / 4;
                    assert(secs <= end * 60) by (nonlinear_arith)
                        requires
                            bpm >= 1,
                            secs == (end * 60 / (bpm as int)) / 4,
                    ;
                    let total: u128 = secs + (gap / 1000) as u128;
                    if total <= u64::MAX as u128 {
                        Some(total as u64)
                    } else {
                        Some(u64::MAX)
                    }
                },
                _ => None,
            }
        },
    }
}

} // verus!
