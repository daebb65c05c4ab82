//! What holds of every song description.

use vstd::prelude::*;
use crate::duration::last_note;
use crate::number::{numeric_tag, unsigned_value};
use crate::song::{last_dot, song_artists, song_bpm, song_duration, song_gap, song_title, strip_extension};
use crate::tags::{artist_tags, is_malformed, last_value, line_kind, malformed_tags, TagKind};
use crate::text::{field, lines};

verus! {

/// An `END` tag of `ms` milliseconds, where that is a second or more and
/// the seconds fit in 64 bits, fixes the length at `ms / 1000` seconds,
/// whatever the tempo, gap and notes.
pub proof fn end_tag_fixes_duration(text: Seq<char>, v: Seq<char>, ms: nat)
    requires
        last_value(lines(text), TagKind::End) == Some(v),
        unsigned_value(v, u128::MAX as nat) == Some(ms),
        1000 <= ms,
        ms / 1000 <= u64::MAX,
    ensures
        song_duration(lines(text)) == ms / 1000,
{
    assert((ms / 1000) % 0x1_0000_0000_0000_0000 == ms / 1000);
}

/// With no `END` tag, a known tempo and a last note line that starts on
/// beat `start` and lasts `len` beats, the length is the seconds up to
/// the note's end at that tempo, quartered, plus the gap in whole seconds.
pub proof fn notes_give_duration(text: Seq<char>, start: nat, len: nat)
    requires
        last_value(lines(text), TagKind::End) is None,
        song_bpm(lines(text)) > 0,
        last_note(lines(text)) matches Some(n) && unsigned_value(field(n, 1), u64::MAX as nat)
            == Some(start) && unsigned_value(field(n, 2), u64::MAX as nat) == Some(len),
        ((start + len) * 60 / song_bpm(lines(text)) as nat) / 4 + song_gap(lines(text)) as nat / 1000
            <= u64::MAX,
    ensures
        song_duration(lines(text)) == ((start + len) * 60 / song_bpm(lines(text)) as nat) / 4
            + song_gap(lines(text)) as nat / 1000,
{
}

/// With no `END` tag, and no tempo or no note line, the length is zero.
pub proof fn no_source_no_duration(text: Seq<char>)
    requires
        last_value(lines(text), TagKind::End) is None,
        song_bpm(lines(text)) == 0 || last_note(lines(text)) is None,
    ensures
        song_duration(lines(text)) == 0,
{
}

proof fn lemma_no_dot(s: Seq<char>)
    requires
        forall|i: int| 0 <= i < s.len() ==> s[i] != '.',
    ensures
        last_dot(s) == -1,
    decreases s.len(),
{
    if s.len() > 0 {
        lemma_no_dot(s.drop_last());
    }
}

/// Without a `TITLE` tag the title is the folder's name, less its
/// extension; a name without `.` is taken whole.
pub proof fn title_falls_back_to_folder(folder: Seq<char>, text: Seq<char>)
    requires
        last_value(lines(text), TagKind::Title) is None,
    ensures
        song_title(folder, lines(text)) == strip_extension(folder),
        (forall|i: int| 0 <= i < folder.len() ==> folder[i] != '.') ==> song_title(
            folder,
            lines(text),
        ) == folder,
{
    if forall|i: int| 0 <= i < folder.len() ==> folder[i] != '.' {
        lemma_no_dot(folder);
    }
}

proof fn lemma_no_artist(ls: Seq<Seq<char>>)
    requires
        forall|i: int| 0 <= i < ls.len() ==> line_kind(#[trigger] ls[i]) != TagKind::Artist,
    ensures
        artist_tags(ls).len() == 0,
    decreases ls.len(),
{
    if ls.len() > 0 {
        lemma_no_artist(ls.drop_last());
    }
}

/// Without an `ARTIST` tag the artists are a single empty name.
pub proof fn artist_falls_back_to_empty(text: Seq<char>)
    requires
        forall|i: int|
            0 <= i < lines(text).len() ==> line_kind(#[trigger] lines(text)[i]) != TagKind::Artist,
    ensures
        song_artists(lines(text)) == seq![Seq::<char>::empty()],
{
    lemma_no_artist(lines(text));
}

/// A malformed `BPM` value reads as a tempo of zero.
pub proof fn malformed_bpm_is_zero(text: Seq<char>, v: Seq<char>)
    requires
        last_value(lines(text), TagKind::Bpm) == Some(v),
        numeric_tag(v) is None,
    ensures
        song_bpm(lines(text)) == 0,
{
}

proof fn lemma_malformed_bpm_listed(ls: Seq<Seq<char>>, v: Seq<char>)
    requires
        last_value(ls, TagKind::Bpm) == Some(v),
        numeric_tag(v) is None,
    ensures
        malformed_tags(ls).contains(seq!['B', 'P', 'M']),
    decreases ls.len(),
{
    let l = ls.last();
    if line_kind(l) == TagKind::Bpm {
        assert(is_malformed(l));
        assert(malformed_tags(ls).last() == seq!['B', 'P', 'M']);
        assert(malformed_tags(ls)[malformed_tags(ls).len() - 1] == seq!['B', 'P', 'M']);
    } else {
        lemma_malformed_bpm_listed(ls.drop_last(), v);
        let m = malformed_tags(ls.drop_last());
        let i = choose|i: int| 0 <= i < m.len() && m[i] == seq!['B', 'P', 'M'];
        if is_malformed(l) {
            assert(malformed_tags(ls)[i] == m[i]);
        }
    }
}

/// A malformed `BPM` value is reported among the malformed tags.
pub proof fn malformed_bpm_is_reported(text: Seq<char>, v: Seq<char>)
    requires
        last_value(lines(text), TagKind::Bpm) == Some(v),
        numeric_tag(v) is None,
    ensures
        malformed_tags(lines(text)).contains(seq!['B', 'P', 'M']),
{
    lemma_malformed_bpm_listed(lines(text), v);
}

proof fn lemma_last_dot_bound(s: Seq<char>)
    ensures
        -1 <= last_dot(s) < s.len(),
    decreases s.len(),
{
    if s.len() > 0 {
        lemma_last_dot_bound(s.drop_last());
    }
}

/// A song read from a folder with a name always has a title, and always
/// at least one artist entry.
pub proof fn title_and_artist_never_empty(folder: Seq<char>, text: Seq<char>)
    requires
        folder.len() > 0,
    ensures
        song_title(folder, lines(text)).len() > 0,
        song_artists(lines(text)).len() > 0,
{
    lemma_last_dot_bound(folder);
}

} // verus!
