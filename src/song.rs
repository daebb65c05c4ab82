//! The song record and the reading of one song description.

use vstd::prelude::*;
use crate::duration::{infer_duration, inferred_duration};
use crate::number::{parse_unsigned, read_numeric_tag};
use crate::tags::{
    artist_tags, end_seconds, last_value, malformed_tags, numeric_or_zero, read_line, TagKind,
};
use crate::text::{chars_of, lines, split_lines, string_of, trim, trimmed, views};

verus! {

/// One indexed song.
pub struct Song {
    pub title: String,
    pub artist: Vec<String>,
    /// Length in whole seconds.
    pub duration: u64,
    pub tags: Vec<String>,
    /// File name of the exported cover image; empty where none was exported.
    pub cover_image: String,
    pub bpm: u64,
    /// Milliseconds before the first note.
    pub gap: u64,
}

/// A song read from its description, with what the caller still acts on.
pub struct ParsedSong {
    pub song: Song,
    /// The trimmed value of the `COVER` tag: an image file name relative to
    /// the song's folder.
    pub cover: Option<String>,
    /// Keys of numeric tags whose values were malformed and read as zero.
    pub malformed: Vec<String>,
}

pub open spec fn strings(v: Seq<String>) -> Seq<Seq<char>> {
    v.map_values(|s: String| s@)
}

pub open spec fn opt_view(o: Option<Vec<char>>) -> Option<Seq<char>> {
    match o {
        Some(v) => Some(v@),
        None => None,
    }
}

/// The position of the last `.` in `s`, or -1.
pub open spec fn last_dot(s: Seq<char>) -> int
    decreases s.len(),
{
    if s.len() == 0 {
        -1
    } else if s.last() == '.' {
        s.len() - 1
    } else {
        last_dot(s.drop_last())
    }
}

/// A name without its extension: what precedes the last `.`, where that
/// is not empty; the whole name otherwise.
pub open spec fn strip_extension(name: Seq<char>) -> Seq<char> {
    if last_dot(name) > 0 {
        name.take(last_dot(name))
    } else {
        name
    }
}

/// The title: that of the last `TITLE` tag, or where it is absent or
/// empty, the folder's name without its extension.
pub open spec fn song_title(folder: Seq<char>, ls: Seq<Seq<char>>) -> Seq<char> {
    match last_value(ls, TagKind::Title) {
        Some(t) => if t.len() > 0 {
            t
        } else {
            strip_extension(folder)
        },
        None => strip_extension(folder),
    }
}

/// The artists, one per `ARTIST` tag in order; a single empty name where
/// there is none.
pub open spec fn song_artists(ls: Seq<Seq<char>>) -> Seq<Seq<char>> {
    if artist_tags(ls).len() == 0 {
        seq![Seq::empty()]
    } else {
        artist_tags(ls)
    }
}

pub open spec fn song_bpm(ls: Seq<Seq<char>>) -> u64 {
    numeric_or_zero(last_value(ls, TagKind::Bpm))
}

pub open spec fn song_gap(ls: Seq<Seq<char>>) -> u64 {
    numeric_or_zero(last_value(ls, TagKind::Gap))
}

/// The length: from the `END` tag, or inferred from the note block where
/// that gives zero and inference applies.
pub open spec fn song_duration(ls: Seq<Seq<char>>) -> u64 {
    let d = end_seconds(last_value(ls, TagKind::End));
    match inferred_duration(ls, d, song_bpm(ls), song_gap(ls)) {
        Some(x) => x,
        None => d,
    }
}

pub open spec fn song_cover(ls: Seq<Seq<char>>) -> Option<Seq<char>> {
    match last_value(ls, TagKind::Cover) {
        Some(c) => Some(trim(c)),
        None => None,
    }
}

/// `name` without its extension (see `strip_extension`).
pub fn without_extension(name: &Vec<char>) -> (r: Vec<char>)
    ensures
        r@ == strip_extension(name@),
{
    let mut i: usize = name.len();
    assert(name@.take(i as int) =~= name@);
    while i > 0 && name[i - 1] != '.'
        invariant
            i <= name.len(),
            last_dot(name@) == last_dot(name@.take(i as int)),
        decreases i,
    {
        assert(name@.take(i as int).drop_last() =~= name@.take(i - 1));
        i -= 1;
    }
    if i > 1 {
        crate::text::slice_of(name, 0, i - 1)
    } else {
        crate::text::slice_of(name, 0, name.len())
    }
}

/// The value of a numeric tag, zero where absent or malformed.
fn numeric_value(v: &Option<Vec<char>>) -> (r: u64)
    ensures
        r == numeric_or_zero(opt_view(*v)),
{
    match v {
        Some(s) => match read_numeric_tag(s) {
            Some(n) => n,
            None => 0,
        },
        None => 0,
    }
}

/// Whole seconds of an `END` value (see `end_seconds`).
fn end_value(v: &Option<Vec<char>>) -> (r: u64)
    ensures
        r == end_seconds(opt_view(*v)),
{
    match v {
        Some(s) => match parse_unsigned(s, u128::MAX) {
            Some(ms) => ((ms / 1000) % 0x1_0000_0000_0000_0000) as u64,
            None => 0,
        },
        None => 0,
    }
}

/// Reads a song description. `folder` is the name of the song's folder,
/// whose name stands in for a missing title.
pub fn parse_song(folder: &str, text: &str) -> (r: ParsedSong)
    ensures
        r.song.title@ == song_title(folder@, lines(text@)),
        strings(r.song.artist@) == song_artists(lines(text@)),
        r.song.duration == song_duration(lines(text@)),
        r.song.bpm == song_bpm(lines(text@)),
        r.song.gap == song_gap(lines(text@)),
        r.song.tags@.len() == 0,
        r.song.cover_image@.len() == 0,
        match r.cover {
            Some(c) => song_cover(lines(text@)) == Some(c@),
            None => song_cover(lines(text@)) is None,
        },
        strings(r.malformed@) == malformed_tags(lines(text@)),
{
    let ls = split_lines(&chars_of(text));
    let ghost v = views(ls@);
    let mut title: Option<Vec<char>> = None;
    let mut cover: Option<Vec<char>> = None;
    let mut bpm: Option<Vec<char>> = None;
    let mut gap: Option<Vec<char>> = None;
    let mut end: Option<Vec<char>> = None;
    let mut artist: Vec<String> = Vec::new();
    let mut malformed: Vec<String> = Vec::new();
    let mut i: usize = 0;
    assert(strings(artist@) =~= artist_tags(v.take(0)));
    assert(strings(malformed@) =~= malformed_tags(v.take(0)));
    while i < ls.len()
        invariant
            i <= ls.len(),
            v == views(ls@),
            opt_view(title) == last_value(v.take(i as int), TagKind::Title),
            opt_view(cover) == last_value(v.take(i as int), TagKind::Cover),
            opt_view(bpm) == last_value(v.take(i as int), TagKind::Bpm),
            opt_view(gap) == last_value(v.take(i as int), TagKind::Gap),
            opt_view(end) == last_value(v.take(i as int), TagKind::End),
            strings(artist@) == artist_tags(v.take(i as int)),
            strings(malformed@) == malformed_tags(v.take(i as int)),
        decreases ls.len() - i,
    {
        let ghost prefix = v.take(i + 1);
        assert(prefix.drop_last() =~= v.take(i as int));
        assert(prefix.last() == ls@[i as int]@);
        let (kind, key, value) = read_line(&ls[i]);
        let ghost before_artist = strings(artist@);
        let ghost before_malformed = strings(malformed@);
        match kind {
            TagKind::Title => title = Some(value),
            TagKind::Artist => {
                artist.push(string_of(&value));
                assert(strings(artist@) =~= before_artist.push(value@));
            },
            TagKind::Cover => cover = Some(value),
            TagKind::Bpm | TagKind::Gap => {
                if read_numeric_tag(&value).is_none() {
                    malformed.push(string_of(&key));
                    assert(strings(malformed@) =~= before_malformed.push(key@));
                }
                if kind == TagKind::Bpm {
                    bpm = Some(value);
                } else {
                    gap = Some(value);
                }
            },
            TagKind::End => end = Some(value),
            TagKind::Other => {},
        }
        i += 1;
    }
    assert(v.take(i as int) =~= v);
    let bpm = numeric_value(&bpm);
    let gap = numeric_value(&gap);
    let mut duration = end_value(&end);
    match infer_duration(&ls, duration, bpm, gap) {
        Some(d) => duration = d,
        None => {},
    }
    let title = match title {
        Some(t) => if t.len() > 0 {
            t
        } else {
            without_extension(&chars_of(folder))
        },
        None => without_extension(&chars_of(folder)),
    };
    if artist.len() == 0 {
        artist.push(String::new());
        assert(strings(artist@) =~= seq![Seq::<char>::empty()]);
    }
    let cover = match cover {
        Some(c) => Some(string_of(&trimmed(&c))),
        None => None,
    };
    let song = Song {
        title: string_of(&title),
        artist,
        duration,
        tags: Vec::new(),
        cover_image: String::new(),
        bpm,
        gap,
    };
    ParsedSong { song, cover, malformed }
}

/// The length that the note block of `text` gives to `song`, or `None`
/// where inference does not apply (see `inferred_duration`).
pub fn try_fix_duration(song: &Song, text: &str) -> (r: Option<u64>)
    ensures
        r == inferred_duration(lines(text@), song.duration, song.bpm, song.gap),
{
    infer_duration(&split_lines(&chars_of(text)), song.duration, song.bpm, song.gap)
}

} // verus!
