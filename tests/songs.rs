use song_index::cover::decimal_digits;
use song_index::number::{parse_decimal, parse_unsigned, read_numeric_tag};
use song_index::song::without_extension;
use song_index::tags::{key_kind, split_tag, TagKind};
use song_index::text::{field_at, split_lines, trimmed};
use song_index::{
    cover_file_name, is_description, parse_song, pick_description, try_fix_duration, CoverIndex,
    Song,
};

fn chars(s: &str) -> Vec<char> {
    s.chars().collect()
}

fn song_with(duration: u64, bpm: u64, gap: u64) -> Song {
    Song {
        title: String::from("t"),
        artist: vec![String::new()],
        duration,
        tags: Vec::new(),
        cover_image: String::new(),
        bpm,
        gap,
    }
}

#[test]
fn end_tag_sets_duration_in_seconds() {
    let p = parse_song("Folder", "#TITLE:Song\n#END:215999\n");
    assert_eq!(p.song.duration, 215);
}

#[test]
fn end_tag_wins_over_notes() {
    let text = "#BPM:120\n#GAP:2500\n#END:90000\n: 0 4 5 la\n: 100 20 5 la\nE\n";
    let p = parse_song("Folder", text);
    assert_eq!(p.song.duration, 90);
}

#[test]
fn short_end_tag_gives_way_to_inference() {
    let text = "#BPM:120\n#END:500\n: 100 20 5 la\n";
    let p = parse_song("Folder", text);
    assert_eq!(p.song.duration, 15);
}

#[test]
fn duration_inferred_from_last_note() {
    // (100 + 20) beats at 120 bpm: 60 s, a quarter is 15, plus 2 s of gap.
    let text = "#BPM:120\n#GAP:2500\n: 0 4 5 la\n: 100 20 5 la\nE\n";
    let p = parse_song("Folder", text);
    assert_eq!(p.song.duration, 17);
}

#[test]
fn inference_truncates_each_step() {
    // 7 beats at 90 bpm: 420 / 90 = 4 s, a quarter is 1.
    let text = "#BPM:90\n* 3 4 5 la\n";
    let p = parse_song("Folder", text);
    assert_eq!(p.song.duration, 1);
}

#[test]
fn inference_reads_every_note_kind() {
    for marker in [":", "*", "R", "F", "G"] {
        let text = format!("#BPM:60\n{} 8 8 1 x\n", marker);
        let p = parse_song("Folder", &text);
        assert_eq!(p.song.duration, 4, "marker {}", marker);
    }
}

#[test]
fn no_notes_no_duration() {
    let p = parse_song("Folder", "#BPM:120\n#GAP:3000\nE\n");
    assert_eq!(p.song.duration, 0);
}

#[test]
fn zero_bpm_no_duration() {
    let p = parse_song("Folder", "#BPM:0\n: 100 20 5 la\n");
    assert_eq!(p.song.duration, 0);
}

#[test]
fn unreadable_note_fields_no_duration() {
    let p = parse_song("Folder", "#BPM:120\n: 1 x 5 la\n");
    assert_eq!(p.song.duration, 0);
    let p = parse_song("Folder", "#BPM:120\n: 1\n");
    assert_eq!(p.song.duration, 0);
}

#[test]
fn try_fix_duration_applies_only_without_length() {
    let text = "#BPM:120\n: 100 20 5 la\n";
    assert_eq!(try_fix_duration(&song_with(0, 120, 4000), text), Some(19));
    assert_eq!(try_fix_duration(&song_with(5, 120, 0), text), None);
    assert_eq!(try_fix_duration(&song_with(0, 0, 0), text), None);
    assert_eq!(try_fix_duration(&song_with(0, 120, 0), "#BPM:120\n"), None);
}

#[test]
fn title_falls_back_to_folder_name() {
    let p = parse_song("My Song", "#ARTIST:Someone\n");
    assert_eq!(p.song.title, "My Song");
}

#[test]
fn title_fallback_drops_extension() {
    let p = parse_song("My Song.v2", "#ARTIST:Someone\n");
    assert_eq!(p.song.title, "My Song");
    let p = parse_song("Other", "#TITLE:\n");
    assert_eq!(p.song.title, "Other");
}

#[test]
fn title_tag_is_taken() {
    let p = parse_song("Folder", "#TITLE:Real Title\n");
    assert_eq!(p.song.title, "Real Title");
}

#[test]
fn value_keeps_later_colons() {
    let p = parse_song("Folder", "#TITLE:Part: Two\n");
    assert_eq!(p.song.title, "Part: Two");
}

#[test]
fn artists_accumulate_in_order() {
    let p = parse_song("Folder", "#ARTIST:A\n#TITLE:T\n#ARTIST:B\n");
    assert_eq!(p.song.artist, vec![String::from("A"), String::from("B")]);
}

#[test]
fn missing_artist_is_single_empty_name() {
    let p = parse_song("Folder", "#TITLE:T\n");
    assert_eq!(p.song.artist, vec![String::new()]);
}

#[test]
fn malformed_bpm_reads_zero_and_song_is_kept() {
    let p = parse_song("Folder", "#TITLE:T\n#BPM:abc\n#GAP:1500\n");
    assert_eq!(p.song.bpm, 0);
    assert_eq!(p.song.gap, 1500);
    assert_eq!(p.song.title, "T");
    assert_eq!(p.malformed, vec![String::from("BPM")]);
}

#[test]
fn numeric_tags_accept_comma_decimals() {
    let p = parse_song("Folder", "#BPM:123,45\n#GAP: 1500,9 \n");
    assert_eq!(p.song.bpm, 123);
    assert_eq!(p.song.gap, 1500);
    assert!(p.malformed.is_empty());
}

#[test]
fn unknown_and_bare_tags_are_ignored() {
    let p = parse_song("Folder", "#LANGUAGE:English\n#TITLE\nplain text\n#TITLE:T\n");
    assert_eq!(p.song.title, "T");
    assert!(p.song.tags.is_empty());
    assert_eq!(p.song.cover_image, "");
}

#[test]
fn keys_are_case_sensitive() {
    let p = parse_song("Folder", "#title:lower\n#Bpm:100\n");
    assert_eq!(p.song.title, "Folder");
    assert_eq!(p.song.bpm, 0);
}

#[test]
fn crlf_lines_are_read() {
    let p = parse_song("Folder", "#TITLE:T\r\n#END:61000\r\n");
    assert_eq!(p.song.title, "T");
    assert_eq!(p.song.duration, 61);
}

#[test]
fn cover_value_is_trimmed() {
    let p = parse_song("Folder", "#COVER: front.jpg \n");
    assert_eq!(p.cover, Some(String::from("front.jpg")));
    let p = parse_song("Folder", "#TITLE:T\n");
    assert_eq!(p.cover, None);
}

#[test]
fn cover_names_follow_the_counter() {
    let mut c = CoverIndex::new();
    let mut names = Vec::new();
    for src in ["/lib/a/front.jpg", "/lib/b/cover.png", "/lib/c/pic.jpeg"] {
        names.push(c.name_for(src));
        c.advance();
    }
    assert_eq!(names, vec!["cover-0.jpg", "cover-1.png", "cover-2.jpeg"]);
    assert_eq!(c.next(), 3);
}

#[test]
fn cover_name_without_extension() {
    assert_eq!(cover_file_name(7, "/lib/a/front"), "cover-7");
    assert_eq!(cover_file_name(12, "img.tar.gz"), "cover-12.gz");
    assert_eq!(cover_file_name(u64::MAX, "x.png"), "cover-18446744073709551615.png");
}

#[test]
fn folder_without_description_is_skipped() {
    let names = vec![String::from("song.mp3"), String::from("cover.jpg")];
    assert_eq!(pick_description(&names), None);
    let names = vec![
        String::from("song.mp3"),
        String::from("notes.txt"),
        String::from("other.txt"),
    ];
    assert_eq!(pick_description(&names), Some(1));
    assert_eq!(pick_description(&Vec::new()), None);
}

#[test]
fn description_names() {
    assert!(is_description("a.txt"));
    assert!(is_description(".txt"));
    assert!(!is_description("txt"));
    assert!(!is_description("a.TXT"));
    assert!(!is_description("a.txt.bak"));
}

#[test]
fn unsigned_reading() {
    assert_eq!(parse_unsigned(&chars("215000"), u128::MAX), Some(215000));
    assert_eq!(parse_unsigned(&chars("+7"), u128::MAX), Some(7));
    assert_eq!(parse_unsigned(&chars(""), u128::MAX), None);
    assert_eq!(parse_unsigned(&chars("+"), u128::MAX), None);
    assert_eq!(parse_unsigned(&chars("-1"), u128::MAX), None);
    assert_eq!(parse_unsigned(&chars(" 1"), u128::MAX), None);
    assert_eq!(parse_unsigned(&chars("18446744073709551615"), u64::MAX as u128), Some(u64::MAX as u128));
    assert_eq!(parse_unsigned(&chars("18446744073709551616"), u64::MAX as u128), None);
}

#[test]
fn decimal_reading() {
    assert_eq!(parse_decimal(&chars("120.75")), Some(120));
    assert_eq!(parse_decimal(&chars(".5")), Some(0));
    assert_eq!(parse_decimal(&chars("5.")), Some(5));
    assert_eq!(parse_decimal(&chars("-3.5")), Some(0));
    assert_eq!(parse_decimal(&chars("+42")), Some(42));
    assert_eq!(parse_decimal(&chars(".")), None);
    assert_eq!(parse_decimal(&chars("1.2.3")), None);
    assert_eq!(parse_decimal(&chars("abc")), None);
    assert_eq!(parse_decimal(&chars("99999999999999999999999")), Some(u64::MAX));
    assert_eq!(read_numeric_tag(&chars(" 7,5\t")), Some(7));
    assert_eq!(read_numeric_tag(&chars("1,2,3")), None);
}

#[test]
fn text_helpers() {
    let ls = split_lines(&chars("a\r\nb\n\nc\r"));
    assert_eq!(ls, vec![chars("a"), chars("b"), chars(""), chars("c\r")]);
    assert_eq!(split_lines(&chars("")), Vec::<Vec<char>>::new());
    assert_eq!(split_lines(&chars("x\n")), vec![chars("x")]);
    assert_eq!(trimmed(&chars("  a b \t")), chars("a b"));
    assert_eq!(field_at(&chars(":  12 4 5 la"), 1), chars("12"));
    assert_eq!(field_at(&chars(":  12 4 5 la"), 2), chars("4"));
    assert_eq!(field_at(&chars(": 12"), 2), chars(""));
    assert_eq!(without_extension(&chars("a.b.c")), chars("a.b"));
    assert_eq!(without_extension(&chars(".hidden")), chars(".hidden"));
    assert_eq!(decimal_digits(0), chars("0"));
    assert_eq!(decimal_digits(1024), chars("1024"));
}

#[test]
fn tag_splitting() {
    let (k, v) = split_tag(&chars("#GAP:12:5")).unwrap();
    assert_eq!(k, chars("GAP"));
    assert_eq!(v, chars("12:5"));
    assert_eq!(split_tag(&chars("GAP:1")), None);
    assert_eq!(split_tag(&chars("#GAP")), None);
    assert_eq!(key_kind(&chars("END")), TagKind::End);
    assert_eq!(key_kind(&chars("ENDS")), TagKind::Other);
}
