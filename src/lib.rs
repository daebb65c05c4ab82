//! Indexing of karaoke song folders: a tolerant reader for `#KEY:VALUE`
//! description files, inference of a missing song length from the note
//! timing block, and collision-free naming of exported cover images.

pub mod cover;
pub mod duration;
pub mod laws;
pub mod number;
pub mod scan;
pub mod song;
pub mod tags;
pub mod text;

pub use cover::{cover_file_name, CoverIndex};
pub use duration::infer_duration;
pub use scan::{is_description, pick_description};
pub use song::{parse_song, try_fix_duration, ParsedSong, Song};
