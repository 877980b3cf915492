//! What is written into a finished file: which tag dialect a container gets,
//! the normalised text of each field, the lyrics in the form the container
//! takes, and whether lyric files go beside it.
use vstd::prelude::*;
use crate::lyrics::{
    LyricsLine, LyricsResult, convert_to_lrc, digits_u32, lrc_stamp, lrc_text,
    parse_u32, parse_u32_chars,
};
use crate::text::{
    chars_of, extend_pad2, extend_str, replace_chars, replaced, string_of,
};
use crate::track::{DownloadOptions, TrackMetadata};

verus! {

/// A text field with each `"; "` turned into `", "`.
pub open spec fn normalized(s: Seq<char>) -> Seq<char> {
    replaced(s, "; "@, ", "@)
}

/// Turns each `"; "` into `", "`, for multi-value fields.
pub fn format_metadata_string(text: &str) -> (r: String)
    ensures
        r@ == normalized(text@),
{
    let t = chars_of(text);
    let from = chars_of("; ");
    let to = chars_of(", ");
    proof {
        reveal_strlit("; ");
    }
    let out = replace_chars(&t, &from, &to);
    string_of(&out)
}

/// How tags are written for a container.
#[derive(Debug, Clone, Copy, PartialEq, Eq, Structural)]
pub enum TagDialect {
    /// ID3 frames, with a time-synchronised lyrics frame.
    Id3Frames,
    /// Vorbis comments through the generic writer.
    VorbisComments,
    /// MP4 atoms through the generic writer.
    Mp4Atoms,
    /// ID3v2 through the generic writer.
    Id3v2,
}

/// The dialect of a lowercased extension.
pub open spec fn dialect_of(ext: Seq<char>) -> TagDialect {
    if ext == "mp3"@ {
        TagDialect::Id3Frames
    } else if ext == "mp4"@ || ext == "m4a"@ {
        TagDialect::Mp4Atoms
    } else if ext == "aac"@ || ext == "wav"@ || ext == "aiff"@ || ext == "mpc"@ {
        TagDialect::Id3v2
    } else {
        TagDialect::VorbisComments
    }
}

/// Containers whose lyrics are also written to a file beside them.
pub open spec fn wants_sidecar(ext: Seq<char>) -> bool {
    ext == "m4a"@ || ext == "mp4"@ || ext == "flac"@ || ext == "wav"@
}

fn is(s: &String, lit: &str) -> (r: bool)
    ensures
        r == (s@ == lit@),
{
    *s == String::from_str(lit)
}

/// Writes tags, cover and lyrics into audio files.
pub struct MetadataEmbedder {}

impl MetadataEmbedder {
    pub fn new() -> (r: Self) {
        MetadataEmbedder {}
    }

    /// Turns each `"; "` into `", "`.
    pub fn format_metadata_string(&self, text: &str) -> (r: String)
        ensures
            r@ == normalized(text@),
    {
        format_metadata_string(text)
    }

    /// The dialect for a lowercased extension, and whether lyric files go
    /// beside the audio.
    pub fn route(&self, ext_lower: &String) -> (r: (TagDialect, bool))
        ensures
            r.0 == dialect_of(ext_lower@),
            r.1 == wants_sidecar(ext_lower@),
    {
        let dialect = if is(ext_lower, "mp3") {
            TagDialect::Id3Frames
        } else if is(ext_lower, "mp4") || is(ext_lower, "m4a") {
            TagDialect::Mp4Atoms
        } else if is(ext_lower, "aac") || is(ext_lower, "wav") || is(ext_lower, "aiff") || is(
            ext_lower,
            "mpc",
        ) {
            TagDialect::Id3v2
        } else {
            TagDialect::VorbisComments
        };
        let sidecar = is(ext_lower, "m4a") || is(ext_lower, "mp4") || is(ext_lower, "flac") || is(
            ext_lower,
            "wav",
        );
        (dialect, sidecar)
    }
}

/// What `str::parse::<i32>` accepts: an optional sign, then one or more
/// ASCII digits whose value fits.
pub open spec fn parse_i32(s: Seq<char>) -> Option<i32> {
    if s.len() > 0 && s[0] == '-' {
        match digits_u32(s.drop_first()) {
            Some(v) => if v <= 0x8000_0000 { Some((0 - v) as i32) } else { None },
            None => None,
        }
    } else {
        match parse_u32(s) {
            Some(v) => if v <= 0x7fff_ffff { Some(v as i32) } else { None },
            None => None,
        }
    }
}

/// Reads a year as `str::parse::<i32>` does.
pub fn parse_i32_text(s: &str) -> (r: Option<i32>)
    ensures
        r == parse_i32(s@),
{
    let v = chars_of(s);
    if v.len() > 0 && v[0] == '-' {
        let mut rest: Vec<char> = Vec::new();
        let mut i: usize = 1;
        while i < v.len()
            invariant
                1 <= i <= v@.len(),
                rest@ == v@.subrange(1, i as int),
            decreases v@.len() - i,
        {
            rest.push(v[i]);
            i = i + 1;
            assert(rest@ =~= v@.subrange(1, i as int));
        }
        assert(rest@ =~= v@.drop_first());
        let plus = rest.len() > 0 && rest[0] == '+';
        match parse_u32_chars(&rest) {
            Some(n) => {
                if plus {
                    assert(crate::lyrics::unsigned_part(rest@) == rest@.drop_first());
                    assert(!crate::lyrics::is_digit(rest@[0]));
                    assert(digits_u32(rest@) is None);
                    None
                } else if n <= 0x8000_0000 {
                    Some((0 - (n as i64)) as i32)
                } else {
                    None
                }
            },
            None => {
                assert(plus || digits_u32(rest@) is None);
                if plus {
                    assert(digits_u32(rest@) is None) by {
                        assert(!crate::lyrics::is_digit(rest@[0]));
                    }
                }
                None
            },
        }
    } else {
        match parse_u32_chars(&v) {
            Some(n) => if n <= 0x7fff_ffff { Some(n as i32) } else { None },
            None => None,
        }
    }
}

/// A field that is written when asked for and not empty.
pub open spec fn text_field(on: bool, s: Seq<char>) -> Option<Seq<char>> {
    if on && s.len() > 0 { Some(normalized(s)) } else { None }
}

/// An optional field that is written when asked for and present.
pub open spec fn opt_field(on: bool, s: Option<String>) -> Option<Seq<char>> {
    match s {
        Some(v) => if on { Some(normalized(v@)) } else { None },
        None => None,
    }
}

/// The normalised genres, joined with `", "`.
pub open spec fn genres_joined(gs: Seq<String>) -> Seq<char>
    decreases gs.len(),
{
    if gs.len() == 0 {
        Seq::empty()
    } else if gs.len() == 1 {
        normalized(gs[0]@)
    } else {
        genres_joined(gs.drop_last()) + ", "@ + normalized(gs.last()@)
    }
}

/// The view of an optional string.
pub open spec fn opt_text(s: Option<String>) -> Option<Seq<char>> {
    match s {
        Some(v) => Some(v@),
        None => None,
    }
}

/// The field values written into a file; `None` leaves a field out.
pub struct TagFields {
    pub title: Option<String>,
    pub artist: Option<String>,
    pub album: Option<String>,
    pub album_artist: Option<String>,
    pub track_number: Option<u32>,
    pub disc_number: Option<u32>,
    /// The release date as given, for writers that take text.
    pub release_date: Option<String>,
    /// The release date as a year number, for writers that take one.
    pub year: Option<i32>,
    pub genre: Option<String>,
    pub composer: Option<String>,
    pub comment: Option<String>,
}

fn text_field_of(on: bool, s: &String) -> (r: Option<String>)
    ensures
        opt_text(r) == text_field(on, s@),
{
    if on && s.unicode_len() > 0 {
        Some(format_metadata_string(s.as_str()))
    } else {
        None
    }
}

fn opt_field_of(on: bool, s: &Option<String>) -> (r: Option<String>)
    ensures
        opt_text(r) == opt_field(on, *s),
{
    match s {
        Some(v) => if on { Some(format_metadata_string(v.as_str())) } else { None },
        None => None,
    }
}

/// The genres of a track, normalised and joined.
pub fn join_genres(gs: &Vec<String>) -> (r: String)
    ensures
        r@ == genres_joined(gs@),
{
    let mut v: Vec<char> = Vec::new();
    let mut i: usize = 0;
    while i < gs.len()
        invariant
            i <= gs@.len(),
            v@ == genres_joined(gs@.take(i as int)),
        decreases gs@.len() - i,
    {
        assert(gs@.take(i + 1).drop_last() =~= gs@.take(i as int));
        if i > 0 {
            extend_str(&mut v, ", ");
        }
        let g = format_metadata_string(gs[i].as_str());
        extend_str(&mut v, g.as_str());
        i = i + 1;
        proof {
            if i == 1 {
                assert(gs@.take(1)[0] == gs@[0]);
                assert(v@ =~= genres_joined(gs@.take(1)));
            }
        }
    }
    assert(gs@.take(i as int) =~= gs@);
    string_of(&v)
}

/// The fields of `track` that `options` asks for, each normalised.
pub fn tag_fields(track: &TrackMetadata, options: &DownloadOptions) -> (r: TagFields)
    ensures
        opt_text(r.title) == text_field(options.embed_title, track.title@),
        opt_text(r.artist) == text_field(options.embed_artist, track.artist@),
        opt_text(r.album) == text_field(options.embed_album, track.album@),
        opt_text(r.album_artist) == opt_field(options.embed_album_artist, track.album_artist),
        r.track_number == (if options.embed_track_number { track.track_number } else { None }),
        r.disc_number == (if options.embed_disc_number { track.disc_number } else { None }),
        r.release_date == (if options.embed_year { track.release_date } else { None }),
        r.year == (match track.release_date {
            Some(d) => if options.embed_year { parse_i32(d@) } else { None },
            None => None,
        }),
        opt_text(r.genre) == (if options.embed_genre && track.genres@.len() > 0 {
            Some(genres_joined(track.genres@))
        } else {
            None
        }),
        opt_text(r.composer) == opt_field(options.embed_composer, track.composer),
        opt_text(r.comment) == opt_field(options.embed_comment, track.comment),
{
    let release_date = if options.embed_year {
        crate::search::clone_opt(&track.release_date)
    } else {
        None
    };
    let year = match &track.release_date {
        Some(d) => if options.embed_year { parse_i32_text(d.as_str()) } else { None },
        None => None,
    };
    let genre = if options.embed_genre && track.genres.len() > 0 {
        Some(join_genres(&track.genres))
    } else {
        None
    };
    TagFields {
        title: text_field_of(options.embed_title, &track.title),
        artist: text_field_of(options.embed_artist, &track.artist),
        album: text_field_of(options.embed_album, &track.album),
        album_artist: opt_field_of(options.embed_album_artist, &track.album_artist),
        track_number: if options.embed_track_number { track.track_number } else { None },
        disc_number: if options.embed_disc_number { track.disc_number } else { None },
        release_date,
        year,
        genre,
        composer: opt_field_of(options.embed_composer, &track.composer),
        comment: opt_field_of(options.embed_comment, &track.comment),
    }
}

/// `[mm:ss.cc]text` of one line, without a line break.
pub open spec fn stamped(l: LyricsLine) -> Seq<char> {
    "["@ + lrc_stamp(l.timestamp) + "]"@ + l.text@
}

/// Synced lines as LRC lines joined with line feeds, for a plain lyrics
/// field.
pub open spec fn stamped_joined(lines: Seq<LyricsLine>) -> Seq<char>
    decreases lines.len(),
{
    if lines.len() == 0 {
        Seq::empty()
    } else if lines.len() == 1 {
        stamped(lines[0])
    } else {
        stamped_joined(lines.drop_last()) + "\n"@ + stamped(lines.last())
    }
}

/// The lyrics text a generic tag writer stores: synced lyrics as LRC lines,
/// else the plain text, else nothing.
pub open spec fn lyrics_field(l: LyricsResult) -> Option<Seq<char>> {
    match l.synced {
        Some(s) => Some(stamped_joined(s.lines@)),
        None => match l.unsynced {
            Some(u) => Some(u.text@),
            None => None,
        },
    }
}

/// The lyrics text for a generic tag writer.
pub fn lyrics_field_text(l: &LyricsResult) -> (r: Option<String>)
    ensures
        opt_text(r) == lyrics_field(*l),
{
    match &l.synced {
        Some(s) => {
            let mut v: Vec<char> = Vec::new();
            let mut i: usize = 0;
            while i < s.lines.len()
                invariant
                    i <= s.lines@.len(),
                    v@ == stamped_joined(s.lines@.take(i as int)),
                decreases s.lines@.len() - i,
            {
                assert(s.lines@.take(i + 1).drop_last() =~= s.lines@.take(i as int));
                if i > 0 {
                    extend_str(&mut v, "\n");
                }
                let line = &s.lines[i];
                let ghost before = v@;
                extend_str(&mut v, "[");
                extend_pad2(&mut v, (line.timestamp / 60000) as u64);
                extend_str(&mut v, ":");
                extend_pad2(&mut v, ((line.timestamp % 60000) / 1000) as u64);
                extend_str(&mut v, ".");
                extend_pad2(&mut v, ((line.timestamp % 1000) / 10) as u64);
                extend_str(&mut v, "]");
                extend_str(&mut v, line.text.as_str());
                assert(v@ =~= before + stamped(s.lines@[i as int]));
                i = i + 1;
                proof {
                    if i == 1 {
                        assert(s.lines@.take(1)[0] == s.lines@[0]);
                        assert(v@ =~= stamped_joined(s.lines@.take(1)));
                    }
                }
            }
            assert(s.lines@.take(i as int) =~= s.lines@);
            Some(string_of(&v))
        },
        None => match &l.unsynced {
            Some(u) => Some(u.text.clone()),
            None => None,
        },
    }
}

/// What goes into a lyric file beside the audio: the LRC text of synced
/// lyrics (file extension `lrc`), else the plain text (`txt`).
pub open spec fn sidecar_content(l: LyricsResult) -> Option<(bool, Seq<char>)> {
    match l.synced {
        Some(s) => Some((true, lrc_text(s))),
        None => match l.unsynced {
            Some(u) => Some((false, u.text@)),
            None => None,
        },
    }
}

/// The lyric file content and whether it is synced.
pub fn sidecar_text(l: &LyricsResult) -> (r: Option<(bool, String)>)
    ensures
        match sidecar_content(*l) {
            Some(p) => r matches Some(x) && x.0 == p.0 && x.1@ == p.1,
            None => r is None,
        },
{
    match &l.synced {
        Some(s) => Some((true, convert_to_lrc(s))),
        None => match &l.unsynced {
            Some(u) => Some((false, u.text.clone())),
            None => None,
        },
    }
}

} // verus!
