//! File names and the layout of what a download writes:
//! `<dir>/tracks/<name>.<ext>`, `<dir>/covers/<name>.<ext>` and lyric files
//! in a `lyrics` folder beside the audio file. Paths use `/` between parts.
use vstd::prelude::*;
use crate::config::AudioFormat;
use crate::text::{
    chars_of, extend_chars, extend_str, lower_of, string_of, to_lower, trim_chars, trimmed,
};

verus! {

/// What `regex::Regex::replace_all` returns: every match of `pattern` in
/// `text` replaced by `with`; `text` itself when the pattern does not compile.
pub uninterp spec fn regex_replaced(pattern: Seq<char>, text: Seq<char>, with: Seq<char>) -> Seq<
    char,
>;

/// Relies on `regex::Regex::new` and `Regex::replace_all`: all non-overlapping
/// matches replaced; a pattern that does not compile changes nothing.
#[verifier::external_body]
fn replace_pattern(pattern: &str, text: &str, with: &str) -> (r: String)
    ensures
        r@ == regex_replaced(pattern@, text@, with@),
{
    match regex::Regex::new(pattern) {
        Ok(re) => re.replace_all(text, with).into_owned(),
        Err(_) => text.to_string(),
    }
}

/// The character a file name holds in place of `c`.
pub open spec fn safe_char(c: char) -> char {
    if c == '<' || c == '>' || c == ':' || c == '"' || c == '/' || c == '\\' || c == '|' || c
        == '?' || c == '*' {
        '_'
    } else if c == ';' {
        ','
    } else {
        c
    }
}

/// A name with the characters that file systems refuse replaced by `_`,
/// semicolons by commas, and the ends trimmed.
pub open spec fn sanitized(s: Seq<char>) -> Seq<char> {
    trimmed(s.map_values(|c: char| safe_char(c)))
}

/// Replaces `<>:"/\|?*` by `_` and `;` by `,`, then trims.
pub fn sanitize_filename(filename: &str) -> (r: String)
    ensures
        r@ == sanitized(filename@),
{
    let v = chars_of(filename);
    let mut out: Vec<char> = Vec::new();
    let mut i: usize = 0;
    while i < v.len()
        invariant
            i <= v@.len(),
            v@ == filename@,
            out@ == v@.take(i as int).map_values(|c: char| safe_char(c)),
        decreases v@.len() - i,
    {
        let c = v[i];
        let d = if c == '<' || c == '>' || c == ':' || c == '"' || c == '/' || c == '\\' || c
            == '|' || c == '?' || c == '*' {
            '_'
        } else if c == ';' {
            ','
        } else {
            c
        };
        out.push(d);
        i = i + 1;
        assert(out@ =~= v@.take(i as int).map_values(|c: char| safe_char(c)));
    }
    assert(v@.take(i as int) =~= v@);
    let t = trim_chars(&out);
    string_of(&t)
}

/// Number of multi-artist separators.
pub const SEPARATOR_COUNT: usize = 10;

/// The word patterns of multi-artist separators, in the order they are
/// replaced: feat., featuring, ft., ft, &, x, X, vs, vs., feat.
pub open spec fn separator_pattern(i: int) -> Seq<char> {
    if i == 0 { "\\bfeat\\.\\b"@ }
    else if i == 1 { "\\bfeaturing\\b"@ }
    else if i == 2 { "\\bft\\.\\b"@ }
    else if i == 3 { "\\bft\\b"@ }
    else if i == 4 { "\\b\\&\\b"@ }
    else if i == 5 { "\\bx\\b"@ }
    else if i == 6 { "\\bX\\b"@ }
    else if i == 7 { "\\bvs\\b"@ }
    else if i == 8 { "\\bvs\\.\\b"@ }
    else { "\\bfeat\\b"@ }
}

fn separator_pattern_at(i: usize) -> (r: &'static str)
    requires
        i < SEPARATOR_COUNT,
    ensures
        r@ == separator_pattern(i as int),
{
    if i == 0 { "\\bfeat\\.\\b" }
    else if i == 1 { "\\bfeaturing\\b" }
    else if i == 2 { "\\bft\\.\\b" }
    else if i == 3 { "\\bft\\b" }
    else if i == 4 { "\\b\\&\\b" }
    else if i == 5 { "\\bx\\b" }
    else if i == 6 { "\\bX\\b" }
    else if i == 7 { "\\bvs\\b" }
    else if i == 8 { "\\bvs\\.\\b" }
    else { "\\bfeat\\b" }
}

/// `s` after the first `n` separator replacements.
pub open spec fn separators_replaced(s: Seq<char>, n: int) -> Seq<char>
    decreases n,
{
    if n <= 0 {
        s
    } else {
        regex_replaced(separator_pattern(n - 1), separators_replaced(s, n - 1), ", "@)
    }
}

/// An artist credit with its separators turned into commas, runs of
/// whitespace collapsed to one space, and the ends trimmed.
pub open spec fn artists_formatted(artist: Seq<char>) -> Seq<char> {
    trimmed(regex_replaced("\\s+"@, separators_replaced(artist, SEPARATOR_COUNT as int), " "@))
}

/// Normalises multi-artist separators to comma-separated names.
pub fn format_artists_for_filename(artist: &str) -> (r: String)
    ensures
        r@ == artists_formatted(artist@),
{
    let mut formatted = String::from_str(artist);
    let mut i: usize = 0;
    while i < SEPARATOR_COUNT
        invariant
            i <= SEPARATOR_COUNT,
            formatted@ == separators_replaced(artist@, i as int),
        decreases SEPARATOR_COUNT - i,
    {
        let pattern = separator_pattern_at(i);
        formatted = replace_pattern(pattern, formatted.as_str(), ", ");
        i = i + 1;
    }
    let collapsed = replace_pattern("\\s+", formatted.as_str(), " ");
    let v = chars_of(collapsed.as_str());
    let t = trim_chars(&v);
    string_of(&t)
}

/// The extension of a container.
pub open spec fn format_ext(f: AudioFormat) -> Seq<char> {
    match f {
        AudioFormat::Mp3 => "mp3"@,
        AudioFormat::M4a => "m4a"@,
        AudioFormat::Flac => "flac"@,
        AudioFormat::Wav => "wav"@,
    }
}

/// The extension of a container.
pub fn format_extension(f: AudioFormat) -> (r: &'static str)
    ensures
        r@ == format_ext(f),
{
    match f {
        AudioFormat::Mp3 => "mp3",
        AudioFormat::M4a => "m4a",
        AudioFormat::Flac => "flac",
        AudioFormat::Wav => "wav",
    }
}

/// The file name, without extension, of a track: `<artists> - <title>`,
/// sanitised.
pub open spec fn track_stem(artist: Seq<char>, title: Seq<char>) -> Seq<char> {
    sanitized(artists_formatted(artist) + " - "@ + title)
}

/// The sanitised `<artists> - <title>` name of a track.
pub fn track_file_stem(artist: &str, title: &str) -> (r: String)
    ensures
        r@ == track_stem(artist@, title@),
{
    let formatted = format_artists_for_filename(artist);
    let mut v = chars_of(formatted.as_str());
    extend_str(&mut v, " - ");
    extend_str(&mut v, title);
    let joined = string_of(&v);
    sanitize_filename(joined.as_str())
}

/// `<dir>/<sub>/<stem>.<ext>`.
pub open spec fn layout_path(dir: Seq<char>, sub: Seq<char>, stem: Seq<char>, ext: Seq<char>) -> Seq<
    char,
> {
    dir + "/"@ + sub + "/"@ + stem + "."@ + ext
}

fn build_layout_path(dir: &str, sub: &str, stem: &str, ext: &str) -> (r: String)
    ensures
        r@ == layout_path(dir@, sub@, stem@, ext@),
{
    let mut v = chars_of(dir);
    extend_str(&mut v, "/");
    extend_str(&mut v, sub);
    extend_str(&mut v, "/");
    extend_str(&mut v, stem);
    extend_str(&mut v, ".");
    extend_str(&mut v, ext);
    string_of(&v)
}

/// Where the audio of a track goes: `<dir>/tracks/<artists> - <title>.<ext>`.
pub fn output_path(output_dir: &str, artist: &str, title: &str, format: AudioFormat) -> (r: String)
    ensures
        r@ == layout_path(output_dir@, "tracks"@, track_stem(artist@, title@), format_ext(format)),
{
    let stem = track_file_stem(artist, title);
    build_layout_path(output_dir, "tracks", stem.as_str(), format_extension(format))
}

/// The extension of a saved cover for a requested image format: `jpg` for
/// JPEG and anything unknown, `png`, or `webp`.
pub open spec fn cover_ext(format_lower: Seq<char>) -> Seq<char> {
    if format_lower == "png"@ {
        "png"@
    } else if format_lower == "webp"@ {
        "webp"@
    } else {
        "jpg"@
    }
}

/// Where the saved cover of a track goes: `<dir>/covers/<artists> - <title>.<ext>`.
pub fn cover_path(output_dir: &str, artist: &str, title: &str, cover_format: &str) -> (r: String)
    ensures
        r@ == layout_path(
            output_dir@,
            "covers"@,
            track_stem(artist@, title@),
            cover_ext(lower_of(cover_format@)),
        ),
{
    let stem = track_file_stem(artist, title);
    let lowered = to_lower(cover_format);
    let png = String::from_str("png");
    let webp = String::from_str("webp");
    let ext = if lowered == png {
        "png"
    } else if lowered == webp {
        "webp"
    } else {
        "jpg"
    };
    build_layout_path(output_dir, "covers", stem.as_str(), ext)
}

/// Index of the last `c` in `s`, or -1.
pub open spec fn last_index_of(s: Seq<char>, c: char) -> int
    decreases s.len(),
{
    if s.len() == 0 {
        -1
    } else if s.last() == c {
        s.len() - 1
    } else {
        last_index_of(s.drop_last(), c)
    }
}

proof fn lemma_last_index_bounds(s: Seq<char>, c: char)
    ensures
        -1 <= last_index_of(s, c) < s.len(),
    decreases s.len(),
{
    if s.len() > 0 && s.last() != c {
        lemma_last_index_bounds(s.drop_last(), c);
    }
}

/// The index of the last `c` in `v`, if any.
pub fn find_last(v: &Vec<char>, c: char) -> (r: Option<usize>)
    ensures
        match r {
            Some(i) => i as int == last_index_of(v@, c) && i < v@.len(),
            None => last_index_of(v@, c) == -1,
        },
{
    let mut n: usize = v.len();
    assert(v@.take(n as int) =~= v@);
    while n > 0
        invariant
            n <= v@.len(),
            last_index_of(v@.take(n as int), c) == last_index_of(v@, c),
        decreases n,
    {
        assert(v@.take(n as int).last() == v@[n - 1]);
        if v[n - 1] == c {
            return Some(n - 1);
        }
        assert(v@.take(n as int).drop_last() =~= v@.take(n - 1));
        n = n - 1;
    }
    None
}

/// The last part of a path: what follows its last `/`.
pub open spec fn file_name_of(p: Seq<char>) -> Seq<char> {
    p.skip(last_index_of(p, '/') + 1)
}

/// The extension of a path: what follows the last `.` of its file name, when
/// that dot is not the name's first character.
pub open spec fn extension_of(p: Seq<char>) -> Option<Seq<char>> {
    let name = file_name_of(p);
    let d = last_index_of(name, '.');
    if d <= 0 || name == ".."@ {
        None
    } else {
        Some(name.skip(d + 1))
    }
}

/// The file name without its extension.
pub open spec fn stem_of(p: Seq<char>) -> Seq<char> {
    let name = file_name_of(p);
    match extension_of(p) {
        Some(_) => name.take(last_index_of(name, '.')),
        None => name,
    }
}

/// The folder part of a path: what precedes its last `/`, empty if none.
pub open spec fn parent_of(p: Seq<char>) -> Seq<char> {
    let k = last_index_of(p, '/');
    if k < 0 { Seq::empty() } else { p.take(k) }
}

fn copy_range(v: &Vec<char>, from: usize, to: usize) -> (r: Vec<char>)
    requires
        from <= to <= v@.len(),
    ensures
        r@ == v@.subrange(from as int, to as int),
{
    let mut out: Vec<char> = Vec::new();
    let mut i: usize = from;
    while i < to
        invariant
            from <= i <= to <= v@.len(),
            out@ == v@.subrange(from as int, i as int),
        decreases to - i,
    {
        out.push(v[i]);
        i = i + 1;
        assert(out@ =~= v@.subrange(from as int, i as int));
    }
    out
}

/// The parts of a path: folder, file name, and the split of the file name
/// into stem and extension.
pub struct PathParts {
    pub parent: Vec<char>,
    pub name: Vec<char>,
    pub stem: Vec<char>,
    pub extension: Option<Vec<char>>,
}

/// Splits a path into folder, file name, stem and extension.
pub fn split_path(path: &str) -> (r: PathParts)
    ensures
        r.parent@ == parent_of(path@),
        r.name@ == file_name_of(path@),
        r.stem@ == stem_of(path@),
        match r.extension {
            Some(e) => extension_of(path@) == Some(e@),
            None => extension_of(path@) is None,
        },
{
    let v = chars_of(path);
    proof {
        lemma_last_index_bounds(v@, '/');
    }
    let (parent, start) = match find_last(&v, '/') {
        Some(k) => {
            assert(k < v.len());
            (copy_range(&v, 0, k), k + 1)
        },
        None => (Vec::new(), 0),
    };
    assert(parent@ =~= parent_of(path@));
    let name = copy_range(&v, start, v.len());
    assert(name@ =~= file_name_of(path@));
    proof {
        lemma_last_index_bounds(name@, '.');
        reveal_strlit("..");
    }
    let dotdot = chars_of("..");
    let is_dotdot = name.len() == 2 && name[0] == '.' && name[1] == '.';
    assert(is_dotdot == (name@ =~= dotdot@));
    match find_last(&name, '.') {
        Some(d) => {
            if d == 0 || is_dotdot {
                let stem = copy_range(&name, 0, name.len());
                assert(stem@ =~= name@);
                PathParts { parent, name, stem, extension: None }
            } else {
                let stem = copy_range(&name, 0, d);
                let ext = copy_range(&name, d + 1, name.len());
                assert(ext@ =~= name@.skip(d + 1));
                PathParts { parent, name, stem, extension: Some(ext) }
            }
        },
        None => {
            let stem = copy_range(&name, 0, name.len());
            assert(stem@ =~= name@);
            PathParts { parent, name, stem, extension: None }
        },
    }
}

/// Where the lyric file of an audio file goes: a `lyrics` folder beside it,
/// named after the audio file's stem, with `lrc` for synced lyrics and `txt`
/// for plain text.
pub fn lyrics_sidecar_path(audio_path: &str, synced: bool) -> (r: String)
    ensures
        r@ == layout_path(
            parent_of(audio_path@),
            "lyrics"@,
            stem_of(audio_path@),
            if synced { "lrc"@ } else { "txt"@ },
        ),
{
    let parts = split_path(audio_path);
    let mut v: Vec<char> = Vec::new();
    extend_chars(&mut v, &parts.parent);
    extend_str(&mut v, "/lyrics/");
    extend_chars(&mut v, &parts.stem);
    extend_str(&mut v, ".");
    extend_str(&mut v, if synced { "lrc" } else { "txt" });
    proof {
        reveal_strlit("/lyrics/");
        reveal_strlit("/");
        reveal_strlit("lyrics");
    }
    let r = string_of(&v);
    assert(r@ =~= layout_path(
        parent_of(audio_path@),
        "lyrics"@,
        stem_of(audio_path@),
        if synced { "lrc"@ } else { "txt"@ },
    ));
    r
}

} // verus!
