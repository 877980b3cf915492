//! Where cover art and lyrics are looked for, and in which order. Each
//! source is asked by the driver; these machines say which one is next and
//! when to stop.
use vstd::prelude::*;
use crate::text::{chars_of, extend_str, string_of};
use crate::naming::{find_last, last_index_of};
use crate::track::TrackMetadata;

verus! {

/// A place cover art can come from, in the order they are tried.
#[derive(Debug, Clone, Copy, PartialEq, Eq, Structural)]
pub enum CoverSource {
    /// The artwork of the track's own metadata, fetched again by track id.
    SpotifyApi,
    /// The secondary provider's album search.
    ItunesAlbum,
    /// The secondary provider's track search.
    ItunesTrack,
}

/// What the cover search does next.
pub enum CoverStep {
    /// Ask this source.
    Try(CoverSource),
    /// Use the image at this address.
    Found(String),
    /// No source had one.
    NotFound,
}

/// The prefix of a track page.
pub open spec fn track_page_prefix() -> Seq<char> {
    "https://open.spotify.com/track/"@
}

/// The track id in a track page address: what follows its last `/`, when the
/// address is a track page.
pub open spec fn spotify_track_id(url: Seq<char>) -> Option<Seq<char>> {
    if url.len() >= track_page_prefix().len() && url.take(track_page_prefix().len() as int)
        == track_page_prefix() {
        Some(url.skip(last_index_of(url, '/') + 1))
    } else {
        None
    }
}

/// The track id of a track page address.
pub fn extract_spotify_track_id(url: &str) -> (r: Option<String>)
    ensures
        match spotify_track_id(url@) {
            Some(id) => r matches Some(x) && x@ == id,
            None => r is None,
        },
{
    let u = chars_of(url);
    let p = chars_of("https://open.spotify.com/track/");
    let starts = p.len() <= u.len() && crate::text::matches_at(&u, &p, 0);
    proof {
        if p@.len() <= u@.len() {
            assert(u@.subrange(0, p@.len() as int) =~= u@.take(p@.len() as int));
        }
    }
    if !starts {
        return None;
    }
    match find_last(&u, '/') {
        Some(k) => {
            let mut v: Vec<char> = Vec::new();
            let mut i: usize = k + 1;
            while i < u.len()
                invariant
                    k < u@.len(),
                    k + 1 <= i <= u@.len(),
                    v@ == u@.subrange(k + 1, i as int),
                decreases u@.len() - i,
            {
                v.push(u[i]);
                i = i + 1;
                assert(v@ =~= u@.subrange(k + 1, i as int));
            }
            assert(v@ =~= u@.skip(k + 1));
            Some(string_of(&v))
        },
        None => {
            proof {
                reveal_strlit("https://open.spotify.com/track/");
                assert(p@.len() == 31);
                assert(p@[30] == '/');
                assert(u@.subrange(0, 31) == p@);
                assert(u@[30] == u@.subrange(0, 31)[30]);
                lemma_last_slash(u@, p@.len() - 1);
            }
            None
        },
    }
}

proof fn lemma_last_slash(s: Seq<char>, i: int)
    requires
        0 <= i < s.len(),
        s[i] == '/',
    ensures
        last_index_of(s, '/') >= i,
    decreases s.len(),
{
    if s.last() != '/' {
        lemma_last_slash(s.drop_last(), i);
    }
}

/// The source after `s`, if any.
pub open spec fn cover_after(s: CoverSource) -> Option<CoverSource> {
    match s {
        CoverSource::SpotifyApi => Some(CoverSource::ItunesAlbum),
        CoverSource::ItunesAlbum => Some(CoverSource::ItunesTrack),
        CoverSource::ItunesTrack => None,
    }
}

/// The cover search of one track: the address already in its metadata
/// first, then the sources in order; the first that has one wins.
pub struct CoverSearch {
    pub current: Option<CoverSource>,
}

/// A non-empty address.
pub open spec fn usable_url(u: Option<String>) -> bool {
    u matches Some(x) && x@.len() > 0
}

impl CoverSearch {
    /// Starts the search: the metadata's own address when it has one, else
    /// the artwork by track id when the track page gives one, else the album
    /// search.
    pub fn start(track: &TrackMetadata) -> (r: (CoverSearch, CoverStep))
        ensures
            usable_url(track.album_cover_url) ==> (r.1 matches CoverStep::Found(u) && Some(u)
                == track.album_cover_url),
            !usable_url(track.album_cover_url) && spotify_track_id(track.spotify_url@) is Some ==> (
            r.1 matches CoverStep::Try(CoverSource::SpotifyApi) && r.0.current == Some(
                CoverSource::SpotifyApi,
            )),
            !usable_url(track.album_cover_url) && spotify_track_id(track.spotify_url@) is None ==> (
            r.1 matches CoverStep::Try(CoverSource::ItunesAlbum) && r.0.current == Some(
                CoverSource::ItunesAlbum,
            )),
    {
        match &track.album_cover_url {
            Some(u) => {
                if u.unicode_len() > 0 {
                    return (CoverSearch { current: None }, CoverStep::Found(u.clone()));
                }
            },
            None => {},
        }
        let first = match extract_spotify_track_id(track.spotify_url.as_str()) {
            Some(_) => CoverSource::SpotifyApi,
            None => CoverSource::ItunesAlbum,
        };
        (CoverSearch { current: Some(first) }, CoverStep::Try(first))
    }

    /// Takes the answer of the current source: a non-empty address ends the
    /// search; a failure or nothing moves to the next source.
    pub fn record(&mut self, answer: Option<String>) -> (r: CoverStep)
        requires
            old(self).current is Some,
        ensures
            usable_url(answer) ==> (r matches CoverStep::Found(u) && Some(u) == answer
                && final(self).current is None),
            !usable_url(answer) ==> match cover_after(old(self).current->0) {
                Some(n) => r matches CoverStep::Try(s) && s == n && final(self).current == Some(n),
                None => r matches CoverStep::NotFound && final(self).current is None,
            },
    {
        match answer {
            Some(u) => {
                if u.unicode_len() > 0 {
                    self.current = None;
                    return CoverStep::Found(u);
                }
            },
            None => {},
        }
        let next = match self.current {
            Some(CoverSource::SpotifyApi) => Some(CoverSource::ItunesAlbum),
            Some(CoverSource::ItunesAlbum) => Some(CoverSource::ItunesTrack),
            _ => None,
        };
        self.current = next;
        match next {
            Some(n) => CoverStep::Try(n),
            None => CoverStep::NotFound,
        }
    }
}

/// The query variants tried against lyric databases, in order: `a t`,
/// `a - t`, and `"a" "t"`.
pub open spec fn lyric_queries(artist: Seq<char>, title: Seq<char>) -> Seq<Seq<char>> {
    seq![
        artist + " "@ + title,
        artist + " - "@ + title,
        "\""@ + artist + "\" \""@ + title + "\""@,
    ]
}

/// The query variants of a track, without repeats.
pub fn generate_search_queries(artist: &str, title: &str) -> (r: Vec<String>)
    ensures
        r@.map_values(|s: String| s@) == lyric_queries(artist@, title@),
{
    let mut a = chars_of(artist);
    extend_str(&mut a, " ");
    extend_str(&mut a, title);
    let mut b = chars_of(artist);
    extend_str(&mut b, " - ");
    extend_str(&mut b, title);
    let mut c = chars_of("\"");
    extend_str(&mut c, artist);
    extend_str(&mut c, "\" \"");
    extend_str(&mut c, title);
    extend_str(&mut c, "\"");
    let mut out: Vec<String> = Vec::new();
    out.push(string_of(&a));
    out.push(string_of(&b));
    out.push(string_of(&c));
    assert(out@.map_values(|s: String| s@) =~= lyric_queries(artist@, title@));
    out
}

/// Number of query variants.
pub const QUERY_COUNT: usize = 3;

/// A lyric source.
#[derive(Debug, Clone, Copy, PartialEq, Eq, Structural)]
pub enum LyricSource {
    Lrclib,
    LyricsOvh,
    Musixmatch,
    AzLyrics,
    Genius,
}

/// One lyric lookup to make.
#[derive(Debug, Clone, Copy, PartialEq, Eq, Structural)]
pub enum LyricAttempt {
    /// Synced lyrics for the track from a source.
    Synced(LyricSource),
    /// Plain lyrics from a source for the query variant with this index.
    Plain(LyricSource, usize),
}

/// Synced sources in order: the first two sources.
pub open spec fn synced_source(i: int) -> LyricSource {
    if i == 0 { LyricSource::Lrclib } else { LyricSource::LyricsOvh }
}

/// Plain sources in order, tried for each query variant.
pub open spec fn plain_source(i: int) -> LyricSource {
    if i == 0 { LyricSource::Lrclib }
    else if i == 1 { LyricSource::LyricsOvh }
    else if i == 2 { LyricSource::Musixmatch }
    else if i == 3 { LyricSource::AzLyrics }
    else { LyricSource::Genius }
}

/// The lookup at position `n` of the plan: two synced lookups, then the
/// five plain sources for each of the three query variants.
pub open spec fn attempt_at(n: int) -> LyricAttempt {
    if n < 2 {
        LyricAttempt::Synced(synced_source(n))
    } else {
        LyricAttempt::Plain(plain_source((n - 2) % 5), ((n - 2) / 5) as usize)
    }
}

/// Length of the plan.
pub const ATTEMPT_COUNT: usize = 17;

fn attempt_at_exec(n: usize) -> (r: LyricAttempt)
    requires
        n < ATTEMPT_COUNT,
    ensures
        r == attempt_at(n as int),
{
    if n < 2 {
        LyricAttempt::Synced(if n == 0 { LyricSource::Lrclib } else { LyricSource::LyricsOvh })
    } else {
        let k = (n - 2) % 5;
        let src = if k == 0 {
            LyricSource::Lrclib
        } else if k == 1 {
            LyricSource::LyricsOvh
        } else if k == 2 {
            LyricSource::Musixmatch
        } else if k == 3 {
            LyricSource::AzLyrics
        } else {
            LyricSource::Genius
        };
        LyricAttempt::Plain(src, (n - 2) / 5)
    }
}

/// What the lyric search does next.
#[derive(Debug, Clone, Copy, PartialEq, Eq, Structural)]
pub enum LyricStep {
    Lookup(LyricAttempt),
    /// Stop: the last lookup found lyrics.
    Found(LyricAttempt),
    /// Every lookup came back empty.
    Exhausted,
}

/// The lyric search of one track. Synced lyrics always win: no plain
/// lookup is made once a synced one succeeds.
pub struct LyricSearch {
    pub position: usize,
    pub finished: bool,
}

impl LyricSearch {
    pub fn start() -> (r: (LyricSearch, LyricStep))
        ensures
            r.0.position == 0 && !r.0.finished,
            r.1 == LyricStep::Lookup(attempt_at(0)),
    {
        (LyricSearch { position: 0, finished: false }, LyricStep::Lookup(attempt_at_exec(0)))
    }

    /// Takes whether the current lookup found lyrics.
    pub fn record(&mut self, found: bool) -> (r: LyricStep)
        requires
            !old(self).finished,
            old(self).position < ATTEMPT_COUNT,
        ensures
            found ==> r == LyricStep::Found(attempt_at(old(self).position as int))
                && final(self).finished,
            !found && old(self).position + 1 < ATTEMPT_COUNT ==> r == LyricStep::Lookup(
                attempt_at(old(self).position + 1),
            ) && final(self).position == old(self).position + 1 && !final(self).finished,
            !found && old(self).position + 1 >= ATTEMPT_COUNT ==> r == LyricStep::Exhausted
                && final(self).finished,
    {
        let current = attempt_at_exec(self.position);
        if found {
            self.finished = true;
            return LyricStep::Found(current);
        }
        if self.position + 1 < ATTEMPT_COUNT {
            self.position = self.position + 1;
            LyricStep::Lookup(attempt_at_exec(self.position))
        } else {
            self.finished = true;
            LyricStep::Exhausted
        }
    }
}

/// Synced lyrics win: a lookup found at a synced position ends the search
/// before any plain lookup, and every plain lookup comes after both synced ones.
pub proof fn synced_before_plain(n: int, m: int)
    requires
        0 <= n < m < ATTEMPT_COUNT,
        attempt_at(m) is Plain,
    ensures
        attempt_at(0) is Synced && attempt_at(1) is Synced,
        m >= 2,
{
}

} // verus!
