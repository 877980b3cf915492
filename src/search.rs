//! Candidate sources for a track: the content and duration filters, the
//! ranking, and the tiered search policy that decides which query runs next.
use vstd::prelude::*;
use crate::text::{
    chars_of, contains_chars, contains_seq, count_occurrences, decimal, decimal_chars,
    extend_chars, extend_str, lower_of, occurrences, replace_chars, replaced, string_of, to_lower,
};

verus! {

broadcast use vstd::seq_lib::to_multiset_insert;

/// A platform the extraction tool can search.
#[derive(Debug, Clone, Copy, PartialEq, Eq, Structural)]
pub enum Platform {
    YouTube,
    SoundCloud,
}

/// One possible audio source for a track.
#[derive(Debug, Clone)]
pub struct SearchResult {
    pub title: String,
    pub url: String,
    pub duration: Option<u32>,
    pub uploader: Option<String>,
    pub view_count: u64,
    pub platform: String,
    pub thumbnail: Option<String>,
}

/// What the pattern `\d{1,2}:\d{2}:\d{2}` of the regex crate finds in a string.
pub uninterp spec fn has_clock_stamp(s: Seq<char>) -> bool;

/// An ASCII digit.
pub open spec fn ascii_digit(c: char) -> bool {
    '0' <= c && c <= '9'
}

/// `d:dd:dd` in ASCII digits at `i`.
pub open spec fn ascii_clock_at(s: Seq<char>, i: int) -> bool {
    0 <= i && i + 7 <= s.len() && ascii_digit(s[i]) && s[i + 1] == ':' && ascii_digit(s[i + 2])
        && ascii_digit(s[i + 3]) && s[i + 4] == ':' && ascii_digit(s[i + 5]) && ascii_digit(
        s[i + 6],
    )
}

/// Relies on `regex::Regex::is_match` for `\d{1,2}:\d{2}:\d{2}`: `\d` takes
/// every ASCII digit, so an ASCII `d:dd:dd` anywhere is a match.
#[verifier::external_body]
fn clock_stamp_in(s: &str) -> (r: bool)
    ensures
        r == has_clock_stamp(s@),
        (exists|i: int| ascii_clock_at(s@, i)) ==> r,
{
    regex::Regex::new(r"\d{1,2}:\d{2}:\d{2}").unwrap().is_match(s)
}

/// Number of title words that mark content other than a single track.
pub const KEYWORD_COUNT: usize = 37;

/// The title words that mark albums, mixes, shows and other long-form content.
pub open spec fn keyword(i: int) -> Seq<char> {
    if i == 0 { "album"@ }
    else if i == 1 { "mixtape"@ }
    else if i == 2 { "ep"@ }
    else if i == 3 { "compilation"@ }
    else if i == 4 { "collection"@ }
    else if i == 5 { "playlist"@ }
    else if i == 6 { "full album"@ }
    else if i == 7 { "complete album"@ }
    else if i == 8 { "deluxe"@ }
    else if i == 9 { "extended"@ }
    else if i == 10 { "remastered"@ }
    else if i == 11 { "live album"@ }
    else if i == 12 { "studio album"@ }
    else if i == 13 { "best of"@ }
    else if i == 14 { "greatest hits"@ }
    else if i == 15 { "soundtrack"@ }
    else if i == 16 { "score"@ }
    else if i == 17 { "instrumental"@ }
    else if i == 18 { "acoustic"@ }
    else if i == 19 { "unplugged"@ }
    else if i == 20 { "remix album"@ }
    else if i == 21 { "dubstep"@ }
    else if i == 22 { "house"@ }
    else if i == 23 { "techno"@ }
    else if i == 24 { "trance"@ }
    else if i == 25 { "drum and bass"@ }
    else if i == 26 { "mix"@ }
    else if i == 27 { "mashup"@ }
    else if i == 28 { "mash-up"@ }
    else if i == 29 { "bootleg"@ }
    else if i == 30 { "unofficial"@ }
    else if i == 31 { "full mix"@ }
    else if i == 32 { "continuous mix"@ }
    else if i == 33 { "dj mix"@ }
    else if i == 34 { "radio show"@ }
    else if i == 35 { "podcast"@ }
    else { "interview"@ }
}

fn keyword_at(i: usize) -> (r: &'static str)
    requires
        i < KEYWORD_COUNT,
    ensures
        r@ == keyword(i as int),
{
    if i == 0 { "album" }
    else if i == 1 { "mixtape" }
    else if i == 2 { "ep" }
    else if i == 3 { "compilation" }
    else if i == 4 { "collection" }
    else if i == 5 { "playlist" }
    else if i == 6 { "full album" }
    else if i == 7 { "complete album" }
    else if i == 8 { "deluxe" }
    else if i == 9 { "extended" }
    else if i == 10 { "remastered" }
    else if i == 11 { "live album" }
    else if i == 12 { "studio album" }
    else if i == 13 { "best of" }
    else if i == 14 { "greatest hits" }
    else if i == 15 { "soundtrack" }
    else if i == 16 { "score" }
    else if i == 17 { "instrumental" }
    else if i == 18 { "acoustic" }
    else if i == 19 { "unplugged" }
    else if i == 20 { "remix album" }
    else if i == 21 { "dubstep" }
    else if i == 22 { "house" }
    else if i == 23 { "techno" }
    else if i == 24 { "trance" }
    else if i == 25 { "drum and bass" }
    else if i == 26 { "mix" }
    else if i == 27 { "mashup" }
    else if i == 28 { "mash-up" }
    else if i == 29 { "bootleg" }
    else if i == 30 { "unofficial" }
    else if i == 31 { "full mix" }
    else if i == 32 { "continuous mix" }
    else if i == 33 { "dj mix" }
    else if i == 34 { "radio show" }
    else if i == 35 { "podcast" }
    else { "interview" }
}

/// A lowercased title names a single track: no marker word, at most one
/// `" - "` (two would read as artist, album and track), and no `h:mm:ss`.
pub open spec fn title_ok(t: Seq<char>, clock_stamp: bool) -> bool {
    &&& forall|i: int| 0 <= i < KEYWORD_COUNT ==> !contains_seq(t, #[trigger] keyword(i))
    &&& occurrences(t, " - "@) < 2
    &&& !clock_stamp
}

/// The content filter on a raw title: it is lowercased first.
pub open spec fn is_track_title(title: Seq<char>) -> bool {
    title_ok(lower_of(title), has_clock_stamp(lower_of(title)))
}

/// The duration filter: unknown, or from 1:01 to 16:00 inclusive.
pub open spec fn duration_ok(d: Option<u32>) -> bool {
    match d {
        None => true,
        Some(s) => 61 <= s && s <= 960,
    }
}

/// A candidate survives both filters.
pub open spec fn usable(r: SearchResult) -> bool {
    is_track_title(r.title@) && duration_ok(r.duration)
}

/// The candidates of `s` that survive the filters, in their order.
pub open spec fn usable_of(s: Seq<SearchResult>) -> Seq<SearchResult>
    decreases s.len(),
{
    if s.len() == 0 {
        s
    } else if usable(s.last()) {
        usable_of(s.drop_last()).push(s.last())
    } else {
        usable_of(s.drop_last())
    }
}

/// Where `x` goes in `s`: before the first entry with fewer views, so that
/// entries with as many views keep their place ahead of it.
pub open spec fn insert_point(s: Seq<SearchResult>, x: SearchResult) -> int
    decreases s.len(),
{
    if s.len() == 0 {
        0
    } else if s[0].view_count < x.view_count {
        0
    } else {
        1 + insert_point(s.drop_first(), x)
    }
}

/// `s` ordered by views, most first; equal counts keep their order.
pub open spec fn ranked(s: Seq<SearchResult>) -> Seq<SearchResult>
    decreases s.len(),
{
    if s.len() == 0 {
        s
    } else {
        let r = ranked(s.drop_last());
        r.insert(insert_point(r, s.last()), s.last())
    }
}

proof fn lemma_insert_point(s: Seq<SearchResult>, x: SearchResult, p: int)
    requires
        0 <= p <= s.len(),
        forall|q: int| 0 <= q < p ==> s[q].view_count >= x.view_count,
        p == s.len() || s[p].view_count < x.view_count,
    ensures
        insert_point(s, x) == p,
    decreases p,
{
    if p > 0 {
        lemma_insert_point(s.drop_first(), x, p - 1);
    }
}

/// Most viewed first.
pub open spec fn by_views_desc(s: Seq<SearchResult>) -> bool {
    forall|i: int, j: int| 0 <= i < j < s.len() ==> s[i].view_count >= s[j].view_count
}

/// Whether a lowercased title names a single track, given what the timestamp
/// pattern found in it.
pub fn title_passes(title_lower: &str, clock_stamp: bool) -> (r: bool)
    ensures
        r == title_ok(title_lower@, clock_stamp),
{
    let t = chars_of(title_lower);
    let mut i: usize = 0;
    while i < KEYWORD_COUNT
        invariant
            t@ == title_lower@,
            forall|j: int| 0 <= j < i ==> !contains_seq(t@, #[trigger] keyword(j)),
        decreases KEYWORD_COUNT - i,
    {
        let kw = chars_of(keyword_at(i));
        if contains_chars(&t, &kw) {
            return false;
        }
        i = i + 1;
    }
    let sep = chars_of(" - ");
    proof {
        reveal_strlit(" - ");
    }
    let n = count_occurrences(&t, &sep);
    n < 2 && !clock_stamp
}

/// The extraction tool for the primary and secondary platforms.
pub struct YoutubeDownloader {
    pub executable_path: String,
}

impl YoutubeDownloader {
    pub fn new() -> (r: Self)
        ensures
            r.executable_path@ == "yt-dlp"@,
    {
        YoutubeDownloader { executable_path: String::from_str("yt-dlp") }
    }

    pub fn with_path(executable_path: String) -> (r: Self)
        ensures
            r.executable_path == executable_path,
    {
        YoutubeDownloader { executable_path }
    }

    /// The content filter: false for albums, mixes, shows and long-form titles.
    pub fn is_track(&self, title: &str) -> (r: bool)
        ensures
            r == is_track_title(title@),
    {
        let lowered = to_lower(title);
        let stamp = clock_stamp_in(lowered.as_str());
        title_passes(lowered.as_str(), stamp)
    }

    /// The duration filter.
    pub fn is_valid_duration(&self, duration: Option<u32>) -> (r: bool)
        ensures
            r == duration_ok(duration),
    {
        match duration {
            Some(d) => d >= 61 && d <= 960,
            None => true,
        }
    }

    /// The candidates that pass both filters, most viewed first.
    pub fn filter_and_rank(&self, results: Vec<SearchResult>) -> (r: Vec<SearchResult>)
        ensures
            r@ == ranked(usable_of(results@)),
            r@.to_multiset() == usable_of(results@).to_multiset(),
            by_views_desc(r@),
    {
        let mut kept: Vec<SearchResult> = Vec::new();
        let mut i: usize = 0;
        while i < results.len()
            invariant
                i <= results@.len(),
                kept@ == usable_of(results@.take(i as int)),
            decreases results@.len() - i,
        {
            let ghost before = results@.take(i as int);
            assert(results@.take(i + 1).drop_last() =~= before);
            let r = &results[i];
            let ok = self.is_track(r.title.as_str()) && self.is_valid_duration(r.duration);
            if ok {
                kept.push(r.clone_result());
            }
            i = i + 1;
        }
        assert(results@.take(i as int) =~= results@);
        let mut out: Vec<SearchResult> = Vec::new();
        let mut k: usize = 0;
        assert(out@ =~= kept@.take(0));
        assert(ranked(kept@.take(0)) =~= out@);
        while k < kept.len()
            invariant
                k <= kept@.len(),
                out@ == ranked(kept@.take(k as int)),
                out@.to_multiset() == kept@.take(k as int).to_multiset(),
                by_views_desc(out@),
            decreases kept@.len() - k,
        {
            let item = kept[k].clone_result();
            let mut p: usize = 0;
            while p < out.len() && out[p].view_count >= item.view_count
                invariant
                    p <= out@.len(),
                    forall|q: int| 0 <= q < p ==> out@[q].view_count >= item.view_count,
                decreases out@.len() - p,
            {
                p = p + 1;
            }
            let ghost old_out = out@;
            proof {
                lemma_insert_point(old_out, item, p as int);
                assert(kept@.take(k + 1).drop_last() =~= kept@.take(k as int));
                assert(kept@.take(k + 1).last() == item);
            }
            out.insert(p, item);
            proof {
                old_out.insert_ensures(p as int, item);
                assert(kept@.take(k + 1) =~= kept@.take(k as int).push(kept@[k as int]));
                vstd::seq_lib::to_multiset_build(kept@.take(k as int), kept@[k as int]);
                vstd::seq_lib::to_multiset_insert(old_out, p as int, item);
                assert forall|a: int, b: int| 0 <= a < b < out@.len() implies out@[a].view_count
                    >= out@[b].view_count by {
                    if b < p {
                    } else if b == p {
                    } else if a < p {
                        assert(out@[b] == old_out[b - 1]);
                        if p < old_out.len() {
                            assert(old_out[p as int].view_count < item.view_count);
                            assert(old_out[p as int].view_count >= old_out[b - 1].view_count
                                || p == b - 1);
                        }
                    } else if a == p {
                        assert(out@[b] == old_out[b - 1]);
                        assert(old_out[p as int].view_count < item.view_count);
                        assert(old_out[p as int].view_count >= old_out[b - 1].view_count
                            || p == b - 1);
                    } else {
                        assert(out@[a] == old_out[a - 1]);
                        assert(out@[b] == old_out[b - 1]);
                    }
                }
            }
            k = k + 1;
        }
        assert(kept@.take(k as int) =~= kept@);
        out
    }
}

impl SearchResult {
    /// A field-by-field copy.
    pub fn clone_result(&self) -> (r: SearchResult)
        ensures
            r == *self,
    {
        SearchResult {
            title: self.title.clone(),
            url: self.url.clone(),
            duration: self.duration,
            uploader: clone_opt(&self.uploader),
            view_count: self.view_count,
            platform: self.platform.clone(),
            thumbnail: clone_opt(&self.thumbnail),
        }
    }
}

/// A copy of an optional string.
pub fn clone_opt(s: &Option<String>) -> (r: Option<String>)
    ensures
        r == *s,
{
    match s {
        Some(v) => Some(v.clone()),
        None => None,
    }
}

/// Number of search tiers.
pub const TIER_COUNT: usize = 4;

/// The platform of a tier: the primary platform first, then the secondary.
pub open spec fn tier_platform(t: int) -> Platform {
    if t < 2 { Platform::YouTube } else { Platform::SoundCloud }
}

/// How many results a tier asks for: a narrow query, then a wider one.
pub open spec fn tier_count(t: int) -> u32 {
    if t % 2 == 0 { 1 } else { 5 }
}

/// The tier after `tier` when it returned `found` raw results, or none when
/// the search ends there: it ends at the first tier that returns anything.
pub open spec fn next_tier(tier: int, found: nat) -> Option<int> {
    if found > 0 || tier + 1 >= TIER_COUNT { None } else { Some(tier + 1) }
}

/// What the driver of a search does next.
pub enum SearchStep {
    /// Run this query on the platform.
    Query { platform: Platform, count: u32 },
    /// The search is over: the usable candidates, most viewed first.
    Finished(Vec<SearchResult>),
}

/// The escalating search: narrow primary, wide primary, narrow secondary, wide
/// secondary, stopping at the first tier that returns any result.
pub struct TieredSearch {
    pub tier: usize,
    pub finished: bool,
}

/// Raw results of a query outcome: a failed query counts as an empty one.
pub open spec fn raw_results(o: Result<Vec<SearchResult>, String>) -> Seq<SearchResult> {
    match o {
        Ok(v) => v@,
        Err(_) => Seq::empty(),
    }
}

impl TieredSearch {
    pub fn new() -> (r: Self)
        ensures
            r.tier == 0,
            !r.finished,
    {
        TieredSearch { tier: 0, finished: false }
    }

    /// The query of the current tier.
    pub fn current_query(&self) -> (r: (Platform, u32))
        ensures
            r.0 == tier_platform(self.tier as int),
            r.1 == tier_count(self.tier as int),
    {
        let platform = if self.tier < 2 { Platform::YouTube } else { Platform::SoundCloud };
        let count: u32 = if self.tier % 2 == 0 { 1 } else { 5 };
        (platform, count)
    }

    /// Takes the outcome of the current tier's query and says what comes next.
    pub fn record(&mut self, outcome: Result<Vec<SearchResult>, String>, yt: &YoutubeDownloader) -> (r: SearchStep)
        requires
            !old(self).finished,
            old(self).tier < TIER_COUNT,
        ensures
            match next_tier(old(self).tier as int, raw_results(outcome).len()) {
                Some(t) => {
                    &&& final(self).tier == t
                    &&& !final(self).finished
                    &&& r == (SearchStep::Query { platform: tier_platform(t), count: tier_count(t) })
                },
                None => {
                    &&& final(self).finished
                    &&& final(self).tier == old(self).tier
                    &&& r matches SearchStep::Finished(v) && v@ == ranked(usable_of(raw_results(outcome)))
                        && by_views_desc(v@)
                },
            },
    {
        let raw = match outcome {
            Ok(v) => v,
            Err(_) => Vec::new(),
        };
        if raw.len() > 0 || self.tier + 1 >= TIER_COUNT {
            self.finished = true;
            let ranked = yt.filter_and_rank(raw);
            SearchStep::Finished(ranked)
        } else {
            self.tier = self.tier + 1;
            let q = self.current_query();
            SearchStep::Query { platform: q.0, count: q.1 }
        }
    }
}

proof fn lemma_usable_len(s: Seq<SearchResult>)
    ensures
        usable_of(s).len() <= s.len(),
    decreases s.len(),
{
    if s.len() > 0 {
        lemma_usable_len(s.drop_last());
    }
}

/// A usable result from the narrow query on the primary platform ends the
/// search: no wider or secondary query runs after it.
pub proof fn first_tier_hit_ends_search(raw: Seq<SearchResult>)
    requires
        usable_of(raw).len() >= 1,
    ensures
        next_tier(0, raw.len()) is None,
{
    lemma_usable_len(raw);
}

/// The query text for the extraction tool: at most five results on the
/// primary platform, as many as asked on the secondary.
pub open spec fn search_target(platform: Platform, count: u32, query: Seq<char>) -> Seq<char> {
    match platform {
        Platform::YouTube => "ytsearch"@ + decimal(if count < 5 { count as nat } else { 5 }) + ":"@
            + query,
        Platform::SoundCloud => "scsearch"@ + decimal(count as nat) + ":"@ + query,
    }
}

/// The query text that asks the extraction tool for `count` results.
pub fn search_target_for(platform: Platform, count: u32, query: &str) -> (r: String)
    ensures
        r@ == search_target(platform, count, query@),
{
    let mut v: Vec<char> = Vec::new();
    let n: u32 = match platform {
        Platform::YouTube => {
            extend_str(&mut v, "ytsearch");
            if count < 5 { count } else { 5 }
        },
        Platform::SoundCloud => {
            extend_str(&mut v, "scsearch");
            count
        },
    };
    let d = decimal_chars(n as u64);
    extend_chars(&mut v, &d);
    extend_str(&mut v, ":");
    extend_str(&mut v, query);
    let r = string_of(&v);
    assert(r@ =~= search_target(platform, count, query@));
    r
}

/// The display name of a platform.
pub open spec fn platform_name(p: Platform) -> Seq<char> {
    match p {
        Platform::YouTube => "YouTube"@,
        Platform::SoundCloud => "SoundCloud"@,
    }
}

/// The page of a found item: on the secondary platform the uploader's name,
/// lowercased with spaces as dashes, then the id; on the primary platform the
/// page the tool reported, else the watch page of the id.
pub open spec fn candidate_url(
    platform: Platform,
    id: Seq<char>,
    uploader: Option<Seq<char>>,
    webpage_url: Option<Seq<char>>,
) -> Seq<char> {
    match platform {
        Platform::SoundCloud => match uploader {
            Some(u) => "https://soundcloud.com/"@ + replaced(lower_of(u), " "@, "-"@) + "/"@ + id,
            None => "https://soundcloud.com/track/"@ + id,
        },
        Platform::YouTube => match webpage_url {
            Some(w) => w,
            None => "https://youtube.com/watch?v="@ + id,
        },
    }
}

/// The view of an optional string.
pub open spec fn opt_view(s: Option<String>) -> Option<Seq<char>> {
    match s {
        Some(v) => Some(v@),
        None => None,
    }
}

/// Builds a candidate from the fields the extraction tool reported for one
/// item. A missing title reads "Unknown Title", a missing view count 0, and
/// the duration is cut to 32 bits.
pub fn candidate_from_fields(
    platform: Platform,
    title: Option<String>,
    id: Option<String>,
    duration: Option<u64>,
    uploader: Option<String>,
    view_count: Option<u64>,
    thumbnail: Option<String>,
    webpage_url: Option<String>,
) -> (r: SearchResult)
    ensures
        r.title@ == (match title {
            Some(t) => t@,
            None => "Unknown Title"@,
        }),
        r.url@ == candidate_url(
            platform,
            match id {
                Some(i) => i@,
                None => Seq::empty(),
            },
            opt_view(uploader),
            opt_view(webpage_url),
        ),
        r.duration == (match duration {
            Some(d) => Some((d % 0x1_0000_0000) as u32),
            None => None,
        }),
        r.uploader == uploader,
        r.view_count == (match view_count {
            Some(v) => v,
            None => 0,
        }),
        r.platform@ == platform_name(platform),
        r.thumbnail == thumbnail,
{
    let title = match title {
        Some(t) => t,
        None => String::from_str("Unknown Title"),
    };
    let id = match id {
        Some(i) => i,
        None => String::new(),
    };
    let duration = match duration {
        Some(d) => Some((d % 0x1_0000_0000) as u32),
        None => None,
    };
    let url = match platform {
        Platform::SoundCloud => match &uploader {
            Some(u) => {
                let lowered = to_lower(u.as_str());
                let lc = chars_of(lowered.as_str());
                let space = chars_of(" ");
                let dash = chars_of("-");
                proof {
                    reveal_strlit(" ");
                }
                let slug = replace_chars(&lc, &space, &dash);
                let mut v: Vec<char> = Vec::new();
                extend_str(&mut v, "https://soundcloud.com/");
                extend_chars(&mut v, &slug);
                extend_str(&mut v, "/");
                extend_str(&mut v, id.as_str());
                string_of(&v)
            },
            None => {
                let mut v: Vec<char> = Vec::new();
                extend_str(&mut v, "https://soundcloud.com/track/");
                extend_str(&mut v, id.as_str());
                string_of(&v)
            },
        },
        Platform::YouTube => match &webpage_url {
            Some(w) => w.clone(),
            None => {
                let mut v: Vec<char> = Vec::new();
                extend_str(&mut v, "https://youtube.com/watch?v=");
                extend_str(&mut v, id.as_str());
                string_of(&v)
            },
        },
    };
    let platform_label = match platform {
        Platform::YouTube => String::from_str("YouTube"),
        Platform::SoundCloud => String::from_str("SoundCloud"),
    };
    let view_count = match view_count {
        Some(v) => v,
        None => 0,
    };
    SearchResult {
        title,
        url,
        duration,
        uploader,
        view_count,
        platform: platform_label,
        thumbnail,
    }
}

} // verus!
