//! Small formatting and path helpers.
use vstd::prelude::*;
use crate::errors::SpotifyDownloaderError;
use crate::lyrics::{digits_u32, is_digit};
use crate::naming::{extension_of, sanitized, split_path};
use crate::text::{contains_chars, contains_seq,
    chars_of, decimal, decimal_chars, extend_chars, extend_pad2, extend_str, lower_of, pad2,
    string_of, to_lower,
};

verus! {

/// `h:mm:ss` when there is an hour, else `m:ss`.
pub open spec fn clock_text(seconds: nat) -> Seq<char> {
    let h = seconds / 3600;
    let m = (seconds % 3600) / 60;
    let s = seconds % 60;
    if h > 0 {
        decimal(h) + ":"@ + pad2(m) + ":"@ + pad2(s)
    } else {
        decimal(m) + ":"@ + pad2(s)
    }
}

/// `path` relative to `base`, as a component-wise prefix: equal paths give
/// the empty path, and `base` must end at a `/` of `path`.
pub open spec fn relative_to(path: Seq<char>, base: Seq<char>) -> Option<Seq<char>> {
    if base.len() == 0 {
        Some(path)
    } else if path == base {
        Some(Seq::empty())
    } else if base.last() == '/' && base.len() <= path.len() && path.take(base.len() as int) == base {
        Some(path.skip(base.len() as int))
    } else if base.len() < path.len() && path.take(base.len() as int) == base && path[base.len() as int]
        == '/' {
        Some(path.skip(base.len() as int + 1))
    } else {
        None
    }
}

/// `<stem> (<n>).<ext>` beside the original, or `<stem> (<n>)` without an
/// extension.
pub open spec fn numbered_name(parent: Seq<char>, stem: Seq<char>, ext: Option<Seq<char>>, n: nat) -> Seq<char> {
    let prefix = if parent.len() == 0 { Seq::empty() } else { parent + "/"@ };
    match ext {
        Some(e) => prefix + stem + " ("@ + decimal(n) + ")."@ + e,
        None => prefix + stem + " ("@ + decimal(n) + ")"@,
    }
}

/// General helpers.
pub struct Utils;

impl Utils {
    /// Replaces `<>:"/\|?*` by `_` and `;` by `,`, then trims.
    pub fn sanitize_filename(filename: &str) -> (r: String)
        ensures
            r@ == sanitized(filename@),
    {
        crate::naming::sanitize_filename(filename)
    }

    /// A duration as `h:mm:ss`, or `m:ss` under an hour.
    pub fn format_duration(seconds: u32) -> (r: String)
        ensures
            r@ == clock_text(seconds as nat),
    {
        let hours = seconds / 3600;
        let minutes = (seconds % 3600) / 60;
        let secs = seconds % 60;
        let mut v: Vec<char> = Vec::new();
        if hours > 0 {
            let h = decimal_chars(hours as u64);
            extend_chars(&mut v, &h);
            extend_str(&mut v, ":");
            extend_pad2(&mut v, minutes as u64);
            extend_str(&mut v, ":");
            extend_pad2(&mut v, secs as u64);
        } else {
            let m = decimal_chars(minutes as u64);
            extend_chars(&mut v, &m);
            extend_str(&mut v, ":");
            extend_pad2(&mut v, secs as u64);
        }
        string_of(&v)
    }

    /// A duration in milliseconds, shown to the whole second.
    pub fn format_duration_ms(milliseconds: u32) -> (r: String)
        ensures
            r@ == clock_text((milliseconds / 1000) as nat),
    {
        Utils::format_duration(milliseconds / 1000)
    }

    /// The lowercased extension of a path.
    pub fn get_file_extension(path: &str) -> (r: Option<String>)
        ensures
            match extension_of(path@) {
                Some(e) => r matches Some(x) && x@ == lower_of(e),
                None => r is None,
            },
    {
        let parts = split_path(path);
        match parts.extension {
            Some(e) => {
                let s = string_of(&e);
                Some(to_lower(s.as_str()))
            },
            None => None,
        }
    }

    /// `path` relative to `base`, or an error when `base` is not a prefix.
    pub fn get_relative_path(path: &str, base: &str) -> (r: Result<String, SpotifyDownloaderError>)
        ensures
            match relative_to(path@, base@) {
                Some(rel) => r matches Ok(x) && x@ == rel,
                None => r matches Err(SpotifyDownloaderError::Io(_)),
            },
    {
        let p = chars_of(path);
        let b = chars_of(base);
        if b.len() == 0 {
            return Ok(String::from_str(path));
        }
        let prefix = b.len() <= p.len() && crate::text::matches_at(&p, &b, 0);
        proof {
            if b@.len() <= p@.len() {
                assert(p@.subrange(0, b@.len() as int) =~= p@.take(b@.len() as int));
            }
        }
        if prefix && p.len() == b.len() {
            assert(p@ =~= b@) by {
                assert(p@.take(b@.len() as int) =~= p@);
            }
            return Ok(String::new());
        }
        if prefix && b[b.len() - 1] == '/' {
            let mut v: Vec<char> = Vec::new();
            let mut i: usize = b.len();
            while i < p.len()
                invariant
                    b@.len() <= i <= p@.len(),
                    v@ == p@.subrange(b@.len() as int, i as int),
                decreases p@.len() - i,
            {
                v.push(p[i]);
                i = i + 1;
                assert(v@ =~= p@.subrange(b@.len() as int, i as int));
            }
            assert(v@ =~= p@.skip(b@.len() as int));
            assert(p@ != b@ || p@.len() == b@.len());
            return Ok(string_of(&v));
        }
        if prefix && p.len() > b.len() && p[b.len()] == '/' {
            let mut v: Vec<char> = Vec::new();
            let mut i: usize = b.len() + 1;
            while i < p.len()
                invariant
                    b@.len() + 1 <= i <= p@.len(),
                    v@ == p@.subrange(b@.len() as int + 1, i as int),
                decreases p@.len() - i,
            {
                v.push(p[i]);
                i = i + 1;
                assert(v@ =~= p@.subrange(b@.len() as int + 1, i as int));
            }
            assert(v@ =~= p@.skip(b@.len() as int + 1));
            assert(p@ != b@);
            return Ok(string_of(&v));
        }
        proof {
            if p@ == b@ {
                assert(p@.take(b@.len() as int) =~= p@);
            }
        }
        Err(SpotifyDownloaderError::Io(String::from_str("Path is not relative to base")))
    }

    /// The `n`-th alternative name for a file that already exists.
    pub fn numbered_filename(path: &str, n: u64) -> (r: String)
        ensures
            r@ == numbered_name(
                crate::naming::parent_of(path@),
                crate::naming::stem_of(path@),
                extension_of(path@),
                n as nat,
            ),
    {
        let parts = split_path(path);
        let mut v: Vec<char> = Vec::new();
        if parts.parent.len() > 0 {
            extend_chars(&mut v, &parts.parent);
            extend_str(&mut v, "/");
        }
        extend_chars(&mut v, &parts.stem);
        extend_str(&mut v, " (");
        let d = decimal_chars(n);
        extend_chars(&mut v, &d);
        match &parts.extension {
            Some(e) => {
                extend_str(&mut v, ").");
                extend_chars(&mut v, e);
            },
            None => {
                extend_str(&mut v, ")");
            },
        }
        proof {
            if parts.parent@.len() == 0 {
                assert(v@ =~= numbered_name(
                    crate::naming::parent_of(path@),
                    crate::naming::stem_of(path@),
                    extension_of(path@),
                    n as nat,
                ));
            }
        }
        string_of(&v)
    }
}

/// Seconds per unit letter of an ISO 8601 duration: hours, minutes,
/// seconds; other letters count for nothing.
pub open spec fn unit_seconds(c: char) -> nat {
    if c == 'H' { 3600 } else if c == 'M' { 60 } else if c == 'S' { 1 } else { 0 }
}

/// The running total and the pending digits after reading `s`: digits
/// gather, and each other character adds the gathered number times its
/// unit, then clears them.
pub open spec fn duration_state(s: Seq<char>) -> (nat, Seq<char>)
    decreases s.len(),
{
    if s.len() == 0 {
        (0, Seq::empty())
    } else {
        let prev = duration_state(s.drop_last());
        let c = s.last();
        if is_digit(c) {
            (prev.0, prev.1.push(c))
        } else {
            (prev.0 + match digits_u32(prev.1) {
                Some(n) => n as nat * unit_seconds(c),
                None => 0,
            }, Seq::empty())
        }
    }
}

/// An ISO 8601 duration such as `PT1H2M3S` in seconds: it must start with
/// `PT`; digits after the last letter are ignored; none when the total does
/// not fit in 32 bits.
pub open spec fn youtube_duration(s: Seq<char>) -> Option<u32> {
    if s.len() >= 2 && s[0] == 'P' && s[1] == 'T' {
        let t = duration_state(s.skip(2)).0;
        if t <= u32::MAX { Some(t as u32) } else { None }
    } else {
        None
    }
}

/// Reads an ISO 8601 duration in seconds.
pub fn parse_youtube_duration(duration: &str) -> (r: Option<u32>)
    ensures
        r == youtube_duration(duration@),
{
    let v = chars_of(duration);
    if !(v.len() >= 2 && v[0] == 'P' && v[1] == 'T') {
        return None;
    }
    let ghost rest = v@.skip(2);
    let mut total: u64 = 0;
    let mut run: Vec<char> = Vec::new();
    let mut i: usize = 2;
    assert(rest.take(0) =~= Seq::<char>::empty());
    while i < v.len()
        invariant
            2 <= i <= v@.len(),
            rest == v@.skip(2),
            v@ == duration@,
            run@ == duration_state(rest.take(i - 2)).1,
            total == (if duration_state(rest.take(i - 2)).0 <= u32::MAX {
                duration_state(rest.take(i - 2)).0
            } else {
                u32::MAX as nat + 1
            }),
        decreases v@.len() - i,
    {
        let c = v[i];
        assert(rest.take(i - 1).drop_last() =~= rest.take(i - 2));
        assert(rest.take(i - 1).last() == c);
        if '0' <= c && c <= '9' {
            run.push(c);
        } else {
            let unit: u64 = if c == 'H' { 3600 } else if c == 'M' { 60 } else if c == 'S' { 1 } else { 0 };
            let n = crate::lyrics::parse_u32_chars(&run);
            proof {
                assert(crate::lyrics::unsigned_part(run@) == run@ || !is_digit(run@[0]));
                if run@.len() > 0 {
                    assert(is_digit(run@[0])) by {
                        lemma_run_digits(rest.take(i - 2));
                    }
                }
                assert(crate::lyrics::parse_u32(run@) == digits_u32(run@));
            }
            let add: u64 = match n {
                Some(x) => (x as u64) * unit,
                None => 0,
            };
            total = if total + add > 0xffff_ffff { 0x1_0000_0000 } else { total + add };
            run = Vec::new();
            assert(run@ =~= Seq::<char>::empty());
        }
        i = i + 1;
    }
    assert(rest.take(i - 2) =~= rest);
    if total <= 0xffff_ffff {
        Some(total as u32)
    } else {
        None
    }
}

proof fn lemma_run_digits(s: Seq<char>)
    ensures
        forall|k: int| 0 <= k < duration_state(s).1.len() ==> is_digit(#[trigger] duration_state(s).1[k]),
    decreases s.len(),
{
    if s.len() > 0 {
        lemma_run_digits(s.drop_last());
        let prev = duration_state(s.drop_last());
        let now = duration_state(s);
        if is_digit(s.last()) {
            assert forall|k: int| 0 <= k < now.1.len() implies is_digit(#[trigger] now.1[k]) by {
                if k < prev.1.len() {
                    assert(now.1[k] == prev.1[k]);
                }
            }
        }
    }
}

/// What `url::Url::parse` makes of a string: none when it does not parse,
/// else the scheme and the host, if the address has one.
pub uninterp spec fn url_parts(s: Seq<char>) -> Option<(Seq<char>, Option<Seq<char>>)>;

/// Relies on `url::Url::parse`, with `Url::scheme` and `Url::host_str` read
/// from what it returns.
#[verifier::external_body]
fn parse_url(s: &str) -> (r: Option<(String, Option<String>)>)
    ensures
        match url_parts(s@) {
            Some(p) => r matches Some(x) && x.0@ == p.0 && match p.1 {
                Some(h) => x.1 matches Some(y) && y@ == h,
                None => x.1 is None,
            },
            None => r is None,
        },
{
    url::Url::parse(s).ok().map(|u| (u.scheme().to_string(), u.host_str().map(|h| h.to_string())))
}

/// The host of an address, when it parses and has one.
pub open spec fn url_host(s: Seq<char>) -> Option<Seq<char>> {
    match url_parts(s) {
        Some(p) => p.1,
        None => None,
    }
}

/// The host of an address contains `part`.
pub open spec fn host_has(s: Seq<char>, part: Seq<char>) -> bool {
    match url_host(s) {
        Some(h) => contains_seq(h, part),
        None => false,
    }
}

fn host_contains(url: &str, part: &str) -> (r: bool)
    ensures
        r == host_has(url@, part@),
{
    match Utils::extract_domain(url) {
        Some(h) => {
            let hv = chars_of(h.as_str());
            let pv = chars_of(part);
            contains_chars(&hv, &pv)
        },
        None => false,
    }
}

impl Utils {
    /// Whether the text parses as an address.
    pub fn is_valid_url(url: &str) -> (r: bool)
        ensures
            r == url_parts(url@) is Some,
    {
        parse_url(url).is_some()
    }

    /// The host of an address.
    pub fn extract_domain(url: &str) -> (r: Option<String>)
        ensures
            match url_host(url@) {
                Some(h) => r matches Some(x) && x@ == h,
                None => r is None,
            },
    {
        match parse_url(url) {
            Some((_, host)) => host,
            None => None,
        }
    }

    /// Whether the address parses with the `https` scheme.
    pub fn is_https(url: &str) -> (r: bool)
        ensures
            r == (url_parts(url@) matches Some(p) && p.0 == "https"@),
    {
        match parse_url(url) {
            Some((scheme, _)) => scheme == String::from_str("https"),
            None => false,
        }
    }

    /// An address on the music service.
    pub fn is_spotify_url(url: &str) -> (r: bool)
        ensures
            r == host_has(url@, "spotify.com"@),
    {
        host_contains(url, "spotify.com")
    }

    /// An address on the primary video platform, long or short form.
    pub fn is_youtube_url(url: &str) -> (r: bool)
        ensures
            r == (host_has(url@, "youtube.com"@) || host_has(url@, "youtu.be"@)),
    {
        host_contains(url, "youtube.com") || host_contains(url, "youtu.be")
    }

    /// An address on the secondary platform.
    pub fn is_soundcloud_url(url: &str) -> (r: bool)
        ensures
            r == host_has(url@, "soundcloud.com"@),
    {
        host_contains(url, "soundcloud.com")
    }
}

/// What `md5::compute` gives for some bytes, written as lowercase hex.
pub uninterp spec fn md5_hex(data: Seq<u8>) -> Seq<char>;

/// Relies on `md5::compute` and the digest's `LowerHex` form: 16 bytes as 32
/// lowercase hex digits.
#[verifier::external_body]
fn md5_hex_digest(data: &[u8]) -> (r: String)
    ensures
        r@ == md5_hex(data@),
        r@.len() == 32,
{
    format!("{:x}", md5::compute(data))
}

impl Utils {
    /// The MD5 digest of file contents, in lowercase hex.
    pub fn content_hash(data: &Vec<u8>) -> (r: String)
        ensures
            r@ == md5_hex(data@),
            r@.len() == 32,
    {
        md5_hex_digest(data.as_slice())
    }
}

} // verus!
