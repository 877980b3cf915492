//! Lyrics: the synced and plain forms, the LRC text format, and the order
//! in which lyric sources and queries are tried.
use vstd::prelude::*;
use crate::errors::SpotifyDownloaderError;
use crate::text::{
    chars_of, decimal, decimal_chars, digit_char, extend_chars, extend_pad2, extend_str, is_white,
    pad2, string_of, trim_chars, trimmed, trim_end, trim_start, trim_start_chars, trim_end_chars,
    matches_at, occurs_at,
};

verus! {

/// One line of synced lyrics.
#[derive(Debug, Clone)]
pub struct LyricsLine {
    /// Milliseconds from the start.
    pub timestamp: u32,
    pub text: String,
}

/// Lyrics with a time for each line.
#[derive(Debug, Clone)]
pub struct SyncedLyrics {
    pub lines: Vec<LyricsLine>,
    /// Global shift in milliseconds.
    pub offset: i32,
    pub source: String,
}

/// Lyrics as plain text.
#[derive(Debug, Clone)]
pub struct UnsyncedLyrics {
    pub text: String,
    pub source: String,
}

/// What the lyric sources gave for a track, and where it was saved.
#[derive(Debug, Clone)]
pub struct LyricsResult {
    pub synced: Option<SyncedLyrics>,
    pub unsynced: Option<UnsyncedLyrics>,
    pub synced_path: Option<String>,
    pub unsynced_path: Option<String>,
}

/// A line as time and text.
pub open spec fn line_view(l: LyricsLine) -> (u32, Seq<char>) {
    (l.timestamp, l.text@)
}

/// `[mm:ss.cc]text` and a line break, for a time in milliseconds.
pub open spec fn lrc_line(t: u32, text: Seq<char>) -> Seq<char> {
    "["@ + pad2((t / 60000) as nat) + ":"@ + pad2(((t % 60000) / 1000) as nat) + "."@ + pad2(
        ((t % 1000) / 10) as nat,
    ) + "]"@ + text + "\n"@
}

/// The LRC lines of `lines`, in order.
pub open spec fn lrc_body(lines: Seq<LyricsLine>) -> Seq<char>
    decreases lines.len(),
{
    if lines.len() == 0 {
        Seq::empty()
    } else {
        lrc_line(lines[0].timestamp, lines[0].text@) + lrc_body(lines.drop_first())
    }
}

/// A signed decimal.
pub open spec fn signed_decimal(x: int) -> Seq<char> {
    if x < 0 { "-"@ + decimal((-x) as nat) } else { decimal(x as nat) }
}

/// The LRC text of synced lyrics: an `[offset:ms]` line first when the
/// offset is not zero, then one line per lyric line.
pub open spec fn lrc_text(l: SyncedLyrics) -> Seq<char> {
    if l.offset != 0 {
        "[offset:"@ + signed_decimal(l.offset as int) + "]\n"@ + lrc_body(l.lines@)
    } else {
        lrc_body(l.lines@)
    }
}

proof fn lemma_body_push(lines: Seq<LyricsLine>, x: LyricsLine)
    ensures
        lrc_body(lines.push(x)) == lrc_body(lines) + lrc_line(x.timestamp, x.text@),
    decreases lines.len(),
{
    if lines.len() == 0 {
        assert(lines.push(x).drop_first() =~= Seq::<LyricsLine>::empty());
        assert(lrc_body(Seq::<LyricsLine>::empty()) =~= Seq::<char>::empty());
        assert(lrc_body(lines.push(x)) =~= lrc_line(x.timestamp, x.text@));
    } else {
        lemma_body_push(lines.drop_first(), x);
        assert(lines.push(x).drop_first() =~= lines.drop_first().push(x));
        assert(lrc_body(lines.push(x)) =~= lrc_body(lines) + lrc_line(x.timestamp, x.text@));
    }
}

fn push_lrc_line(v: &mut Vec<char>, t: u32, text: &str)
    ensures
        final(v)@ == old(v)@ + lrc_line(t, text@),
{
    extend_str(v, "[");
    extend_pad2(v, (t / 60000) as u64);
    extend_str(v, ":");
    extend_pad2(v, ((t % 60000) / 1000) as u64);
    extend_str(v, ".");
    extend_pad2(v, ((t % 1000) / 10) as u64);
    extend_str(v, "]");
    extend_str(v, text);
    extend_str(v, "\n");
    assert(final(v)@ =~= old(v)@ + lrc_line(t, text@));
}

/// The LRC text of synced lyrics.
pub fn convert_to_lrc(lyrics: &SyncedLyrics) -> (r: String)
    ensures
        r@ == lrc_text(*lyrics),
{
    let mut v: Vec<char> = Vec::new();
    if lyrics.offset != 0 {
        extend_str(&mut v, "[offset:");
        if lyrics.offset < 0 {
            extend_str(&mut v, "-");
            let magnitude: u64 = (0 - (lyrics.offset as i64)) as u64;
            let d = decimal_chars(magnitude);
            extend_chars(&mut v, &d);
        } else {
            let d = decimal_chars(lyrics.offset as u64);
            extend_chars(&mut v, &d);
        }
        extend_str(&mut v, "]\n");
    }
    let ghost head = v@;
    let mut i: usize = 0;
    assert(lyrics.lines@.take(0) =~= Seq::<LyricsLine>::empty());
    while i < lyrics.lines.len()
        invariant
            i <= lyrics.lines@.len(),
            v@ == head + lrc_body(lyrics.lines@.take(i as int)),
        decreases lyrics.lines@.len() - i,
    {
        let line = &lyrics.lines[i];
        push_lrc_line(&mut v, line.timestamp, line.text.as_str());
        proof {
            lemma_body_push(lyrics.lines@.take(i as int), lyrics.lines@[i as int]);
            assert(lyrics.lines@.take(i + 1) =~= lyrics.lines@.take(i as int).push(lyrics.lines@[i as int]));
        }
        i = i + 1;
    }
    assert(lyrics.lines@.take(i as int) =~= lyrics.lines@);
    assert(v@ =~= lrc_text(*lyrics));
    string_of(&v)
}

/// Index of the first `c` in `s`, or `s.len()` when there is none.
pub open spec fn first_index(s: Seq<char>, c: char) -> int
    decreases s.len(),
{
    if s.len() == 0 {
        0
    } else if s[0] == c {
        0
    } else {
        1 + first_index(s.drop_first(), c)
    }
}

proof fn lemma_first_index(s: Seq<char>, c: char, k: int)
    requires
        0 <= k <= s.len(),
        forall|i: int| 0 <= i < k ==> s[i] != c,
        k == s.len() || s[k] == c,
    ensures
        first_index(s, c) == k,
    decreases k,
{
    if k > 0 {
        lemma_first_index(s.drop_first(), c, k - 1);
    }
}

proof fn lemma_first_index_bounds(s: Seq<char>, c: char)
    ensures
        0 <= first_index(s, c) <= s.len(),
        forall|i: int| 0 <= i < first_index(s, c) ==> s[i] != c,
        first_index(s, c) < s.len() ==> s[first_index(s, c)] == c,
    decreases s.len(),
{
    if s.len() > 0 && s[0] != c {
        lemma_first_index_bounds(s.drop_first(), c);
        assert forall|i: int| 0 <= i < first_index(s, c) implies s[i] != c by {
            if i > 0 {
                assert(s[i] == s.drop_first()[i - 1]);
            }
        }
    }
}

/// The lines of a text, split at each line feed; a final line feed ends the
/// last line rather than starting an empty one.
pub open spec fn split_lines(s: Seq<char>) -> Seq<Seq<char>>
    decreases s.len(),
{
    if s.len() == 0 {
        seq![]
    } else {
        let e = first_index(s, '\n');
        if e < 0 || e >= s.len() {
            seq![s]
        } else {
            seq![s.take(e)] + split_lines(s.skip(e + 1))
        }
    }
}

/// An ASCII digit.
pub open spec fn is_digit(c: char) -> bool {
    '0' <= c && c <= '9'
}

/// The value of an ASCII digit.
pub open spec fn digit_value(c: char) -> nat {
    if c == '1' { 1 }
    else if c == '2' { 2 }
    else if c == '3' { 3 }
    else if c == '4' { 4 }
    else if c == '5' { 5 }
    else if c == '6' { 6 }
    else if c == '7' { 7 }
    else if c == '8' { 8 }
    else if c == '9' { 9 }
    else { 0 }
}

/// The number an all-digit string writes.
pub open spec fn digits_value(s: Seq<char>) -> nat
    decreases s.len(),
{
    if s.len() == 0 {
        0
    } else {
        digits_value(s.drop_last()) * 10 + digit_value(s.last())
    }
}

/// Every character is an ASCII digit.
pub open spec fn all_digits(d: Seq<char>) -> bool {
    forall|i: int| 0 <= i < d.len() ==> is_digit(#[trigger] d[i])
}

/// The value of one or more ASCII digits, when it fits in 32 bits.
pub open spec fn digits_u32(d: Seq<char>) -> Option<u32> {
    if d.len() == 0 || !all_digits(d) || digits_value(d) > u32::MAX {
        None
    } else {
        Some(digits_value(d) as u32)
    }
}

/// A numeral without its leading `+`, if it has one.
pub open spec fn unsigned_part(s: Seq<char>) -> Seq<char> {
    if s.len() > 0 && s[0] == '+' { s.drop_first() } else { s }
}

/// What `str::parse::<u32>` accepts: an optional `+`, then one or more ASCII
/// digits whose value fits in 32 bits.
pub open spec fn parse_u32(s: Seq<char>) -> Option<u32> {
    digits_u32(unsigned_part(s))
}

/// An LRC time `m:s[.c]` in milliseconds: exactly one `:`, the seconds part
/// cut at its first `.`, hundredths between that dot and the next (zero when
/// absent); none when a part does not read as a number or the total does
/// not fit in 32 bits.
pub open spec fn parse_timestamp(ts: Seq<char>) -> Option<u32> {
    let c = first_index(ts, ':');
    if c >= ts.len() {
        None
    } else {
        let mins = ts.take(c);
        let rest = ts.skip(c + 1);
        if first_index(rest, ':') < rest.len() {
            None
        } else {
            let d = first_index(rest, '.');
            let secs = rest.take(d);
            let cs = if d >= rest.len() {
                "0"@
            } else {
                let after = rest.skip(d + 1);
                after.take(first_index(after, '.'))
            };
            match (parse_u32(mins), parse_u32(secs), parse_u32(cs)) {
                (Some(m), Some(s), Some(h)) => {
                    let total = m * 60000 + s * 1000 + h * 10;
                    if total > u32::MAX {
                        None
                    } else {
                        Some(total as u32)
                    }
                },
                _ => None,
            }
        }
    }
}

/// One LRC line as time and text: the trimmed line is `[time]text` with a
/// time that reads; anything else gives nothing.
pub open spec fn parse_lrc_line(line: Seq<char>) -> Option<(u32, Seq<char>)> {
    let t = trimmed(line);
    let k = first_index(t, ']');
    if t.len() == 0 || k >= t.len() || k == 0 {
        None
    } else {
        match parse_timestamp(t.subrange(1, k)) {
            Some(ms) => Some((ms, t.skip(k + 1))),
            None => None,
        }
    }
}

/// The lines of an LRC text that read, in order.
pub open spec fn parsed_lines(lines: Seq<Seq<char>>) -> Seq<(u32, Seq<char>)>
    decreases lines.len(),
{
    if lines.len() == 0 {
        seq![]
    } else {
        match parse_lrc_line(lines[0]) {
            Some(p) => seq![p] + parsed_lines(lines.drop_first()),
            None => parsed_lines(lines.drop_first()),
        }
    }
}

/// The timed lines of an LRC text.
pub open spec fn lrc_parsed(content: Seq<char>) -> Seq<(u32, Seq<char>)> {
    parsed_lines(split_lines(content))
}

fn copy_range(v: &Vec<char>, from: usize, to: usize) -> (r: Vec<char>)
    requires
        from <= to <= v@.len(),
    ensures
        r@ == v@.subrange(from as int, to as int),
{
    let mut out: Vec<char> = Vec::new();
    let mut i: usize = from;
    while i < to
        invariant
            from <= i <= to <= v@.len(),
            out@ == v@.subrange(from as int, i as int),
        decreases to - i,
    {
        out.push(v[i]);
        i = i + 1;
        assert(out@ =~= v@.subrange(from as int, i as int));
    }
    out
}

fn find_first(v: &Vec<char>, c: char) -> (r: usize)
    ensures
        r as int == first_index(v@, c),
{
    let mut i: usize = 0;
    while i < v.len() && v[i] != c
        invariant
            i <= v@.len(),
            forall|k: int| 0 <= k < i ==> v@[k] != c,
        decreases v@.len() - i,
    {
        i = i + 1;
    }
    proof {
        lemma_first_index(v@, c, i as int);
    }
    i
}

fn digits_to_u32(d: &Vec<char>) -> (r: Option<u32>)
    ensures
        r == digits_u32(d@),
{
    if d.len() == 0 {
        return None;
    }
    let mut value: u64 = 0;
    let mut i: usize = 0;
    assert(d@.take(0) =~= Seq::<char>::empty());
    while i < d.len()
        invariant
            i <= d@.len(),
            d@.len() > 0,
            forall|k: int| 0 <= k < i ==> is_digit(#[trigger] d@[k]),
            value == digits_value(d@.take(i as int)),
            value <= u32::MAX,
        decreases d@.len() - i,
    {
        let c = d[i];
        if !('0' <= c && c <= '9') {
            assert(!is_digit(d@[i as int]));
            assert(!all_digits(d@));
            return None;
        }
        let dv: u64 = if c == '1' { 1 } else if c == '2' { 2 } else if c == '3' { 3 } else if c
            == '4' { 4 } else if c == '5' { 5 } else if c == '6' { 6 } else if c == '7' { 7 } else if c
            == '8' { 8 } else if c == '9' { 9 } else { 0 };
        assert(d@.take(i + 1).drop_last() =~= d@.take(i as int));
        assert(d@.take(i + 1).last() == c);
        assert(digit_value(c) == dv);
        let next = value * 10 + dv;
        if next > 0xffff_ffff {
            proof {
                lemma_digits_prefix_grows(d@, i + 1);
            }
            return None;
        }
        value = next;
        i = i + 1;
    }
    assert(d@.take(i as int) =~= d@);
    Some(value as u32)
}

/// Reads a number as `str::parse::<u32>` does.
pub fn parse_u32_chars(s: &Vec<char>) -> (r: Option<u32>)
    ensures
        r == parse_u32(s@),
{
    if s.len() > 0 && s[0] == '+' {
        let d = copy_range(s, 1, s.len());
        assert(d@ =~= s@.drop_first());
        digits_to_u32(&d)
    } else {
        digits_to_u32(s)
    }
}

proof fn lemma_digits_prefix_grows(d: Seq<char>, n: int)
    requires
        0 <= n <= d.len(),
    ensures
        digits_value(d.take(n)) <= digits_value(d),
    decreases d.len() - n,
{
    if n < d.len() {
        lemma_digits_prefix_grows(d, n + 1);
        assert(d.take(n + 1).drop_last() =~= d.take(n));
        assert(digits_value(d.take(n + 1)) == digits_value(d.take(n)) * 10 + digit_value(d[n]));
    } else {
        assert(d.take(n) =~= d);
    }
}

/// Reads an LRC time.
pub fn parse_timestamp_chars(ts: &Vec<char>) -> (r: Option<u32>)
    ensures
        r == parse_timestamp(ts@),
{
    let c = find_first(ts, ':');
    if c >= ts.len() {
        return None;
    }
    proof {
        lemma_first_index_bounds(ts@, ':');
    }
    let mins = copy_range(ts, 0, c);
    let rest = copy_range(ts, c + 1, ts.len());
    assert(mins@ =~= ts@.take(c as int));
    assert(rest@ =~= ts@.skip(c + 1));
    if find_first(&rest, ':') < rest.len() {
        return None;
    }
    let d = find_first(&rest, '.');
    proof {
        lemma_first_index_bounds(rest@, '.');
    }
    let secs = copy_range(&rest, 0, d);
    assert(secs@ =~= rest@.take(d as int));
    let cs = if d >= rest.len() {
        proof {
            reveal_strlit("0");
        }
        chars_of("0")
    } else {
        let after = copy_range(&rest, d + 1, rest.len());
        assert(after@ =~= rest@.skip(d + 1));
        let e = find_first(&after, '.');
        proof {
            lemma_first_index_bounds(after@, '.');
        }
        let part = copy_range(&after, 0, e);
        assert(part@ =~= after@.take(e as int));
        part
    };
    match (parse_u32_chars(&mins), parse_u32_chars(&secs), parse_u32_chars(&cs)) {
        (Some(m), Some(s), Some(h)) => {
            let total: u64 = (m as u64) * 60000 + (s as u64) * 1000 + (h as u64) * 10;
            if total > 0xffff_ffff {
                None
            } else {
                Some(total as u32)
            }
        },
        _ => None,
    }
}

/// Reads one LRC line.
pub fn parse_lrc_line_chars(line: &Vec<char>) -> (r: Option<(u32, Vec<char>)>)
    ensures
        match parse_lrc_line(line@) {
            Some(p) => r matches Some(x) && x.0 == p.0 && x.1@ == p.1,
            None => r is None,
        },
{
    let t = trim_chars(line);
    if t.len() == 0 {
        return None;
    }
    let k = find_first(&t, ']');
    if k >= t.len() || k == 0 {
        return None;
    }
    let ts = copy_range(&t, 1, k);
    match parse_timestamp_chars(&ts) {
        Some(ms) => {
            let text = copy_range(&t, k + 1, t.len());
            assert(text@ =~= t@.skip(k + 1));
            Some((ms, text))
        },
        None => None,
    }
}

/// Reads the timed lines of an LRC text; a text with none is an error.
pub fn parse_lrc_content(content: &str) -> (r: Result<Vec<LyricsLine>, SpotifyDownloaderError>)
    ensures
        match r {
            Ok(v) => v@.map_values(|l: LyricsLine| line_view(l)) == lrc_parsed(content@)
                && v@.len() > 0,
            Err(e) => lrc_parsed(content@).len() == 0 && e matches SpotifyDownloaderError::Lyrics(_),
        },
{
    let s = chars_of(content);
    let mut out: Vec<LyricsLine> = Vec::new();
    let mut i: usize = 0;
    assert(s@.skip(0) =~= s@);
    while i < s.len()
        invariant
            i <= s@.len(),
            s@ == content@,
            out@.map_values(|l: LyricsLine| line_view(l)) + lrc_parsed(s@.skip(i as int))
                == lrc_parsed(s@),
        decreases s@.len() - i,
    {
        let ghost rest = s@.skip(i as int);
        let mut j: usize = i;
        while j < s.len() && s[j] != '\n'
            invariant
                i <= j <= s@.len(),
                forall|k: int| i <= k < j ==> s@[k] != '\n',
            decreases s@.len() - j,
        {
            j = j + 1;
        }
        proof {
            assert forall|k: int| 0 <= k < j - i implies rest[k] != '\n' by {
                assert(rest[k] == s@[i + k]);
            }
            lemma_first_index(rest, '\n', j - i);
        }
        let line = copy_range(&s, i, j);
        assert(line@ =~= rest.take(j - i));
        let ghost before = out@;
        match parse_lrc_line_chars(&line) {
            Some((ms, text)) => {
                out.push(LyricsLine { timestamp: ms, text: string_of(&text) });
                assert(out@.map_values(|l: LyricsLine| line_view(l)) =~= before.map_values(
                    |l: LyricsLine| line_view(l),
                ).push((ms, text@)));
            },
            None => {},
        }
        if j >= s.len() {
            assert(split_lines(rest) == seq![rest]);
            assert(rest.take(j - i) =~= rest);
            assert(s@.skip(j as int) =~= Seq::<char>::empty());
            assert(split_lines(s@.skip(j as int)) =~= Seq::<Seq<char>>::empty());
            let ghost single: Seq<Seq<char>> = seq![rest];
            assert(single.drop_first() =~= Seq::<Seq<char>>::empty());
            i = j;
        } else {
            assert(rest.skip(j - i + 1) =~= s@.skip(j + 1));
            assert((seq![rest.take(j - i)] + split_lines(rest.skip(j - i + 1))).drop_first()
                =~= split_lines(s@.skip(j + 1)));
            i = j + 1;
        }
    }
    assert(s@.skip(i as int) =~= Seq::<char>::empty());
    if out.len() == 0 {
        return Err(SpotifyDownloaderError::Lyrics(String::from_str("No valid LRC lines found")));
    }
    Ok(out)
}

/// Plain text of synced lyrics: the texts of the lines, one per line.
pub open spec fn joined_texts(lines: Seq<LyricsLine>) -> Seq<char>
    decreases lines.len(),
{
    if lines.len() == 0 {
        Seq::empty()
    } else if lines.len() == 1 {
        lines[0].text@
    } else {
        joined_texts(lines.drop_last()) + "\n"@ + lines.last().text@
    }
}

/// The texts of synced lyrics joined with line feeds.
pub fn synced_to_text(lyrics: &SyncedLyrics) -> (r: String)
    ensures
        r@ == joined_texts(lyrics.lines@),
{
    let mut v: Vec<char> = Vec::new();
    let mut i: usize = 0;
    while i < lyrics.lines.len()
        invariant
            i <= lyrics.lines@.len(),
            v@ == joined_texts(lyrics.lines@.take(i as int)),
        decreases lyrics.lines@.len() - i,
    {
        assert(lyrics.lines@.take(i + 1).drop_last() =~= lyrics.lines@.take(i as int));
        if i > 0 {
            extend_str(&mut v, "\n");
        }
        extend_str(&mut v, lyrics.lines[i].text.as_str());
        i = i + 1;
        proof {
            if i == 1 {
                assert(lyrics.lines@.take(1)[0] == lyrics.lines@[0]);
            }
        }
    }
    assert(lyrics.lines@.take(i as int) =~= lyrics.lines@);
    string_of(&v)
}

proof fn lemma_digit_char(d: nat)
    requires
        d < 10,
    ensures
        is_digit(digit_char(d)),
        digit_value(digit_char(d)) == d,
{
}

proof fn lemma_decimal_digits(n: nat)
    ensures
        decimal(n).len() > 0,
        all_digits(decimal(n)),
        digits_value(decimal(n)) == n,
    decreases n,
{
    if n < 10 {
        lemma_digit_char(n);
        let s = decimal(n);
        assert(s.drop_last() =~= Seq::<char>::empty());
        assert(digits_value(s.drop_last()) == 0);
        assert(s.last() == digit_char(n));
    } else {
        lemma_decimal_digits(n / 10);
        lemma_digit_char(n % 10);
        let s = decimal(n);
        assert(s.drop_last() =~= decimal(n / 10));
        assert(s.last() == digit_char(n % 10));
        assert(digits_value(s) == (n / 10) * 10 + n % 10);
        assert(all_digits(s)) by {
            assert forall|i: int| 0 <= i < s.len() implies is_digit(#[trigger] s[i]) by {
                if i < s.len() - 1 {
                    assert(s[i] == decimal(n / 10)[i]);
                }
            }
        }
    }
}

proof fn lemma_pad2_digits(n: nat)
    ensures
        pad2(n).len() > 0,
        all_digits(pad2(n)),
        digits_value(pad2(n)) == n,
{
    if n < 10 {
        lemma_digit_char(n);
        let s = pad2(n);
        assert(s.drop_last() =~= seq!['0']);
        let z: Seq<char> = seq!['0'];
        assert(z.drop_last() =~= Seq::<char>::empty());
        assert(digits_value(z.drop_last()) == 0);
        assert(z.last() == '0');
        assert(digits_value(z) == 0);
        assert(s.last() == digit_char(n));
    } else {
        lemma_decimal_digits(n);
    }
}

/// A time with its last digit of milliseconds dropped: what an LRC line keeps.
pub open spec fn centis(t: u32) -> u32 {
    (t - t % 10) as u32
}

/// A text that comes back unchanged from an LRC line: no line feed in it,
/// and no whitespace at its end.
pub open spec fn round_trips(text: Seq<char>) -> bool {
    &&& forall|i: int| 0 <= i < text.len() ==> text[i] != '\n'
    &&& (text.len() == 0 || !is_white(text.last()))
}

/// The time part of an LRC line.
pub open spec fn lrc_stamp(t: u32) -> Seq<char> {
    pad2((t / 60000) as nat) + ":"@ + pad2(((t % 60000) / 1000) as nat) + "."@ + pad2(
        ((t % 1000) / 10) as nat,
    )
}

proof fn lemma_first_after(a: Seq<char>, sep: char, b: Seq<char>, c: char)
    requires
        all_digits(a),
        !is_digit(sep),
        sep == c,
    ensures
        first_index(a + seq![sep] + b, c) == a.len(),
{
    let s = a + seq![sep] + b;
    assert forall|i: int| 0 <= i < a.len() implies s[i] != c by {
        assert(s[i] == a[i]);
        assert(is_digit(a[i]));
    }
    assert(s[a.len() as int] == sep);
    lemma_first_index(s, c, a.len() as int);
}

proof fn lemma_none_of(a: Seq<char>, c: char)
    requires
        all_digits(a),
        !is_digit(c),
    ensures
        first_index(a, c) == a.len(),
{
    assert forall|i: int| 0 <= i < a.len() implies a[i] != c by {
        assert(is_digit(a[i]));
    }
    lemma_first_index(a, c, a.len() as int);
}

proof fn lemma_parse_digits(a: Seq<char>)
    requires
        a.len() > 0,
        all_digits(a),
        digits_value(a) <= u32::MAX,
    ensures
        parse_u32(a) == Some(digits_value(a) as u32),
{
    assert(is_digit(a[0]));
    assert(unsigned_part(a) == a);
}

proof fn lemma_stamp_parses(t: u32)
    ensures
        parse_timestamp(lrc_stamp(t)) == Some(centis(t)),
        forall|i: int| 0 <= i < lrc_stamp(t).len() ==> {
            let c = #[trigger] lrc_stamp(t)[i];
            c != ']' && c != '\n' && c != '[' && !is_white(c)
        },
{
    let m = (t / 60000) as nat;
    let s = ((t % 60000) / 1000) as nat;
    let h = ((t % 1000) / 10) as nat;
    let a = pad2(m);
    let b = pad2(s);
    let c = pad2(h);
    lemma_pad2_digits(m);
    lemma_pad2_digits(s);
    lemma_pad2_digits(h);
    reveal_strlit(":");
    reveal_strlit(".");
    let ts = lrc_stamp(t);
    assert(ts =~= a + seq![':'] + (b + seq!['.'] + c));
    lemma_first_after(a, ':', b + seq!['.'] + c, ':');
    let rest = ts.skip(a.len() as int + 1);
    assert(ts.take(a.len() as int) =~= a);
    assert(rest =~= b + seq!['.'] + c);
    assert forall|i: int| 0 <= i < rest.len() implies rest[i] != ':' by {
        if i < b.len() {
            assert(rest[i] == b[i] && is_digit(b[i]));
        } else if i > b.len() {
            assert(rest[i] == c[i - b.len() - 1] && is_digit(c[i - b.len() - 1]));
        }
    }
    lemma_first_index(rest, ':', rest.len() as int);
    lemma_first_after(b, '.', c, '.');
    assert(rest.take(b.len() as int) =~= b);
    let after = rest.skip(b.len() as int + 1);
    assert(after =~= c);
    lemma_none_of(c, '.');
    assert(after.take(c.len() as int) =~= c);
    lemma_parse_digits(a);
    lemma_parse_digits(b);
    lemma_parse_digits(c);
    assert(m * 60000 + s * 1000 + h * 10 == t - t % 10) by (nonlinear_arith)
        requires
            m == t / 60000,
            s == (t % 60000) / 1000,
            h == (t % 1000) / 10,
            0 <= t,
    {
    }
    lemma_stamp_chars(t);
}

proof fn lemma_stamp_chars(t: u32)
    ensures
        forall|i: int| 0 <= i < lrc_stamp(t).len() ==> {
            let c = #[trigger] lrc_stamp(t)[i];
            c != ']' && c != '\n' && c != '[' && !is_white(c)
        },
{
    let a = pad2((t / 60000) as nat);
    let b = pad2(((t % 60000) / 1000) as nat);
    let c = pad2(((t % 1000) / 10) as nat);
    lemma_pad2_digits((t / 60000) as nat);
    lemma_pad2_digits(((t % 60000) / 1000) as nat);
    lemma_pad2_digits(((t % 1000) / 10) as nat);
    reveal_strlit(":");
    reveal_strlit(".");
    let ts = lrc_stamp(t);
    assert(ts =~= a + seq![':'] + b + seq!['.'] + c);
    assert forall|i: int| 0 <= i < ts.len() implies {
        let ch = #[trigger] ts[i];
        ch != ']' && ch != '\n' && ch != '[' && !is_white(ch)
    } by {
        if i < a.len() {
            assert(ts[i] == a[i] && is_digit(a[i]));
        } else if i == a.len() {
        } else if i < a.len() + 1 + b.len() {
            assert(ts[i] == b[i - a.len() - 1] && is_digit(b[i - a.len() - 1]));
        } else if i == a.len() + 1 + b.len() {
        } else {
            assert(ts[i] == c[i - a.len() - 2 - b.len()] && is_digit(c[i - a.len() - 2 - b.len()]));
        }
    }
}

proof fn lemma_line_parses(t: u32, x: Seq<char>)
    requires
        round_trips(x),
    ensures
        parse_lrc_line(seq!['['] + lrc_stamp(t) + seq![']'] + x) == Some((centis(t), x)),
        forall|i: int|
            0 <= i < (seq!['['] + lrc_stamp(t) + seq![']'] + x).len() ==> #[trigger] (seq!['[']
                + lrc_stamp(t) + seq![']'] + x)[i] != '\n',
{
    let ts = lrc_stamp(t);
    let l = seq!['['] + ts + seq![']'] + x;
    lemma_stamp_parses(t);
    assert(l[0] == '[');
    assert(!is_white('['));
    assert(trim_start(l) == l);
    if x.len() == 0 {
        assert(l.last() == ']');
    } else {
        assert(l.last() == x.last());
    }
    assert(trim_end(l) == l);
    let k: int = 1 + ts.len() as int;
    assert forall|i: int| 0 <= i < k implies l[i] != ']' by {
        if i > 0 {
            assert(l[i] == ts[i - 1]);
        }
    }
    assert(l[k] == ']');
    lemma_first_index(l, ']', k);
    assert(l.subrange(1, k) =~= ts);
    assert(l.skip(k + 1) =~= x);
    assert forall|i: int| 0 <= i < l.len() implies #[trigger] l[i] != '\n' by {
        if 0 < i < k {
            assert(l[i] == ts[i - 1]);
        } else if i > k {
            assert(l[i] == x[i - k - 1]);
        }
    }
}

proof fn lemma_split_first(l: Seq<char>, rest: Seq<char>)
    requires
        forall|i: int| 0 <= i < l.len() ==> #[trigger] l[i] != '\n',
    ensures
        split_lines(l + seq!['\n'] + rest) == seq![l] + split_lines(rest),
{
    let s = l + seq!['\n'] + rest;
    assert forall|i: int| 0 <= i < l.len() implies s[i] != '\n' by {
        assert(s[i] == l[i]);
    }
    assert(s[l.len() as int] == '\n');
    lemma_first_index(s, '\n', l.len() as int);
    assert(s.take(l.len() as int) =~= l);
    assert(s.skip(l.len() as int + 1) =~= rest);
}

/// Each line as its time, to the hundredth of a second, and its text.
pub open spec fn kept_lines(lines: Seq<LyricsLine>) -> Seq<(u32, Seq<char>)> {
    lines.map_values(|l: LyricsLine| (centis(l.timestamp), l.text@))
}

proof fn lemma_body_round_trip(lines: Seq<LyricsLine>)
    requires
        forall|i: int| 0 <= i < lines.len() ==> round_trips(#[trigger] lines[i].text@),
    ensures
        lrc_parsed(lrc_body(lines)) == kept_lines(lines),
    decreases lines.len(),
{
    if lines.len() == 0 {
        assert(lrc_body(lines) =~= Seq::<char>::empty());
        assert(kept_lines(lines) =~= Seq::<(u32, Seq<char>)>::empty());
    } else {
        let first = lines[0];
        let rest = lines.drop_first();
        assert forall|i: int| 0 <= i < rest.len() implies round_trips(#[trigger] rest[i].text@) by {
            assert(rest[i] == lines[i + 1]);
        }
        lemma_body_round_trip(rest);
        assert(round_trips(lines[0].text@));
        lemma_line_parses(first.timestamp, first.text@);
        let l = seq!['['] + lrc_stamp(first.timestamp) + seq![']'] + first.text@;
        reveal_strlit("[");
        reveal_strlit("]");
        reveal_strlit(":");
        reveal_strlit(".");
        reveal_strlit("\n");
        assert(lrc_line(first.timestamp, first.text@) =~= l + seq!['\n']);
        lemma_split_first(l, lrc_body(rest));
        let lines_of = split_lines(lrc_body(lines));
        assert(lrc_body(lines) == l + seq!['\n'] + lrc_body(rest));
        assert(lines_of == seq![l] + split_lines(lrc_body(rest)));
        assert(lines_of[0] == l);
        assert(lines_of.drop_first() =~= split_lines(lrc_body(rest)));
        assert(kept_lines(lines) =~= seq![(centis(first.timestamp), first.text@)] + kept_lines(rest));
    }
}

proof fn lemma_signed_chars(x: int)
    ensures
        forall|i: int| 0 <= i < signed_decimal(x).len() ==> {
            let c = #[trigger] signed_decimal(x)[i];
            c != ']' && c != '\n' && c != ':'
        },
{
    if x < 0 {
        lemma_decimal_digits((-x) as nat);
        reveal_strlit("-");
        let d = decimal((-x) as nat);
        assert(signed_decimal(x) =~= seq!['-'] + d);
        assert forall|i: int| 0 <= i < signed_decimal(x).len() implies {
            let c = #[trigger] signed_decimal(x)[i];
            c != ']' && c != '\n' && c != ':'
        } by {
            if i > 0 {
                assert(signed_decimal(x)[i] == d[i - 1]);
                assert(is_digit(d[i - 1]));
            }
        }
    } else {
        lemma_decimal_digits(x as nat);
        let d = decimal(x as nat);
        assert forall|i: int| 0 <= i < signed_decimal(x).len() implies {
            let c = #[trigger] signed_decimal(x)[i];
            c != ']' && c != '\n' && c != ':'
        } by {
            assert(is_digit(d[i]));
        }
    }
}

proof fn lemma_offset_line_skipped(x: int, body: Seq<char>)
    ensures
        lrc_parsed("[offset:"@ + signed_decimal(x) + "]\n"@ + body) == lrc_parsed(body),
{
    reveal_strlit("[offset:");
    reveal_strlit("]\n");
    reveal_strlit("offset");
    let sd = signed_decimal(x);
    lemma_signed_chars(x);
    let head: Seq<char> = seq!['[', 'o', 'f', 'f', 's', 'e', 't', ':'];
    assert("[offset:"@ =~= head);
    let l0 = head + sd + seq![']'];
    assert("[offset:"@ + sd + "]\n"@ + body =~= l0 + seq!['\n'] + body);
    assert forall|i: int| 0 <= i < l0.len() implies #[trigger] l0[i] != '\n' by {
        if 8 <= i < 8 + sd.len() {
            assert(l0[i] == sd[i - 8]);
        }
    }
    lemma_split_first(l0, body);
    let lines = split_lines(l0 + seq!['\n'] + body);
    assert(lines[0] == l0);
    assert(lines.drop_first() =~= split_lines(body));
    assert(l0[0] == '[');
    assert(trim_start(l0) == l0);
    assert(l0.last() == ']');
    assert(trim_end(l0) == l0);
    let k: int = 8 + sd.len() as int;
    assert forall|i: int| 0 <= i < k implies l0[i] != ']' by {
        if i >= 8 {
            assert(l0[i] == sd[i - 8]);
        }
    }
    assert(l0[k] == ']');
    lemma_first_index(l0, ']', k);
    let ts = l0.subrange(1, k);
    assert(ts =~= seq!['o', 'f', 'f', 's', 'e', 't', ':'] + sd);
    assert forall|i: int| 0 <= i < 6 implies ts[i] != ':' by {}
    assert(ts[6] == ':');
    lemma_first_index(ts, ':', 6);
    let mins = ts.take(6);
    assert(mins[0] == 'o');
    assert(unsigned_part(mins) == mins);
    assert(!is_digit(mins[0]));
    assert(parse_u32(mins) is None);
    let rest = ts.skip(7);
    assert(rest =~= sd);
    assert forall|i: int| 0 <= i < rest.len() implies rest[i] != ':' by {
        assert(rest[i] == sd[i]);
    }
    lemma_first_index(rest, ':', rest.len() as int);
    assert(parse_timestamp(ts) is None);
    assert(parse_lrc_line(l0) is None);
}

/// The round trip of LRC text: reading back the LRC text of synced lyrics
/// gives every line again, in order, with its text unchanged and its time cut
/// to the hundredth of a second (at most 9 ms earlier); an offset line reads
/// back as no line. This holds for texts without a line feed and without
/// whitespace at their end.
pub proof fn lrc_round_trip(lyrics: SyncedLyrics)
    requires
        forall|i: int| 0 <= i < lyrics.lines@.len() ==> round_trips(#[trigger] lyrics.lines@[i].text@),
    ensures
        lrc_parsed(lrc_text(lyrics)) == kept_lines(lyrics.lines@),
        forall|i: int|
            0 <= i < lyrics.lines@.len() ==> (#[trigger] lyrics.lines@[i]).timestamp - 10
                < kept_lines(lyrics.lines@)[i].0 <= lyrics.lines@[i].timestamp,
{
    lemma_body_round_trip(lyrics.lines@);
    if lyrics.offset != 0 {
        lemma_offset_line_skipped(lyrics.offset as int, lrc_body(lyrics.lines@));
    }
}

/// The text outside `<...>` tags, and whether a tag is still open, after
/// reading `s`: `<` opens a tag, `>` closes it, and neither is kept.
pub open spec fn untagged(s: Seq<char>) -> (Seq<char>, bool)
    decreases s.len(),
{
    if s.len() == 0 {
        (Seq::empty(), false)
    } else {
        let prev = untagged(s.drop_last());
        let c = s.last();
        if c == '<' {
            (prev.0, true)
        } else if c == '>' {
            (prev.0, false)
        } else if prev.1 {
            prev
        } else {
            (prev.0.push(c), false)
        }
    }
}

/// Removes HTML tags: everything from a `<` to the next `>`.
pub fn remove_html_tags(text: &str) -> (r: String)
    ensures
        r@ == untagged(text@).0,
{
    let v = chars_of(text);
    let mut out: Vec<char> = Vec::new();
    let mut in_tag = false;
    let mut i: usize = 0;
    assert(v@.take(0) =~= Seq::<char>::empty());
    while i < v.len()
        invariant
            i <= v@.len(),
            v@ == text@,
            (out@, in_tag) == untagged(v@.take(i as int)),
        decreases v@.len() - i,
    {
        let c = v[i];
        assert(v@.take(i + 1).drop_last() =~= v@.take(i as int));
        assert(v@.take(i + 1).last() == c);
        if c == '<' {
            in_tag = true;
        } else if c == '>' {
            in_tag = false;
        } else if !in_tag {
            out.push(c);
        }
        i = i + 1;
    }
    assert(v@.take(i as int) =~= v@);
    string_of(&out)
}

/// The trimmed lines of `lines` that are not empty.
pub open spec fn nonblank_trimmed(lines: Seq<Seq<char>>) -> Seq<Seq<char>>
    decreases lines.len(),
{
    if lines.len() == 0 {
        seq![]
    } else if trimmed(lines[0]).len() == 0 {
        nonblank_trimmed(lines.drop_first())
    } else {
        seq![trimmed(lines[0])] + nonblank_trimmed(lines.drop_first())
    }
}

/// Lines joined with line feeds.
pub open spec fn joined_lines(lines: Seq<Seq<char>>) -> Seq<char>
    decreases lines.len(),
{
    if lines.len() == 0 {
        Seq::empty()
    } else if lines.len() == 1 {
        lines[0]
    } else {
        lines[0] + "\n"@ + joined_lines(lines.drop_first())
    }
}

/// Each line trimmed, blank lines dropped, the rest joined with line feeds.
pub open spec fn normalized_lines(s: Seq<char>) -> Seq<char> {
    joined_lines(nonblank_trimmed(split_lines(s)))
}

proof fn lemma_join_push(ls: Seq<Seq<char>>, x: Seq<char>)
    ensures
        joined_lines(ls.push(x)) == if ls.len() == 0 { x } else { joined_lines(ls) + "\n"@ + x },
    decreases ls.len(),
{
    if ls.len() == 1 {
        assert(ls.push(x).drop_first() =~= seq![x]);
        assert(joined_lines(seq![x]) == x);
    } else if ls.len() > 1 {
        lemma_join_push(ls.drop_first(), x);
        assert(ls.push(x).drop_first() =~= ls.drop_first().push(x));
        assert(joined_lines(ls.push(x)) =~= joined_lines(ls) + "\n"@ + x);
    }
}

/// Trims every line, drops blank ones, and joins the rest with line feeds.
pub fn normalize_whitespace(text: &str) -> (r: String)
    ensures
        r@ == normalized_lines(text@),
{
    let s = chars_of(text);
    let mut kept: Vec<Vec<char>> = Vec::new();
    let mut i: usize = 0;
    assert(s@.skip(0) =~= s@);
    while i < s.len()
        invariant
            i <= s@.len(),
            s@ == text@,
            kept@.map_values(|l: Vec<char>| l@) + nonblank_trimmed(split_lines(s@.skip(i as int)))
                == nonblank_trimmed(split_lines(s@)),
        decreases s@.len() - i,
    {
        let ghost rest = s@.skip(i as int);
        let mut j: usize = i;
        while j < s.len() && s[j] != '\n'
            invariant
                i <= j <= s@.len(),
                forall|k: int| i <= k < j ==> s@[k] != '\n',
            decreases s@.len() - j,
        {
            j = j + 1;
        }
        proof {
            assert forall|k: int| 0 <= k < j - i implies rest[k] != '\n' by {
                assert(rest[k] == s@[i + k]);
            }
            lemma_first_index(rest, '\n', j - i);
        }
        let line = copy_range(&s, i, j);
        assert(line@ =~= rest.take(j - i));
        let t = trim_chars(&line);
        let ghost before = kept@;
        if t.len() > 0 {
            kept.push(t);
            assert(kept@.map_values(|l: Vec<char>| l@) =~= before.map_values(|l: Vec<char>| l@).push(
                trimmed(line@),
            ));
        }
        if j >= s.len() {
            assert(rest.take(j - i) =~= rest);
            let ghost single: Seq<Seq<char>> = seq![rest];
            assert(split_lines(rest) == single);
            assert(single.drop_first() =~= Seq::<Seq<char>>::empty());
            assert(s@.skip(j as int) =~= Seq::<char>::empty());
            i = j;
        } else {
            assert(rest.skip(j - i + 1) =~= s@.skip(j + 1));
            assert((seq![rest.take(j - i)] + split_lines(rest.skip(j - i + 1))).drop_first()
                =~= split_lines(s@.skip(j + 1)));
            i = j + 1;
        }
    }
    assert(s@.skip(i as int) =~= Seq::<char>::empty());
    assert(kept@.map_values(|l: Vec<char>| l@) =~= nonblank_trimmed(split_lines(s@)));
    let mut out: Vec<char> = Vec::new();
    let mut k: usize = 0;
    let ghost all = kept@.map_values(|l: Vec<char>| l@);
    while k < kept.len()
        invariant
            k <= kept@.len(),
            all == kept@.map_values(|l: Vec<char>| l@),
            out@ == joined_lines(all.take(k as int)),
        decreases kept@.len() - k,
    {
        proof {
            lemma_join_push(all.take(k as int), all[k as int]);
            assert(all.take(k + 1) =~= all.take(k as int).push(all[k as int]));
        }
        if k > 0 {
            extend_str(&mut out, "\n");
        }
        extend_chars(&mut out, &kept[k]);
        k = k + 1;
    }
    assert(all.take(k as int) =~= all);
    string_of(&out)
}

/// The leading words that lyric pages put before the text, in the order
/// they are tried.
pub open spec fn lead_word(i: int) -> Seq<char> {
    if i == 0 { "Lyrics:"@ }
    else if i == 1 { "Lyrics"@ }
    else if i == 2 { "Song:"@ }
    else if i == 3 { "Song"@ }
    else if i == 4 { "Track:"@ }
    else { "Track"@ }
}

/// The trailing words that lyric pages put after the text, in order.
pub open spec fn tail_word(i: int) -> Seq<char> {
    if i == 0 { "More on Genius"@ }
    else if i == 1 { "Genius"@ }
    else if i == 2 { "AZLyrics.com"@ }
    else { "Lyrics provided by"@ }
}

fn lead_word_at(i: usize) -> (r: &'static str)
    requires
        i < 6,
    ensures
        r@ == lead_word(i as int),
{
    if i == 0 { "Lyrics:" }
    else if i == 1 { "Lyrics" }
    else if i == 2 { "Song:" }
    else if i == 3 { "Song" }
    else if i == 4 { "Track:" }
    else { "Track" }
}

fn tail_word_at(i: usize) -> (r: &'static str)
    requires
        i < 4,
    ensures
        r@ == tail_word(i as int),
{
    if i == 0 { "More on Genius" }
    else if i == 1 { "Genius" }
    else if i == 2 { "AZLyrics.com" }
    else { "Lyrics provided by" }
}

/// `s` without the first leading word from position `i` on that it starts
/// with, and the whitespace after it.
pub open spec fn strip_lead(s: Seq<char>, i: int) -> Seq<char>
    decreases 6 - i,
{
    if i >= 6 {
        s
    } else if occurs_at(s, lead_word(i), 0) {
        trim_start(s.skip(lead_word(i).len() as int))
    } else {
        strip_lead(s, i + 1)
    }
}

/// `s` without the first trailing word from position `i` on that it ends
/// with, and the whitespace before it.
pub open spec fn strip_tail(s: Seq<char>, i: int) -> Seq<char>
    decreases 4 - i,
{
    if i >= 4 {
        s
    } else if occurs_at(s, tail_word(i), s.len() - tail_word(i).len()) {
        trim_end(s.take(s.len() - tail_word(i).len()))
    } else {
        strip_tail(s, i + 1)
    }
}

fn strip_lead_chars(v: &Vec<char>) -> (r: Vec<char>)
    ensures
        r@ == strip_lead(v@, 0),
{
    let mut i: usize = 0;
    while i < 6
        invariant
            i <= 6,
            strip_lead(v@, i as int) == strip_lead(v@, 0),
        decreases 6 - i,
    {
        let p = chars_of(lead_word_at(i));
        if matches_at(v, &p, 0) {
            let mut rest: Vec<char> = Vec::new();
            let mut k: usize = p.len();
            while k < v.len()
                invariant
                    p@.len() <= k <= v@.len(),
                    rest@ == v@.subrange(p@.len() as int, k as int),
                decreases v@.len() - k,
            {
                rest.push(v[k]);
                k = k + 1;
                assert(rest@ =~= v@.subrange(p@.len() as int, k as int));
            }
            assert(rest@ =~= v@.skip(p@.len() as int));
            return trim_start_chars(&rest);
        }
        i = i + 1;
    }
    let mut out: Vec<char> = Vec::new();
    let mut k: usize = 0;
    while k < v.len()
        invariant
            k <= v@.len(),
            out@ == v@.take(k as int),
        decreases v@.len() - k,
    {
        out.push(v[k]);
        k = k + 1;
        assert(out@ =~= v@.take(k as int));
    }
    assert(out@ =~= v@);
    out
}

fn strip_tail_chars(v: &Vec<char>) -> (r: Vec<char>)
    ensures
        r@ == strip_tail(v@, 0),
{
    let mut j: usize = 0;
    while j < 4
        invariant
            j <= 4,
            strip_tail(v@, j as int) == strip_tail(v@, 0),
        decreases 4 - j,
    {
        let s = chars_of(tail_word_at(j));
        if s.len() <= v.len() && matches_at(v, &s, v.len() - s.len()) {
            let end = v.len() - s.len();
            let mut head: Vec<char> = Vec::new();
            let mut k: usize = 0;
            while k < end
                invariant
                    k <= end,
                    end <= v@.len(),
                    head@ == v@.subrange(0, k as int),
                decreases end - k,
            {
                head.push(v[k]);
                k = k + 1;
                assert(head@ =~= v@.subrange(0, k as int));
            }
            assert(head@ =~= v@.take(end as int));
            return trim_end_chars(&head);
        }
        proof {
            if s@.len() > v@.len() {
                assert(!occurs_at(v@, s@, v@.len() - s@.len()));
            }
        }
        j = j + 1;
    }
    let mut out: Vec<char> = Vec::new();
    let mut k: usize = 0;
    while k < v.len()
        invariant
            k <= v@.len(),
            out@ == v@.take(k as int),
        decreases v@.len() - k,
    {
        out.push(v[k]);
        k = k + 1;
        assert(out@ =~= v@.take(k as int));
    }
    assert(out@ =~= v@);
    out
}

/// Removes one leading and one trailing word of lyric pages, if present.
pub fn remove_common_prefixes(text: &str) -> (r: String)
    ensures
        r@ == strip_tail(strip_lead(text@, 0), 0),
{
    let v = chars_of(text);
    let a = strip_lead_chars(&v);
    let b = strip_tail_chars(&a);
    string_of(&b)
}

/// Lyrics text as shown: tags removed, lines trimmed and blank ones
/// dropped, then one leading and one trailing page word removed.
pub open spec fn cleaned_lyrics(s: Seq<char>) -> Seq<char> {
    strip_tail(strip_lead(normalized_lines(untagged(s).0), 0), 0)
}

/// Cleans lyrics taken from a web page.
pub fn clean_lyrics_text(text: &str) -> (r: String)
    ensures
        r@ == cleaned_lyrics(text@),
{
    let a = remove_html_tags(text);
    let b = normalize_whitespace(a.as_str());
    remove_common_prefixes(b.as_str())
}

} // verus!
