//! The arguments the extraction tool is run with: a fixed profile tuned for
//! speed, with the proxy and segment removal when configured.
use vstd::prelude::*;
use crate::config::{AudioFormat, Bitrate, ProxyConfig, SponsorBlockConfig, kbps, names_view, proxy_address};
use crate::converter::strings_view;
use crate::naming::format_ext;
use crate::text::{chars_of, decimal, decimal_chars, extend_str, string_of};

verus! {

/// The browser identity the tool presents.
pub open spec fn user_agent() -> Seq<char> {
    "Mozilla/5.0 (Windows NT 10.0; Win64; x64) AppleWebKit/537.36 (KHTML, like Gecko) Chrome/120.0.0.0 Safari/537.36"@
}

/// The proxy arguments: none when the proxy is off.
pub open spec fn proxy_args(p: ProxyConfig) -> Seq<Seq<char>> {
    if p.enabled { seq!["--proxy"@, proxy_address(p)] } else { seq![] }
}

/// The arguments of a search: one JSON record per result.
pub open spec fn search_args(target: Seq<char>, p: ProxyConfig) -> Seq<Seq<char>> {
    seq![
        target,
        "--dump-json"@,
        "--no-playlist"@,
        "--quiet"@,
        "--socket-timeout"@,
        "30"@,
        "--retries"@,
        "3"@,
        "--no-check-certificate"@,
        "--prefer-free-formats"@,
        "--format"@,
        "bestaudio[ext=m4a]/bestaudio[ext=mp3]/bestaudio"@,
        "--user-agent"@,
        user_agent(),
        "--extractor-retries"@,
        "3"@,
        "--fragment-retries"@,
        "3"@,
    ] + proxy_args(p)
}

/// `a,b,c` from a list of names.
pub open spec fn comma_joined(v: Seq<Seq<char>>) -> Seq<char>
    decreases v.len(),
{
    if v.len() == 0 {
        Seq::empty()
    } else if v.len() == 1 {
        v[0]
    } else {
        comma_joined(v.drop_last()) + ","@ + v.last()
    }
}

/// The arguments of a download of `url` into `dir/template`, with part files
/// kept in `temp_dir`.
pub open spec fn download_args(
    url: Seq<char>,
    format: AudioFormat,
    bitrate: Bitrate,
    dir: Seq<char>,
    template: Seq<char>,
    temp_dir: Seq<char>,
    p: ProxyConfig,
    s: SponsorBlockConfig,
) -> Seq<Seq<char>> {
    seq![
        url,
        "--extract-audio"@,
        "--audio-format"@,
        format_ext(format),
        "--audio-quality"@,
        decimal(kbps(bitrate) as nat),
        "--output"@,
        dir + "/"@ + template,
        "--paths"@,
        "temp:"@ + temp_dir,
        "--no-playlist"@,
        "--progress"@,
        "--newline"@,
        "--no-check-certificate"@,
        "--prefer-free-formats"@,
        "--socket-timeout"@,
        "30"@,
        "--retries"@,
        "3"@,
        "--fragment-retries"@,
        "3"@,
        "--concurrent-fragments"@,
        "4"@,
        "--buffer-size"@,
        "16K"@,
        "--http-chunk-size"@,
        "1M"@,
        "--user-agent"@,
        user_agent(),
    ] + proxy_args(p) + if s.enabled {
        seq!["--sponsorblock-remove"@, comma_joined(names_view(s.remove_categories@))]
    } else {
        seq![]
    }
}

fn push_str(v: &mut Vec<String>, s: &str)
    ensures
        strings_view(final(v)@) == strings_view(old(v)@).push(s@),
{
    let ghost before = v@;
    v.push(String::from_str(s));
    assert(strings_view(v@) =~= strings_view(before).push(s@));
}

fn push_proxy(v: &mut Vec<String>, p: &ProxyConfig)
    ensures
        strings_view(final(v)@) == strings_view(old(v)@) + proxy_args(*p),
{
    let ghost before = strings_view(v@);
    if p.enabled {
        push_str(v, "--proxy");
        let url = p.proxy_url();
        push_str(v, url.as_str());
    }
    assert(strings_view(v@) =~= before + proxy_args(*p));
}

/// The categories joined with commas.
pub fn join_categories(v: &Vec<String>) -> (r: String)
    ensures
        r@ == comma_joined(names_view(v@)),
{
    let mut out: Vec<char> = Vec::new();
    let mut i: usize = 0;
    while i < v.len()
        invariant
            i <= v@.len(),
            out@ == comma_joined(names_view(v@.take(i as int))),
        decreases v@.len() - i,
    {
        assert(names_view(v@.take(i + 1)).drop_last() =~= names_view(v@.take(i as int)));
        if i > 0 {
            extend_str(&mut out, ",");
        }
        extend_str(&mut out, v[i].as_str());
        i = i + 1;
        proof {
            if i == 1 {
                assert(names_view(v@.take(1))[0] == v@[0]@);
                assert(out@ =~= comma_joined(names_view(v@.take(1))));
            }
        }
    }
    assert(v@.take(i as int) =~= v@);
    string_of(&out)
}

/// The extraction tool, run as a subprocess.
pub struct YtDlpDownloader {
    pub executable_path: String,
}

impl YtDlpDownloader {
    pub fn new() -> (r: Self)
        ensures
            r.executable_path@ == "yt-dlp"@,
    {
        YtDlpDownloader { executable_path: String::from_str("yt-dlp") }
    }

    pub fn with_path(executable_path: String) -> (r: Self)
        ensures
            r.executable_path == executable_path,
    {
        YtDlpDownloader { executable_path }
    }

    /// The arguments of a search for `target`.
    pub fn search_arguments(&self, target: &str, proxy: &ProxyConfig) -> (r: Vec<String>)
        ensures
            strings_view(r@) == search_args(target@, *proxy),
    {
        let mut v: Vec<String> = Vec::new();
        push_str(&mut v, target);
        push_str(&mut v, "--dump-json");
        push_str(&mut v, "--no-playlist");
        push_str(&mut v, "--quiet");
        push_str(&mut v, "--socket-timeout");
        push_str(&mut v, "30");
        push_str(&mut v, "--retries");
        push_str(&mut v, "3");
        push_str(&mut v, "--no-check-certificate");
        push_str(&mut v, "--prefer-free-formats");
        push_str(&mut v, "--format");
        push_str(&mut v, "bestaudio[ext=m4a]/bestaudio[ext=mp3]/bestaudio");
        push_str(&mut v, "--user-agent");
        push_str(
            &mut v,
            "Mozilla/5.0 (Windows NT 10.0; Win64; x64) AppleWebKit/537.36 (KHTML, like Gecko) Chrome/120.0.0.0 Safari/537.36",
        );
        push_str(&mut v, "--extractor-retries");
        push_str(&mut v, "3");
        push_str(&mut v, "--fragment-retries");
        push_str(&mut v, "3");
        push_proxy(&mut v, proxy);
        assert(strings_view(v@) =~= search_args(target@, *proxy));
        v
    }

    /// The arguments of a download of `url` into `dir/template`.
    pub fn download_arguments(
        &self,
        url: &str,
        format: AudioFormat,
        bitrate: Bitrate,
        dir: &str,
        template: &str,
        temp_dir: &str,
        proxy: &ProxyConfig,
        sponsorblock: &SponsorBlockConfig,
    ) -> (r: Vec<String>)
        ensures
            strings_view(r@) == download_args(
                url@,
                format,
                bitrate,
                dir@,
                template@,
                temp_dir@,
                *proxy,
                *sponsorblock,
            ),
    {
        let mut v: Vec<String> = Vec::new();
        push_str(&mut v, url);
        push_str(&mut v, "--extract-audio");
        push_str(&mut v, "--audio-format");
        push_str(&mut v, crate::naming::format_extension(format));
        push_str(&mut v, "--audio-quality");
        let q = string_of(&decimal_chars(bitrate.as_u32() as u64));
        push_str(&mut v, q.as_str());
        push_str(&mut v, "--output");
        let mut o = chars_of(dir);
        extend_str(&mut o, "/");
        extend_str(&mut o, template);
        let o = string_of(&o);
        push_str(&mut v, o.as_str());
        push_str(&mut v, "--paths");
        let mut t = chars_of("temp:");
        extend_str(&mut t, temp_dir);
        let t = string_of(&t);
        push_str(&mut v, t.as_str());
        push_str(&mut v, "--no-playlist");
        push_str(&mut v, "--progress");
        push_str(&mut v, "--newline");
        push_str(&mut v, "--no-check-certificate");
        push_str(&mut v, "--prefer-free-formats");
        push_str(&mut v, "--socket-timeout");
        push_str(&mut v, "30");
        push_str(&mut v, "--retries");
        push_str(&mut v, "3");
        push_str(&mut v, "--fragment-retries");
        push_str(&mut v, "3");
        push_str(&mut v, "--concurrent-fragments");
        push_str(&mut v, "4");
        push_str(&mut v, "--buffer-size");
        push_str(&mut v, "16K");
        push_str(&mut v, "--http-chunk-size");
        push_str(&mut v, "1M");
        push_str(&mut v, "--user-agent");
        push_str(
            &mut v,
            "Mozilla/5.0 (Windows NT 10.0; Win64; x64) AppleWebKit/537.36 (KHTML, like Gecko) Chrome/120.0.0.0 Safari/537.36",
        );
        push_proxy(&mut v, proxy);
        if sponsorblock.enabled {
            push_str(&mut v, "--sponsorblock-remove");
            let cats = join_categories(&sponsorblock.remove_categories);
            push_str(&mut v, cats.as_str());
        }
        let ghost spec_all = download_args(
            url@,
            format,
            bitrate,
            dir@,
            template@,
            temp_dir@,
            *proxy,
            *sponsorblock,
        );
        assert(strings_view(v@) =~= spec_all);
        v
    }
}

} // verus!
