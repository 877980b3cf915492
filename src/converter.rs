//! The transcoding step: whether a file needs it, and what the external tool
//! is asked to do.
use vstd::prelude::*;
use crate::config::{AudioFormat, Bitrate, kbps};
use crate::errors::SpotifyDownloaderError;
use crate::naming::{extension_of, format_ext, format_extension, split_path};
use crate::text::{
    decimal, decimal_chars, extend_str, lower_ascii, lower_of, string_of, to_lower,
};

verus! {

/// The extension of a path, empty when it has none.
pub open spec fn ext_or_empty(p: Seq<char>) -> Seq<char> {
    match extension_of(p) {
        Some(e) => e,
        None => Seq::empty(),
    }
}

/// A file needs transcoding when its lowercased extension is not the target
/// container's. The bitrate is not looked at.
pub open spec fn conversion_needed(path: Seq<char>, format: AudioFormat) -> bool {
    lower_of(ext_or_empty(path)) != format_ext(format)
}

/// The encoder the transcoding tool uses for a container.
pub open spec fn codec_of(format: AudioFormat) -> Seq<char> {
    match format {
        AudioFormat::Mp3 => "libmp3lame"@,
        AudioFormat::M4a => "aac"@,
        AudioFormat::Flac => "flac"@,
        AudioFormat::Wav => "pcm_s16le"@,
    }
}

/// The quality settings of a container, after codec and bitrate.
pub open spec fn quality_args(format: AudioFormat) -> Seq<Seq<char>> {
    match format {
        AudioFormat::Mp3 => seq!["-q:a"@, "2"@, "-compression_level"@, "2"@],
        AudioFormat::M4a => seq!["-profile:a"@, "aac_low"@],
        AudioFormat::Flac => seq!["-compression_level"@, "5"@],
        AudioFormat::Wav => seq![],
    }
}

/// The arguments of one transcoding run, input and output included.
pub open spec fn transcode_args(
    input: Seq<char>,
    output: Seq<char>,
    format: AudioFormat,
    bitrate: Bitrate,
) -> Seq<Seq<char>> {
    seq!["-i"@, input, "-acodec"@, codec_of(format), "-b:a"@, decimal(kbps(bitrate) as nat) + "k"@]
        + quality_args(format) + seq![
        "-threads"@,
        "0"@,
        "-loglevel"@,
        "error"@,
        "-stats"@,
        "-y"@,
        output,
    ]
}

/// The view of a list of strings.
pub open spec fn strings_view(v: Seq<String>) -> Seq<Seq<char>> {
    v.map_values(|s: String| s@)
}

fn push_str(v: &mut Vec<String>, s: &str)
    ensures
        strings_view(final(v)@) == strings_view(old(v)@).push(s@),
{
    let ghost before = v@;
    v.push(String::from_str(s));
    assert(strings_view(v@) =~= strings_view(before).push(s@));
}

/// Transcoding through the external tool.
pub struct AudioConverter {}

impl AudioConverter {
    pub fn new() -> (r: Self) {
        AudioConverter {}
    }

    /// The input extensions the tool is offered.
    pub fn get_supported_input_formats(&self) -> (r: Vec<String>)
        ensures
            strings_view(r@) == seq!["mp3"@, "m4a"@, "flac"@, "wav"@, "aac"@, "ogg"@, "wma"@],
    {
        let mut v: Vec<String> = Vec::new();
        push_str(&mut v, "mp3");
        push_str(&mut v, "m4a");
        push_str(&mut v, "flac");
        push_str(&mut v, "wav");
        push_str(&mut v, "aac");
        push_str(&mut v, "ogg");
        push_str(&mut v, "wma");
        assert(strings_view(v@) =~= seq!["mp3"@, "m4a"@, "flac"@, "wav"@, "aac"@, "ogg"@, "wma"@]);
        v
    }

    /// The containers a download can end in.
    pub fn get_supported_output_formats(&self) -> (r: Vec<AudioFormat>)
        ensures
            r@ == seq![AudioFormat::Mp3, AudioFormat::M4a, AudioFormat::Flac, AudioFormat::Wav],
    {
        let mut v: Vec<AudioFormat> = Vec::new();
        v.push(AudioFormat::Mp3);
        v.push(AudioFormat::M4a);
        v.push(AudioFormat::Flac);
        v.push(AudioFormat::Wav);
        assert(v@ =~= seq![AudioFormat::Mp3, AudioFormat::M4a, AudioFormat::Flac, AudioFormat::Wav]);
        v
    }

    /// The bitrate tiers of a container: all four for lossy ones, the top
    /// tier alone for lossless ones.
    pub fn get_supported_bitrates(&self, format: &AudioFormat) -> (r: Vec<Bitrate>)
        ensures
            r@ == (match *format {
                AudioFormat::Mp3 | AudioFormat::M4a => seq![
                    Bitrate::Kbps128,
                    Bitrate::Kbps192,
                    Bitrate::Kbps256,
                    Bitrate::Kbps320,
                ],
                AudioFormat::Flac | AudioFormat::Wav => seq![Bitrate::Kbps320],
            }),
    {
        let mut v: Vec<Bitrate> = Vec::new();
        match format {
            AudioFormat::Mp3 | AudioFormat::M4a => {
                v.push(Bitrate::Kbps128);
                v.push(Bitrate::Kbps192);
                v.push(Bitrate::Kbps256);
                v.push(Bitrate::Kbps320);
                assert(v@ =~= seq![
                    Bitrate::Kbps128,
                    Bitrate::Kbps192,
                    Bitrate::Kbps256,
                    Bitrate::Kbps320,
                ]);
            },
            AudioFormat::Flac | AudioFormat::Wav => {
                v.push(Bitrate::Kbps320);
                assert(v@ =~= seq![Bitrate::Kbps320]);
            },
        }
        v
    }

    /// Whether a file must be transcoded to reach `format`: only when its
    /// extension differs. A different bitrate alone never triggers it, so a
    /// file that already has the target's extension is never transcoded.
    pub fn needs_conversion(&self, input_path: &str, format: AudioFormat, _bitrate: Bitrate) -> (r: bool)
        ensures
            r == conversion_needed(input_path@, format),
            lower_ascii(ext_or_empty(input_path@)) ==> r == (ext_or_empty(input_path@) != format_ext(
                format,
            )),
    {
        let parts = split_path(input_path);
        let ext = match parts.extension {
            Some(e) => string_of(&e),
            None => String::new(),
        };
        let lowered = to_lower(ext.as_str());
        let target = String::from_str(format_extension(format));
        !(lowered == target)
    }

    /// A size estimate for the output: a fixed 5 MiB, whatever the input.
    pub fn estimate_output_size(&self, _input_path: &str, _bitrate: Bitrate) -> (r: Result<u64, SpotifyDownloaderError>)
        ensures
            r matches Ok(n) && n == 5 * 1024 * 1024,
    {
        Ok(5 * 1024 * 1024)
    }

    /// The arguments of the transcoding tool for one run.
    pub fn transcode_arguments(&self, input: &str, output: &str, format: AudioFormat, bitrate: Bitrate) -> (r: Vec<String>)
        ensures
            strings_view(r@) == transcode_args(input@, output@, format, bitrate),
    {
        let mut v: Vec<String> = Vec::new();
        push_str(&mut v, "-i");
        push_str(&mut v, input);
        push_str(&mut v, "-acodec");
        let codec = match format {
            AudioFormat::Mp3 => "libmp3lame",
            AudioFormat::M4a => "aac",
            AudioFormat::Flac => "flac",
            AudioFormat::Wav => "pcm_s16le",
        };
        push_str(&mut v, codec);
        push_str(&mut v, "-b:a");
        let mut rate = decimal_chars(bitrate.as_u32() as u64);
        extend_str(&mut rate, "k");
        let rate_s = string_of(&rate);
        push_str(&mut v, rate_s.as_str());
        let ghost head = strings_view(v@);
        match format {
            AudioFormat::Mp3 => {
                push_str(&mut v, "-q:a");
                push_str(&mut v, "2");
                push_str(&mut v, "-compression_level");
                push_str(&mut v, "2");
            },
            AudioFormat::M4a => {
                push_str(&mut v, "-profile:a");
                push_str(&mut v, "aac_low");
            },
            AudioFormat::Flac => {
                push_str(&mut v, "-compression_level");
                push_str(&mut v, "5");
            },
            AudioFormat::Wav => {},
        }
        assert(strings_view(v@) =~= head + quality_args(format));
        push_str(&mut v, "-threads");
        push_str(&mut v, "0");
        push_str(&mut v, "-loglevel");
        push_str(&mut v, "error");
        push_str(&mut v, "-stats");
        push_str(&mut v, "-y");
        push_str(&mut v, output);
        assert(strings_view(v@) =~= transcode_args(input@, output@, format, bitrate));
        v
    }
}

} // verus!
