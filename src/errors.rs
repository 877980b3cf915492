//! The error type of the library.
use vstd::prelude::*;
use crate::text::{chars_of, extend_str, string_of};

verus! {

/// What went wrong, with a human-readable detail.
#[derive(Debug, Clone)]
pub enum SpotifyDownloaderError {
    Network(String),
    Io(String),
    Json(String),
    Ffmpeg(String),
    Youtube(String),
    Soundcloud(String),
    Spotify(String),
    Itunes(String),
    Api(String),
    Config(String),
    Download(String),
    Metadata(String),
    Lyrics(String),
    CoverArt(String),
    Conversion(String),
    InvalidFormat(String),
    InvalidBitrate(String),
    InvalidUrl(String),
    Unknown(String),
}

/// The label that precedes the detail of each kind.
pub open spec fn error_label(e: SpotifyDownloaderError) -> Seq<char> {
    match e {
        SpotifyDownloaderError::Network(_) => "Network error: "@,
        SpotifyDownloaderError::Io(_) => "IO error: "@,
        SpotifyDownloaderError::Json(_) => "JSON parsing error: "@,
        SpotifyDownloaderError::Ffmpeg(_) => "FFmpeg error: "@,
        SpotifyDownloaderError::Youtube(_) => "YouTube download error: "@,
        SpotifyDownloaderError::Soundcloud(_) => "SoundCloud download error: "@,
        SpotifyDownloaderError::Spotify(_) => "Spotify API error: "@,
        SpotifyDownloaderError::Itunes(_) => "iTunes API error: "@,
        SpotifyDownloaderError::Api(_) => "API error: "@,
        SpotifyDownloaderError::Config(_) => "Configuration error: "@,
        SpotifyDownloaderError::Download(_) => "Download error: "@,
        SpotifyDownloaderError::Metadata(_) => "Metadata error: "@,
        SpotifyDownloaderError::Lyrics(_) => "Lyrics error: "@,
        SpotifyDownloaderError::CoverArt(_) => "Cover art error: "@,
        SpotifyDownloaderError::Conversion(_) => "Conversion error: "@,
        SpotifyDownloaderError::InvalidFormat(_) => "Invalid format: "@,
        SpotifyDownloaderError::InvalidBitrate(_) => "Invalid bitrate: "@,
        SpotifyDownloaderError::InvalidUrl(_) => "Invalid URL: "@,
        SpotifyDownloaderError::Unknown(_) => "Unknown error: "@,
    }
}

/// The detail an error carries.
pub open spec fn error_detail(e: SpotifyDownloaderError) -> Seq<char> {
    match e {
        SpotifyDownloaderError::Network(m) => m@,
        SpotifyDownloaderError::Io(m) => m@,
        SpotifyDownloaderError::Json(m) => m@,
        SpotifyDownloaderError::Ffmpeg(m) => m@,
        SpotifyDownloaderError::Youtube(m) => m@,
        SpotifyDownloaderError::Soundcloud(m) => m@,
        SpotifyDownloaderError::Spotify(m) => m@,
        SpotifyDownloaderError::Itunes(m) => m@,
        SpotifyDownloaderError::Api(m) => m@,
        SpotifyDownloaderError::Config(m) => m@,
        SpotifyDownloaderError::Download(m) => m@,
        SpotifyDownloaderError::Metadata(m) => m@,
        SpotifyDownloaderError::Lyrics(m) => m@,
        SpotifyDownloaderError::CoverArt(m) => m@,
        SpotifyDownloaderError::Conversion(m) => m@,
        SpotifyDownloaderError::InvalidFormat(m) => m@,
        SpotifyDownloaderError::InvalidBitrate(m) => m@,
        SpotifyDownloaderError::InvalidUrl(m) => m@,
        SpotifyDownloaderError::Unknown(m) => m@,
    }
}

impl SpotifyDownloaderError {
    /// The label of the kind followed by the detail.
    pub fn to_message(&self) -> (r: String)
        ensures
            r@ == error_label(*self) + error_detail(*self),
    {
        let (label, detail): (&str, &String) = match self {
            SpotifyDownloaderError::Network(m) => ("Network error: ", m),
            SpotifyDownloaderError::Io(m) => ("IO error: ", m),
            SpotifyDownloaderError::Json(m) => ("JSON parsing error: ", m),
            SpotifyDownloaderError::Ffmpeg(m) => ("FFmpeg error: ", m),
            SpotifyDownloaderError::Youtube(m) => ("YouTube download error: ", m),
            SpotifyDownloaderError::Soundcloud(m) => ("SoundCloud download error: ", m),
            SpotifyDownloaderError::Spotify(m) => ("Spotify API error: ", m),
            SpotifyDownloaderError::Itunes(m) => ("iTunes API error: ", m),
            SpotifyDownloaderError::Api(m) => ("API error: ", m),
            SpotifyDownloaderError::Config(m) => ("Configuration error: ", m),
            SpotifyDownloaderError::Download(m) => ("Download error: ", m),
            SpotifyDownloaderError::Metadata(m) => ("Metadata error: ", m),
            SpotifyDownloaderError::Lyrics(m) => ("Lyrics error: ", m),
            SpotifyDownloaderError::CoverArt(m) => ("Cover art error: ", m),
            SpotifyDownloaderError::Conversion(m) => ("Conversion error: ", m),
            SpotifyDownloaderError::InvalidFormat(m) => ("Invalid format: ", m),
            SpotifyDownloaderError::InvalidBitrate(m) => ("Invalid bitrate: ", m),
            SpotifyDownloaderError::InvalidUrl(m) => ("Invalid URL: ", m),
            SpotifyDownloaderError::Unknown(m) => ("Unknown error: ", m),
        };
        let mut v = chars_of(label);
        extend_str(&mut v, detail.as_str());
        string_of(&v)
    }
}

} // verus!
