//! What a track is, what a batch asks for, and what a finished track reports.
use vstd::prelude::*;
use crate::config::{AudioFormat, Bitrate};

verus! {

/// Canonical identity of a track to download.
#[derive(Debug, Clone, Default)]
pub struct TrackMetadata {
    pub id: String,
    pub title: String,
    pub artist: String,
    pub album: String,
    pub album_artist: Option<String>,
    pub track_number: Option<u32>,
    pub disc_number: Option<u32>,
    pub release_date: Option<String>,
    pub duration_ms: u32,
    pub genres: Vec<String>,
    pub spotify_url: String,
    pub preview_url: Option<String>,
    /// Service name to page address, at most one entry per name.
    pub external_urls: Vec<(String, String)>,
    pub album_cover_url: Option<String>,
    pub composer: Option<String>,
    pub comment: Option<String>,
}

/// An album and its tracks.
#[derive(Debug, Clone)]
pub struct AlbumMetadata {
    pub id: String,
    pub name: String,
    pub artist: String,
    pub release_date: String,
    pub total_tracks: u32,
    pub images: Vec<ImageInfo>,
    pub spotify_url: String,
    pub tracks: Vec<TrackMetadata>,
}

/// A playlist and its tracks.
#[derive(Debug, Clone)]
pub struct PlaylistMetadata {
    pub id: String,
    pub name: String,
    pub description: Option<String>,
    pub owner: String,
    pub total_tracks: u32,
    pub images: Vec<ImageInfo>,
    pub spotify_url: String,
    pub tracks: Vec<TrackMetadata>,
}

/// An image a provider offers.
#[derive(Debug, Clone)]
pub struct ImageInfo {
    pub url: String,
    pub width: u32,
    pub height: u32,
}

/// What a batch asks of every track in it.
#[derive(Debug, Clone)]
pub struct DownloadOptions {
    pub format: AudioFormat,
    pub bitrate: Bitrate,
    pub output_dir: String,
    pub download_lyrics: bool,
    pub download_cover: bool,
    pub embed_metadata: bool,
    pub cover_width: u32,
    pub cover_height: u32,
    pub cover_format: String,
    pub embed_title: bool,
    pub embed_artist: bool,
    pub embed_album: bool,
    pub embed_year: bool,
    pub embed_genre: bool,
    pub embed_track_number: bool,
    pub embed_disc_number: bool,
    pub embed_album_artist: bool,
    pub embed_composer: bool,
    pub embed_comment: bool,
}

impl DownloadOptions {
    /// The defaults of a batch written to `output_dir`: MP3 at 320 kbps,
    /// lyrics, a 500 by 500 JPEG cover, and every tag field.
    pub fn with_output_dir(output_dir: String) -> (r: Self)
        ensures
            r.format == AudioFormat::Mp3,
            r.bitrate == Bitrate::Kbps320,
            r.output_dir == output_dir,
            r.download_lyrics && r.download_cover && r.embed_metadata,
            r.cover_width == 500 && r.cover_height == 500,
            r.cover_format@ == "jpeg"@,
            r.embed_title && r.embed_artist && r.embed_album && r.embed_year && r.embed_genre,
            r.embed_track_number && r.embed_disc_number && r.embed_album_artist,
            r.embed_composer && r.embed_comment,
    {
        DownloadOptions {
            format: AudioFormat::Mp3,
            bitrate: Bitrate::Kbps320,
            output_dir,
            download_lyrics: true,
            download_cover: true,
            embed_metadata: true,
            cover_width: 500,
            cover_height: 500,
            cover_format: String::from_str("jpeg"),
            embed_title: true,
            embed_artist: true,
            embed_album: true,
            embed_year: true,
            embed_genre: true,
            embed_track_number: true,
            embed_disc_number: true,
            embed_album_artist: true,
            embed_composer: true,
            embed_comment: true,
        }
    }
}

/// The terminal record of one track of a batch.
#[derive(Debug, Clone)]
pub struct DownloadTaskResult {
    pub track: TrackMetadata,
    pub success: bool,
    pub output_path: Option<String>,
    pub error: Option<String>,
}

impl DownloadTaskResult {
    /// A track that finished with its file at `path`.
    pub fn succeeded(track: TrackMetadata, path: String) -> (r: Self)
        ensures
            r.track == track,
            r.success,
            r.output_path == Some(path),
            r.error is None,
    {
        DownloadTaskResult { track, success: true, output_path: Some(path), error: None }
    }

    /// A track that failed with `message`.
    pub fn failed(track: TrackMetadata, message: String) -> (r: Self)
        ensures
            r.track == track,
            !r.success,
            r.output_path is None,
            r.error == Some(message),
    {
        DownloadTaskResult { track, success: false, output_path: None, error: Some(message) }
    }
}

/// Reads track lists exported as CSV.
pub struct CsvImporter {}

impl CsvImporter {
    pub fn new() -> (r: Self) {
        CsvImporter {}
    }
}

} // verus!
