use spotify_downloader::lyrics::{clean_lyrics_text, normalize_whitespace, remove_common_prefixes, remove_html_tags};
use spotify_downloader::config::AudioFormat;
use spotify_downloader::converter::AudioConverter;
use spotify_downloader::config::Bitrate;
use spotify_downloader::enrichment::{
    extract_spotify_track_id, generate_search_queries, CoverSearch, CoverSource, CoverStep, LyricAttempt, LyricSearch,
    LyricSource, LyricStep,
};
use spotify_downloader::errors::SpotifyDownloaderError;
use spotify_downloader::lyrics::{convert_to_lrc, parse_lrc_content, synced_to_text, LyricsLine, LyricsResult, SyncedLyrics, UnsyncedLyrics};
use spotify_downloader::metadata::{
    format_metadata_string, lyrics_field_text, parse_i32_text, sidecar_text, tag_fields, MetadataEmbedder, TagDialect,
};
use spotify_downloader::track::{DownloadOptions, TrackMetadata};

fn synced(lines: &[(u32, &str)], offset: i32) -> SyncedLyrics {
    SyncedLyrics {
        lines: lines.iter().map(|(t, s)| LyricsLine { timestamp: *t, text: s.to_string() }).collect(),
        offset,
        source: "test".to_string(),
    }
}

#[test]
fn lrc_round_trip_example() {
    let l = synced(&[(0, "a"), (61000, "b")], 0);
    let text = convert_to_lrc(&l);
    assert_eq!(text, "[00:00.00]a\n[01:01.00]b\n");
    let back = parse_lrc_content(&text).unwrap();
    let pairs: Vec<(u32, String)> = back.into_iter().map(|x| (x.timestamp, x.text)).collect();
    assert_eq!(pairs, vec![(0, "a".to_string()), (61000, "b".to_string())]);
}

#[test]
fn lrc_rounds_down_to_hundredths() {
    let l = synced(&[(123_456, "x y")], 0);
    let text = convert_to_lrc(&l);
    assert_eq!(text, "[02:03.45]x y\n");
    let back = parse_lrc_content(&text).unwrap();
    assert_eq!(back[0].timestamp, 123_450);
    assert_eq!(back[0].text, "x y");
}

#[test]
fn lrc_offset_line_first() {
    let l = synced(&[(1000, "a")], -250);
    assert_eq!(convert_to_lrc(&l), "[offset:-250]\n[00:01.00]a\n");
    let back = parse_lrc_content(&convert_to_lrc(&l)).unwrap();
    assert_eq!(back.len(), 1);
    assert_eq!(back[0].timestamp, 1000);
}

#[test]
fn lrc_long_minutes() {
    let l = synced(&[(6_000_000, "late")], 0);
    assert_eq!(convert_to_lrc(&l), "[100:00.00]late\n");
}

#[test]
fn lrc_parse_rejects_text_without_times() {
    match parse_lrc_content("hello\nworld\n") {
        Err(SpotifyDownloaderError::Lyrics(m)) => assert_eq!(m, "No valid LRC lines found"),
        _ => panic!("no timed line"),
    }
    assert!(parse_lrc_content("").is_err());
}

#[test]
fn lrc_parse_skips_bad_lines_and_trims() {
    let got = parse_lrc_content("  [00:02.5]two  \r\n[xx:00]bad\n\n[1:00]one").unwrap();
    let pairs: Vec<(u32, String)> = got.into_iter().map(|x| (x.timestamp, x.text)).collect();
    assert_eq!(pairs, vec![(2050, "two".to_string()), (60000, "one".to_string())]);
}

#[test]
fn synced_plain_text() {
    assert_eq!(synced_to_text(&synced(&[(0, "a"), (5, "b")], 0)), "a\nb");
    assert_eq!(synced_to_text(&synced(&[], 0)), "");
}

#[test]
fn metadata_normalisation() {
    assert_eq!(format_metadata_string("A; B; C"), "A, B, C");
    assert_eq!(format_metadata_string("A;B"), "A;B");
    assert_eq!(MetadataEmbedder::new().format_metadata_string(""), "");
}

#[test]
fn routes_by_container() {
    let m = MetadataEmbedder::new();
    assert_eq!(m.route(&"mp3".to_string()), (TagDialect::Id3Frames, false));
    assert_eq!(m.route(&"flac".to_string()), (TagDialect::VorbisComments, true));
    assert_eq!(m.route(&"m4a".to_string()), (TagDialect::Mp4Atoms, true));
    assert_eq!(m.route(&"wav".to_string()), (TagDialect::Id3v2, true));
    assert_eq!(m.route(&"ogg".to_string()), (TagDialect::VorbisComments, false));
}

#[test]
fn tag_fields_follow_toggles() {
    let track = TrackMetadata {
        title: "T; U".to_string(),
        artist: "A".to_string(),
        album: String::new(),
        release_date: Some("2020".to_string()),
        genres: vec!["pop; rock".to_string(), "jazz".to_string()],
        composer: Some("C".to_string()),
        ..Default::default()
    };
    let mut options = DownloadOptions::with_output_dir("/o".to_string());
    options.embed_artist = false;
    let f = tag_fields(&track, &options);
    assert_eq!(f.title.as_deref(), Some("T, U"));
    assert_eq!(f.artist, None);
    assert_eq!(f.album, None);
    assert_eq!(f.year, Some(2020));
    assert_eq!(f.release_date.as_deref(), Some("2020"));
    assert_eq!(f.genre.as_deref(), Some("pop, rock, jazz"));
    assert_eq!(f.composer.as_deref(), Some("C"));
}

#[test]
fn year_needs_a_plain_number() {
    assert_eq!(parse_i32_text("2020-05-01"), None);
    assert_eq!(parse_i32_text("-12"), Some(-12));
    assert_eq!(parse_i32_text("+7"), Some(7));
    assert_eq!(parse_i32_text("-2147483648"), Some(i32::MIN));
    assert_eq!(parse_i32_text("2147483648"), None);
    assert_eq!(parse_i32_text("-+1"), None);
}

#[test]
fn lyrics_field_and_sidecar() {
    let with_synced = LyricsResult {
        synced: Some(synced(&[(1000, "a"), (2000, "b")], 0)),
        unsynced: None,
        synced_path: None,
        unsynced_path: None,
    };
    assert_eq!(lyrics_field_text(&with_synced).as_deref(), Some("[00:01.00]a\n[00:02.00]b"));
    assert_eq!(sidecar_text(&with_synced), Some((true, "[00:01.00]a\n[00:02.00]b\n".to_string())));
    let plain = LyricsResult {
        synced: None,
        unsynced: Some(UnsyncedLyrics { text: "words".to_string(), source: "s".to_string() }),
        synced_path: None,
        unsynced_path: None,
    };
    assert_eq!(lyrics_field_text(&plain).as_deref(), Some("words"));
    assert_eq!(sidecar_text(&plain), Some((false, "words".to_string())));
}

#[test]
fn conversion_skip_by_extension() {
    let c = AudioConverter::new();
    assert!(!c.needs_conversion("dir/song.mp3", AudioFormat::Mp3, Bitrate::Kbps128));
    assert!(!c.needs_conversion("dir/song.MP3", AudioFormat::Mp3, Bitrate::Kbps320));
    assert!(c.needs_conversion("dir/song.wav", AudioFormat::Mp3, Bitrate::Kbps192));
    assert!(c.needs_conversion("dir/song", AudioFormat::Wav, Bitrate::Kbps320));
    assert!(c.needs_conversion("dir/.mp3", AudioFormat::Mp3, Bitrate::Kbps320));
}

#[test]
fn converter_lists() {
    let c = AudioConverter::new();
    assert_eq!(c.get_supported_input_formats(), vec!["mp3", "m4a", "flac", "wav", "aac", "ogg", "wma"]);
    assert_eq!(c.get_supported_output_formats().len(), 4);
    assert_eq!(c.get_supported_bitrates(&AudioFormat::Flac), vec![Bitrate::Kbps320]);
    assert_eq!(c.get_supported_bitrates(&AudioFormat::M4a).len(), 4);
    assert_eq!(c.estimate_output_size("x", Bitrate::Kbps128).unwrap(), 5_242_880);
    assert_eq!(
        c.transcode_arguments("in.wav", "out.mp3", AudioFormat::Mp3, Bitrate::Kbps192),
        vec!["-i", "in.wav", "-acodec", "libmp3lame", "-b:a", "192k", "-q:a", "2", "-compression_level", "2", "-threads", "0", "-loglevel", "error", "-stats", "-y", "out.mp3"]
    );
}

#[test]
fn cover_sources_in_order() {
    let mut track = TrackMetadata { spotify_url: "https://open.spotify.com/track/abc123".to_string(), ..Default::default() };
    let (mut search, step) = CoverSearch::start(&track);
    assert!(matches!(step, CoverStep::Try(CoverSource::SpotifyApi)));
    assert!(matches!(search.record(None), CoverStep::Try(CoverSource::ItunesAlbum)));
    assert!(matches!(search.record(Some(String::new())), CoverStep::Try(CoverSource::ItunesTrack)));
    assert!(matches!(search.record(None), CoverStep::NotFound));
    track.album_cover_url = Some("https://img/1.jpg".to_string());
    match CoverSearch::start(&track).1 {
        CoverStep::Found(u) => assert_eq!(u, "https://img/1.jpg"),
        _ => panic!("the metadata's own cover comes first"),
    }
    track.album_cover_url = None;
    track.spotify_url = "https://example.com/x".to_string();
    assert!(matches!(CoverSearch::start(&track).1, CoverStep::Try(CoverSource::ItunesAlbum)));
}

#[test]
fn cover_found_ends_search() {
    let track = TrackMetadata::default();
    let (mut search, _) = CoverSearch::start(&track);
    match search.record(Some("u".to_string())) {
        CoverStep::Found(u) => assert_eq!(u, "u"),
        _ => panic!("a found cover ends the search"),
    }
}

#[test]
fn track_id_from_page() {
    assert_eq!(extract_spotify_track_id("https://open.spotify.com/track/xyz").as_deref(), Some("xyz"));
    assert_eq!(extract_spotify_track_id("https://open.spotify.com/album/xyz"), None);
}

#[test]
fn lyric_queries() {
    assert_eq!(generate_search_queries("A", "T"), vec!["A T", "A - T", "\"A\" \"T\""]);
}

#[test]
fn synced_lyrics_win() {
    let (mut s, first) = LyricSearch::start();
    assert_eq!(first, LyricStep::Lookup(LyricAttempt::Synced(LyricSource::Lrclib)));
    assert_eq!(s.record(false), LyricStep::Lookup(LyricAttempt::Synced(LyricSource::LyricsOvh)));
    assert_eq!(s.record(true), LyricStep::Found(LyricAttempt::Synced(LyricSource::LyricsOvh)));
}

#[test]
fn plain_lyrics_per_query_then_exhausted() {
    let (mut s, _) = LyricSearch::start();
    let mut seen = Vec::new();
    loop {
        match s.record(false) {
            LyricStep::Lookup(a) => seen.push(a),
            LyricStep::Exhausted => break,
            LyricStep::Found(_) => panic!("nothing was found"),
        }
    }
    assert_eq!(seen.len(), 16);
    assert_eq!(seen[1], LyricAttempt::Plain(LyricSource::Lrclib, 0));
    assert_eq!(seen[5], LyricAttempt::Plain(LyricSource::Genius, 0));
    assert_eq!(seen[6], LyricAttempt::Plain(LyricSource::Lrclib, 1));
    assert_eq!(seen[15], LyricAttempt::Plain(LyricSource::Genius, 2));
}

#[test]
fn lyric_text_cleanup() {
    assert_eq!(remove_html_tags("<p>Hello <b>world</b></p>"), "Hello world");
    assert_eq!(remove_html_tags("a > b"), "a  b");
    assert_eq!(normalize_whitespace("  a  \n\n  b \r\n"), "a\nb");
    assert_eq!(normalize_whitespace(""), "");
    assert_eq!(remove_common_prefixes("Lyrics: Hello Genius"), "Hello");
    assert_eq!(remove_common_prefixes("Song title"), "title");
    assert_eq!(remove_common_prefixes("plain"), "plain");
    assert_eq!(
        clean_lyrics_text("<div>Lyrics</div>\n  line one \n\nline two\nMore on Genius"),
        "line one\nline two"
    );
}
