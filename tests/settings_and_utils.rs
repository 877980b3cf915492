use spotify_downloader::utils::parse_youtube_duration;
use spotify_downloader::config::{download_directory_from, AudioFormat, Bitrate, Config, CoverConfig, ProxyConfig};
use spotify_downloader::errors::SpotifyDownloaderError;
use spotify_downloader::pipeline::DownloadStage;
use spotify_downloader::rate_limit::RateLimit;
use spotify_downloader::settings::Settings;
use spotify_downloader::tool::YtDlpDownloader;
use spotify_downloader::utils::Utils;

fn settings() -> Settings {
    Settings::from_config(Config::with_download_directory("/music".to_string()))
}

#[test]
fn format_and_bitrate_parsing() {
    assert_eq!(AudioFormat::from_str("FLAC").unwrap(), AudioFormat::Flac);
    assert_eq!(AudioFormat::from_str("mp3").unwrap(), AudioFormat::Mp3);
    match AudioFormat::from_str("ogg") {
        Err(SpotifyDownloaderError::InvalidFormat(m)) => assert_eq!(m, "ogg"),
        _ => panic!("ogg is not a target"),
    }
    assert_eq!(Bitrate::from_str("256").unwrap(), Bitrate::Kbps256);
    match Bitrate::from_str("300") {
        Err(SpotifyDownloaderError::InvalidBitrate(m)) => assert_eq!(m, "300"),
        _ => panic!("300 is not a tier"),
    }
    assert_eq!(Bitrate::Kbps192.as_u32(), 192);
    assert_eq!(Bitrate::Kbps320.name(), "320");
    assert_eq!(AudioFormat::M4a.name(), "m4a");
}

#[test]
fn defaults() {
    let c = Config::with_download_directory("/d".to_string());
    assert_eq!(c.default_format, AudioFormat::Mp3);
    assert_eq!(c.default_bitrate, Bitrate::Kbps320);
    assert_eq!(c.ui_preferences.max_concurrent_downloads, 3);
    assert_eq!(c.sponsorblock_config.remove_categories.len(), 7);
    assert_eq!(c.cookies_config.browsers[0], "firefox");
    let cover = CoverConfig::default();
    assert_eq!((cover.width, cover.height, cover.format.as_str()), (500, 500, "jpeg"));
    assert_eq!(Settings::default().config().default_format, AudioFormat::Mp3);
}

#[test]
fn default_directory_choice() {
    assert_eq!(download_directory_from(Some("/a".to_string()), Some("/h".to_string())), "/a/SpotifyDownloads");
    assert_eq!(download_directory_from(None, Some("/h".to_string())), "/h/Music/SpotifyDownloads");
    assert_eq!(download_directory_from(None, None), "Music/SpotifyDownloads");
}

#[test]
fn proxy_address() {
    let mut p = ProxyConfig::default();
    assert_eq!(p.proxy_url(), "http://127.0.0.1:1080");
    p.username = Some("u".to_string());
    p.password = Some("p".to_string());
    assert_eq!(p.proxy_url(), "http://u:p@127.0.0.1:1080");
}

#[test]
fn setters_change_one_thing() {
    let mut s = settings();
    s.set_theme("dark".to_string());
    assert_eq!(s.ui_preferences().theme, "dark");
    s.set_window_state(10, 20, -1, 2, true);
    assert_eq!(s.ui_preferences().window_width, 10);
    assert!(s.ui_preferences().maximized);
    assert_eq!(s.ui_preferences().theme, "dark");
    s.set_default_format(AudioFormat::Wav);
    s.set_default_bitrate(Bitrate::Kbps128);
    assert_eq!(s.config().default_format, AudioFormat::Wav);
    s.set_spotify_credentials("id".to_string(), "secret".to_string());
    assert_eq!(s.api_keys().spotify_client_id.as_deref(), Some("id"));
    s.set_cover_config(300, 300, "png".to_string());
    assert_eq!(s.config().cover_config.format, "png");
    s.toggle_advanced_options();
    assert!(s.ui_preferences().show_advanced_options);
    s.set_selected_browser("chrome".to_string());
    assert_eq!(s.get_selected_browser(), "chrome");
    s.set_download_directory("/x".to_string());
    assert_eq!(s.config().download_directory, "/x");
}

#[test]
fn toggles() {
    let mut s = settings();
    assert!(s.metadata_config().embed_title);
    s.toggle_metadata_field("title").unwrap();
    assert!(!s.metadata_config().embed_title);
    s.toggle_metadata_field("bpm").unwrap();
    assert!(s.metadata_config().embed_bpm);
    match s.toggle_metadata_field("colour") {
        Err(SpotifyDownloaderError::Config(m)) => assert_eq!(m, "Unknown metadata field: colour"),
        _ => panic!("unknown field"),
    }
    s.toggle_metadata_embedding();
    assert!(!s.metadata_config().embed_metadata);
    s.toggle_sponsorblock();
    assert!(!s.sponsorblock_config().enabled);
    s.toggle_cookies();
    assert!(!s.cookies_config().enabled);
}

#[test]
fn sponsorblock_category_toggle() {
    let mut s = settings();
    s.toggle_sponsorblock_category("intro".to_string());
    assert!(!s.sponsorblock_config().remove_categories.contains(&"intro".to_string()));
    assert_eq!(s.sponsorblock_config().remove_categories.len(), 6);
    s.toggle_sponsorblock_category("filler".to_string());
    assert_eq!(s.sponsorblock_config().remove_categories.last().map(|c| c.as_str()), Some("filler"));
}

#[test]
fn rate_limit_windows() {
    let mut r = RateLimit::new_at(2, 10, 100, 1_000);
    assert!(r.can_make_request());
    r.record_request();
    r.record_request();
    assert!(!r.can_make_request());
    r.update_limits_at(1_059);
    assert!(!r.can_make_request());
    r.update_limits_at(1_060);
    assert!(r.can_make_request());
    assert_eq!(r.current_hour_requests, 2);
    assert_eq!(r.last_reset_minute, 1_060);
    r.update_limits_at(10);
    assert_eq!(r.last_reset_minute, 1_060);
    let fresh = RateLimit::new(1, 1, 1);
    assert_eq!(fresh.current_day_requests, 0);
}

#[test]
fn durations() {
    assert_eq!(Utils::format_duration(3725), "1:02:05");
    assert_eq!(Utils::format_duration(65), "1:05");
    assert_eq!(Utils::format_duration(0), "0:00");
    assert_eq!(Utils::format_duration_ms(61_999), "1:01");
}

#[test]
fn extensions_and_relative_paths() {
    assert_eq!(Utils::get_file_extension("a/b.FLAC").as_deref(), Some("flac"));
    assert_eq!(Utils::get_file_extension("a/.hidden"), None);
    assert_eq!(Utils::get_file_extension("a/noext"), None);
    assert_eq!(Utils::get_relative_path("/m/tracks/x.mp3", "/m").unwrap(), "tracks/x.mp3");
    assert_eq!(Utils::get_relative_path("/m/tracks", "/m/").unwrap(), "tracks");
    assert_eq!(Utils::get_relative_path("/m", "/m").unwrap(), "");
    assert!(matches!(Utils::get_relative_path("/mx/y", "/m"), Err(SpotifyDownloaderError::Io(_))));
}

#[test]
fn numbered_names() {
    assert_eq!(Utils::numbered_filename("/d/song.mp3", 2), "/d/song (2).mp3");
    assert_eq!(Utils::numbered_filename("song", 1), "song (1)");
}

#[test]
fn stage_labels_and_errors() {
    assert_eq!(DownloadStage::SearchingSource.label(), "Searching Source");
    assert_eq!(SpotifyDownloaderError::Download("x".to_string()).to_message(), "Download error: x");
}

#[test]
fn extraction_tool_arguments() {
    let t = YtDlpDownloader::new();
    assert_eq!(t.executable_path, "yt-dlp");
    let mut proxy = ProxyConfig::default();
    let args = t.search_arguments("ytsearch1:q", &proxy);
    assert_eq!(args.len(), 18);
    assert_eq!(args[0], "ytsearch1:q");
    proxy.enabled = true;
    let args = t.search_arguments("q", &proxy);
    assert_eq!(&args[18..], &["--proxy".to_string(), "http://127.0.0.1:1080".to_string()]);
    let c = Config::with_download_directory("/d".to_string());
    let args = t.download_arguments("u", AudioFormat::Flac, Bitrate::Kbps256, "/o", "name", "/o/temp", &ProxyConfig::default(), &c.sponsorblock_config);
    assert_eq!(args[3], "flac");
    assert_eq!(args[5], "256");
    assert_eq!(args[7], "/o/name");
    assert_eq!(args[9], "temp:/o/temp");
    assert_eq!(args.last().unwrap(), "sponsor,intro,outro,preview,interaction,selfpromo,music_offtopic");
    assert_eq!(YtDlpDownloader::with_path("/bin/y".to_string()).executable_path, "/bin/y");
}

#[test]
fn iso_durations() {
    assert_eq!(parse_youtube_duration("PT1H2M3S"), Some(3723));
    assert_eq!(parse_youtube_duration("PT4M"), Some(240));
    assert_eq!(parse_youtube_duration("PT"), Some(0));
    assert_eq!(parse_youtube_duration("PT10"), Some(0));
    assert_eq!(parse_youtube_duration("1H"), None);
    assert_eq!(parse_youtube_duration("PT4294967296S"), Some(0));
    assert_eq!(parse_youtube_duration("PT1193047H"), None);
}

#[test]
fn url_helpers() {
    assert!(Utils::is_valid_url("https://open.spotify.com/track/x"));
    assert!(!Utils::is_valid_url("not a url"));
    assert_eq!(Utils::extract_domain("https://www.youtube.com/watch?v=1").as_deref(), Some("www.youtube.com"));
    assert_eq!(Utils::extract_domain("mailto:someone@example.org"), None);
    assert!(Utils::is_spotify_url("https://open.spotify.com/album/1"));
    assert!(Utils::is_youtube_url("https://youtu.be/abc"));
    assert!(!Utils::is_soundcloud_url("https://open.spotify.com/album/1"));
    assert!(Utils::is_soundcloud_url("https://soundcloud.com/a/b"));
    assert!(Utils::is_https("https://a.example"));
    assert!(!Utils::is_https("http://a.example"));
    assert!(!Utils::is_https("nonsense"));
}

#[test]
fn content_digest() {
    assert_eq!(Utils::content_hash(&Vec::new()), "d41d8cd98f00b204e9800998ecf8427e");
    assert_eq!(Utils::content_hash(&b"abc".to_vec()), "900150983cd24fb0d6963f7d28e17f72");
}
