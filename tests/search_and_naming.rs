use spotify_downloader::config::AudioFormat;
use spotify_downloader::naming::{cover_path, format_artists_for_filename, lyrics_sidecar_path, output_path, sanitize_filename};
use spotify_downloader::search::{
    candidate_from_fields, search_target_for, Platform, SearchResult, SearchStep, TieredSearch, YoutubeDownloader,
};
use spotify_downloader::utils::Utils;

fn candidate(title: &str, duration: Option<u32>, views: u64) -> SearchResult {
    SearchResult {
        title: title.to_string(),
        url: format!("https://youtube.com/watch?v={}", views),
        duration,
        uploader: None,
        view_count: views,
        platform: "YouTube".to_string(),
        thumbnail: None,
    }
}

#[test]
fn duration_filter_bounds() {
    let yt = YoutubeDownloader::new();
    assert!(!yt.is_valid_duration(Some(60)));
    assert!(yt.is_valid_duration(Some(61)));
    assert!(yt.is_valid_duration(Some(960)));
    assert!(!yt.is_valid_duration(Some(961)));
    assert!(yt.is_valid_duration(None));
    assert!(!yt.is_valid_duration(Some(0)));
}

#[test]
fn content_filter_examples() {
    let yt = YoutubeDownloader::new();
    assert!(!yt.is_track("Artist - Full Album (2020)"));
    assert!(yt.is_track("Artist - Song Title"));
    assert!(!yt.is_track("A - B - C"));
    assert!(!yt.is_track("Some Song 1:23:45"));
}

#[test]
fn content_filter_ignores_case() {
    let yt = YoutubeDownloader::new();
    assert!(!yt.is_track("GREATEST HITS"));
    assert!(!yt.is_track("Live ALBUM"));
    assert!(yt.is_track("Artist - Song (Official Video)"));
}

#[test]
fn content_filter_short_timestamp_is_fine() {
    let yt = YoutubeDownloader::new();
    assert!(yt.is_track("Artist - Song 3:45"));
}

#[test]
fn filter_and_rank_orders_by_views() {
    let yt = YoutubeDownloader::new();
    let ranked = yt.filter_and_rank(vec![
        candidate("Artist - One", Some(200), 10),
        candidate("Artist - Full Album", Some(200), 1000),
        candidate("Artist - Two", Some(30), 500),
        candidate("Artist - Three", None, 50),
        candidate("Artist - Four", Some(300), 20),
    ]);
    let views: Vec<u64> = ranked.iter().map(|r| r.view_count).collect();
    assert_eq!(views, vec![50, 20, 10]);
}

#[test]
fn filter_and_rank_empty() {
    let yt = YoutubeDownloader::new();
    assert!(yt.filter_and_rank(Vec::new()).is_empty());
}

#[test]
fn narrow_primary_hit_stops_the_search() {
    let yt = YoutubeDownloader::new();
    let mut search = TieredSearch::new();
    assert_eq!(search.current_query(), (Platform::YouTube, 1));
    let step = search.record(Ok(vec![candidate("Artist - Song", Some(200), 5)]), &yt);
    match step {
        SearchStep::Finished(v) => assert_eq!(v.len(), 1),
        SearchStep::Query { .. } => panic!("a hit on the first tier must end the search"),
    }
    assert!(search.finished);
    assert_eq!(search.tier, 0);
}

#[test]
fn empty_tiers_escalate_in_order() {
    let yt = YoutubeDownloader::new();
    let mut search = TieredSearch::new();
    let mut asked = vec![search.current_query()];
    loop {
        match search.record(Err("offline".to_string()), &yt) {
            SearchStep::Query { platform, count } => asked.push((platform, count)),
            SearchStep::Finished(v) => {
                assert!(v.is_empty());
                break;
            }
        }
    }
    assert_eq!(
        asked,
        vec![(Platform::YouTube, 1), (Platform::YouTube, 5), (Platform::SoundCloud, 1), (Platform::SoundCloud, 5)]
    );
}

#[test]
fn raw_hit_that_fails_filters_still_stops() {
    let yt = YoutubeDownloader::new();
    let mut search = TieredSearch::new();
    match search.record(Ok(vec![candidate("Full Album", Some(3000), 5)]), &yt) {
        SearchStep::Finished(v) => assert!(v.is_empty()),
        SearchStep::Query { .. } => panic!("the tier returned a result"),
    }
}

#[test]
fn search_target_text() {
    assert_eq!(search_target_for(Platform::YouTube, 10, "a b"), "ytsearch5:a b");
    assert_eq!(search_target_for(Platform::YouTube, 1, "a b"), "ytsearch1:a b");
    assert_eq!(search_target_for(Platform::SoundCloud, 12, "q"), "scsearch12:q");
}

#[test]
fn soundcloud_candidate_url_is_lowercased_slug() {
    let r = candidate_from_fields(
        Platform::SoundCloud,
        None,
        Some("123".to_string()),
        Some(200),
        Some("Big Band Name".to_string()),
        None,
        None,
        None,
    );
    assert_eq!(r.url, "https://soundcloud.com/big-band-name/123");
    assert_eq!(r.title, "Unknown Title");
    assert_eq!(r.view_count, 0);
    assert_eq!(r.platform, "SoundCloud");
    assert_eq!(r.duration, Some(200));
}

#[test]
fn youtube_candidate_url_falls_back_to_watch_page() {
    let r = candidate_from_fields(Platform::YouTube, Some("T".to_string()), Some("abc".to_string()), None, None, Some(7), None, None);
    assert_eq!(r.url, "https://youtube.com/watch?v=abc");
    let r = candidate_from_fields(
        Platform::YouTube,
        Some("T".to_string()),
        Some("abc".to_string()),
        Some(u64::from(u32::MAX) + 5),
        None,
        Some(7),
        None,
        Some("https://example.org/v".to_string()),
    );
    assert_eq!(r.url, "https://example.org/v");
    assert_eq!(r.duration, Some(4));
}

#[test]
fn sanitize_examples() {
    assert_eq!(sanitize_filename("Foo: Bar/Baz?"), "Foo_ Bar_Baz_");
    assert_eq!(sanitize_filename("A; B"), "A, B");
    assert_eq!(sanitize_filename("  <x>|\"*\\  "), "_x_____");
    assert_eq!(Utils::sanitize_filename(""), "");
}

#[test]
fn artists_separator_becomes_comma() {
    assert_eq!(format_artists_for_filename("A x B"), "A , B");
    assert_eq!(format_artists_for_filename("  Solo   Artist "), "Solo Artist");
    assert_eq!(format_artists_for_filename("X"), ",");
}

#[test]
fn layout_of_written_files() {
    assert_eq!(output_path("/music", "A x B", "Song", AudioFormat::Mp3), "/music/tracks/A , B - Song.mp3");
    assert_eq!(output_path("/m", "Band", "Y: Z", AudioFormat::Flac), "/m/tracks/Band - Y_ Z.flac");
    assert_eq!(cover_path("/m", "Band", "Y", "PNG"), "/m/covers/Band - Y.png");
    assert_eq!(cover_path("/m", "Band", "Y", "jpeg"), "/m/covers/Band - Y.jpg");
    assert_eq!(cover_path("/m", "Band", "Y", "bmp"), "/m/covers/Band - Y.jpg");
    assert_eq!(lyrics_sidecar_path("/m/tracks/X - Y.flac", true), "/m/tracks/lyrics/X - Y.lrc");
    assert_eq!(lyrics_sidecar_path("/m/tracks/X - Y.flac", false), "/m/tracks/lyrics/X - Y.txt");
}

#[test]
fn ranking_keeps_order_of_equal_counts() {
    let yt = YoutubeDownloader::new();
    let ranked = yt.filter_and_rank(vec![
        candidate("Artist - First", Some(200), 7),
        candidate("Artist - Second", Some(200), 9),
        candidate("Artist - Third", Some(200), 7),
    ]);
    let titles: Vec<&str> = ranked.iter().map(|r| r.title.as_str()).collect();
    assert_eq!(titles, vec!["Artist - Second", "Artist - First", "Artist - Third"]);
}
