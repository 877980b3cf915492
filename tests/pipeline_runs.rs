use spotify_downloader::config::AudioFormat;
use spotify_downloader::pipeline::{Action, DownloadStage, Outcome, SearchCache, StageUpdate, TrackRun};
use spotify_downloader::scheduler::BatchScheduler;
use spotify_downloader::search::SearchResult;
use spotify_downloader::track::{DownloadOptions, DownloadTaskResult, TrackMetadata};

fn track(id: &str) -> TrackMetadata {
    TrackMetadata {
        id: id.to_string(),
        title: format!("Song {}", id),
        artist: "Band".to_string(),
        album: "Record".to_string(),
        ..Default::default()
    }
}

fn hit(url: &str) -> SearchResult {
    SearchResult {
        title: "Band - Song".to_string(),
        url: url.to_string(),
        duration: Some(200),
        uploader: None,
        view_count: 1,
        platform: "YouTube".to_string(),
        thumbnail: None,
    }
}

fn rank(s: DownloadStage) -> u32 {
    match s {
        DownloadStage::Queued => 0,
        DownloadStage::FetchingMetadata => 1,
        DownloadStage::SearchingSource => 2,
        DownloadStage::DownloadingAudio => 3,
        DownloadStage::ConvertingAudio => 4,
        DownloadStage::DownloadingCover => 5,
        DownloadStage::DownloadingLyrics => 6,
        DownloadStage::EmbeddingMetadata => 7,
        DownloadStage::Completed => 8,
        DownloadStage::Error => 9,
    }
}

/// Drives a run with a fixed answer for each action.
fn drive(run: &mut TrackRun, fetch_ok: bool, cover: bool, lyrics: bool) -> (Vec<StageUpdate>, Action, Vec<(bool, bool)>) {
    let mut updates = Vec::new();
    let mut embeds = Vec::new();
    let mut outcome = Outcome::Begin;
    loop {
        let step = run.advance(outcome);
        updates.extend(step.updates);
        outcome = match step.action {
            Action::Search { .. } => Outcome::Searched(Ok(vec![hit("https://youtube.com/watch?v=1")])),
            Action::SecondarySearch { .. } => Outcome::Searched(Ok(Vec::new())),
            Action::CheckTool => Outcome::ToolChecked(false),
            Action::Fetch { .. } | Action::GenericFetch { .. } => {
                if fetch_ok { Outcome::Fetched(Ok(())) } else { Outcome::Fetched(Err("boom".to_string())) }
            }
            Action::Convert { .. } => Outcome::Converted(Ok(())),
            Action::Enrich { .. } => Outcome::Enriched { cover, lyrics },
            Action::Embed { cover, lyrics, .. } => {
                embeds.push((cover, lyrics));
                Outcome::Embedded(Ok(()))
            }
            Action::SaveCover { .. } => Outcome::CoverSaved(false),
            other => return (updates, other, embeds),
        };
    }
}

#[test]
fn stages_move_forward_on_success() {
    let options = DownloadOptions::with_output_dir("/out".to_string());
    let mut run = TrackRun::new(&track("1"), &options);
    let (updates, last, _) = drive(&mut run, true, true, true);
    match last {
        Action::Finish { path } => assert_eq!(path, "/out/tracks/Band - Song 1.mp3"),
        _ => panic!("the run should finish"),
    }
    let stages: Vec<DownloadStage> = updates.iter().map(|u| u.stage).collect();
    assert_eq!(
        stages,
        vec![
            DownloadStage::SearchingSource,
            DownloadStage::DownloadingAudio,
            DownloadStage::ConvertingAudio,
            DownloadStage::DownloadingCover,
            DownloadStage::EmbeddingMetadata,
            DownloadStage::Completed,
        ]
    );
    for w in updates.windows(2) {
        assert!(rank(w[0].stage) <= rank(w[1].stage));
        assert!(w[0].percent <= w[1].percent);
    }
    assert_eq!(updates.last().unwrap().percent, 100);
}

#[test]
fn enrichment_failure_is_not_fatal() {
    let options = DownloadOptions::with_output_dir("/out".to_string());
    let mut run = TrackRun::new(&track("2"), &options);
    let (updates, last, embeds) = drive(&mut run, true, false, false);
    assert!(matches!(last, Action::Finish { .. }));
    assert_eq!(embeds, vec![(false, false)]);
    assert_eq!(updates.last().unwrap().stage, DownloadStage::Completed);
}

#[test]
fn failed_fetch_exhausts_fallbacks_then_fails() {
    let options = DownloadOptions::with_output_dir("/out".to_string());
    let mut run = TrackRun::new(&track("3"), &options);
    let (updates, last, _) = drive(&mut run, false, true, true);
    match last {
        Action::Fail { message } => assert_eq!(message, "No audio source found"),
        _ => panic!("the run should fail"),
    }
    assert_eq!(updates.last().unwrap().stage, DownloadStage::Error);
}

#[test]
fn empty_search_is_a_hard_stop() {
    let options = DownloadOptions::with_output_dir("/out".to_string());
    let mut run = TrackRun::new(&track("4"), &options);
    run.advance(Outcome::Begin);
    let step = run.advance(Outcome::Searched(Ok(Vec::new())));
    match step.action {
        Action::Fail { message } => assert_eq!(message, "No results found for this track"),
        _ => panic!("an empty search ends the run"),
    }
    let after = run.advance(Outcome::Fetched(Ok(())));
    assert!(matches!(after.action, Action::Idle));
    assert!(after.updates.is_empty());
}

#[test]
fn search_error_message_carries_detail() {
    let options = DownloadOptions::with_output_dir("/out".to_string());
    let mut run = TrackRun::new(&track("5"), &options);
    run.advance(Outcome::Begin);
    let step = run.advance(Outcome::Searched(Err("timeout".to_string())));
    match step.action {
        Action::Fail { message } => assert_eq!(message, "Search failed: timeout"),
        _ => panic!("a failed search ends the run"),
    }
    assert_eq!(step.updates[0].stage, DownloadStage::Error);
    assert_eq!(step.updates[0].message, "Search failed: timeout");
}

#[test]
fn fetch_uses_top_candidate() {
    let options = DownloadOptions::with_output_dir("/out".to_string());
    let mut run = TrackRun::new(&track("6"), &options);
    let first = run.advance(Outcome::Begin);
    match first.action {
        Action::Search { query } => assert_eq!(query, "Band Song 6"),
        _ => panic!("a run starts with a search"),
    }
    let step = run.advance(Outcome::Searched(Ok(vec![hit("u1"), hit("u2")])));
    match step.action {
        Action::Fetch { url, output_path } => {
            assert_eq!(url, "u1");
            assert_eq!(output_path, "/out/tracks/Band - Song 6.mp3");
        }
        _ => panic!("a hit is fetched"),
    }
}

#[test]
fn no_enrichment_no_embed_goes_straight_to_completion() {
    let mut options = DownloadOptions::with_output_dir("/out".to_string());
    options.download_cover = false;
    options.download_lyrics = false;
    options.embed_metadata = false;
    options.format = AudioFormat::Wav;
    let mut run = TrackRun::new(&track("7"), &options);
    let (updates, last, embeds) = drive(&mut run, true, true, true);
    assert!(matches!(last, Action::Finish { .. }));
    assert!(embeds.is_empty());
    let stages: Vec<DownloadStage> = updates.iter().map(|u| u.stage).collect();
    assert_eq!(
        stages,
        vec![DownloadStage::SearchingSource, DownloadStage::DownloadingAudio, DownloadStage::ConvertingAudio, DownloadStage::Completed]
    );
}

#[test]
fn batch_isolates_a_failing_track() {
    let tracks: Vec<TrackMetadata> = (1..=5).map(|i| track(&i.to_string())).collect();
    let mut batch = BatchScheduler::new(5, 5);
    let started = batch.grant_slots();
    assert_eq!(started, vec![0, 1, 2, 3, 4]);
    for i in started {
        let result = if i == 2 {
            DownloadTaskResult::failed(tracks[i].clone(), "fetch failed".to_string())
        } else {
            DownloadTaskResult::succeeded(tracks[i].clone(), format!("/out/{}.mp3", i))
        };
        batch.complete(i, result);
    }
    assert!(batch.is_done());
    let results = batch.into_results();
    assert_eq!(results.len(), 5);
    assert_eq!(results.iter().filter(|r| !r.success).count(), 1);
    assert!(!results[2].success);
    for (i, r) in results.iter().enumerate() {
        assert_eq!(r.track.id, tracks[i].id);
        if i != 2 {
            assert_eq!(r.output_path.as_deref(), Some(format!("/out/{}.mp3", i).as_str()));
        }
    }
}

#[test]
fn concurrency_never_exceeds_limit() {
    let mut batch = BatchScheduler::new(5, 2);
    let mut running: Vec<usize> = batch.grant_slots();
    assert_eq!(running, vec![0, 1]);
    let mut peak = running.len();
    let mut order = running.clone();
    while let Some(i) = running.first().copied() {
        running.remove(0);
        batch.complete(i, DownloadTaskResult::succeeded(track("x"), String::new()));
        let more = batch.grant_slots();
        order.extend(more.iter().copied());
        running.extend(more);
        peak = peak.max(running.len());
        assert!(batch.running <= 2);
    }
    assert_eq!(peak, 2);
    assert_eq!(order, vec![0, 1, 2, 3, 4]);
    assert!(batch.is_done());
}

#[test]
fn search_cache_exact_key() {
    let mut cache = SearchCache::new();
    cache.remember("a b".to_string(), vec![hit("u")]);
    cache.remember("empty".to_string(), Vec::new());
    assert_eq!(cache.get(&"a b".to_string()).map(|v| v.len()), Some(1));
    assert!(cache.get(&"A B".to_string()).is_none());
    assert!(cache.get(&"empty".to_string()).is_none());
    cache.remember("a b".to_string(), vec![hit("u"), hit("v")]);
    assert_eq!(cache.get(&"a b".to_string()).map(|v| v.len()), Some(2));
    assert_eq!(cache.entries.len(), 1);
}
