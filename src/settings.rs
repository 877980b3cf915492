//! The settings a user edits, over the configuration they hold. Writing them
//! to disk is left to the caller.
use vstd::prelude::*;
use crate::config::{
    ApiKeys, AudioFormat, Bitrate, Config, CookiesConfig, MetadataConfig, SponsorBlockConfig,
    UiPreferences, names_view,
};
use crate::errors::SpotifyDownloaderError;
use crate::text::{chars_of, extend_str, string_of};

verus! {

/// The field flags after toggling the one named `field`, or none for a name
/// that is not a field.
pub open spec fn metadata_toggled(m: MetadataConfig, field: Seq<char>) -> Option<MetadataConfig> {
    if field == "title"@ {
        Some(MetadataConfig { embed_title: !m.embed_title, ..m })
    } else if field == "artist"@ {
        Some(MetadataConfig { embed_artist: !m.embed_artist, ..m })
    } else if field == "album"@ {
        Some(MetadataConfig { embed_album: !m.embed_album, ..m })
    } else if field == "album_artist"@ {
        Some(MetadataConfig { embed_album_artist: !m.embed_album_artist, ..m })
    } else if field == "track_number"@ {
        Some(MetadataConfig { embed_track_number: !m.embed_track_number, ..m })
    } else if field == "disc_number"@ {
        Some(MetadataConfig { embed_disc_number: !m.embed_disc_number, ..m })
    } else if field == "year"@ {
        Some(MetadataConfig { embed_year: !m.embed_year, ..m })
    } else if field == "genre"@ {
        Some(MetadataConfig { embed_genre: !m.embed_genre, ..m })
    } else if field == "lyrics"@ {
        Some(MetadataConfig { embed_lyrics: !m.embed_lyrics, ..m })
    } else if field == "cover"@ {
        Some(MetadataConfig { embed_cover: !m.embed_cover, ..m })
    } else if field == "duration"@ {
        Some(MetadataConfig { embed_duration: !m.embed_duration, ..m })
    } else if field == "bpm"@ {
        Some(MetadataConfig { embed_bpm: !m.embed_bpm, ..m })
    } else if field == "isrc"@ {
        Some(MetadataConfig { embed_isrc: !m.embed_isrc, ..m })
    } else {
        None
    }
}

/// `s` without any copy of `c`, in order.
pub open spec fn without(s: Seq<Seq<char>>, c: Seq<char>) -> Seq<Seq<char>>
    decreases s.len(),
{
    if s.len() == 0 {
        s
    } else if s.last() == c {
        without(s.drop_last(), c)
    } else {
        without(s.drop_last(), c).push(s.last())
    }
}

fn is(s: &String, lit: &str) -> (r: bool)
    ensures
        r == (s@ == lit@),
{
    *s == String::from_str(lit)
}

fn toggled_field(m: MetadataConfig, f: &String) -> (r: Option<MetadataConfig>)
    ensures
        r == metadata_toggled(m, f@),
{
    if is(f, "title") {
        Some(MetadataConfig { embed_title: !m.embed_title, ..m })
    } else if is(f, "artist") {
        Some(MetadataConfig { embed_artist: !m.embed_artist, ..m })
    } else if is(f, "album") {
        Some(MetadataConfig { embed_album: !m.embed_album, ..m })
    } else if is(f, "album_artist") {
        Some(MetadataConfig { embed_album_artist: !m.embed_album_artist, ..m })
    } else if is(f, "track_number") {
        Some(MetadataConfig { embed_track_number: !m.embed_track_number, ..m })
    } else if is(f, "disc_number") {
        Some(MetadataConfig { embed_disc_number: !m.embed_disc_number, ..m })
    } else if is(f, "year") {
        Some(MetadataConfig { embed_year: !m.embed_year, ..m })
    } else if is(f, "genre") {
        Some(MetadataConfig { embed_genre: !m.embed_genre, ..m })
    } else if is(f, "lyrics") {
        Some(MetadataConfig { embed_lyrics: !m.embed_lyrics, ..m })
    } else if is(f, "cover") {
        Some(MetadataConfig { embed_cover: !m.embed_cover, ..m })
    } else if is(f, "duration") {
        Some(MetadataConfig { embed_duration: !m.embed_duration, ..m })
    } else if is(f, "bpm") {
        Some(MetadataConfig { embed_bpm: !m.embed_bpm, ..m })
    } else if is(f, "isrc") {
        Some(MetadataConfig { embed_isrc: !m.embed_isrc, ..m })
    } else {
        None
    }
}

/// The application's settings.
#[derive(Debug, Clone)]
pub struct Settings {
    pub config: Config,
}

impl Settings {
    /// Settings over a loaded configuration.
    pub fn from_config(config: Config) -> (r: Self)
        ensures
            r.config == config,
    {
        Settings { config }
    }

    /// The default settings.
    pub fn default() -> (r: Self)
        ensures
            r.config.default_format == AudioFormat::Mp3,
            r.config.default_bitrate == Bitrate::Kbps320,
    {
        Settings { config: Config::default() }
    }

    pub fn config(&self) -> (r: &Config)
        ensures
            *r == self.config,
    {
        &self.config
    }

    pub fn set_download_directory(&mut self, path: String)
        ensures
            final(self).config == (Config { download_directory: path, ..old(self).config }),
    {
        self.config.download_directory = path;
    }

    pub fn set_default_format(&mut self, format: AudioFormat)
        ensures
            final(self).config == (Config { default_format: format, ..old(self).config }),
    {
        self.config.default_format = format;
    }

    pub fn set_default_bitrate(&mut self, bitrate: Bitrate)
        ensures
            final(self).config == (Config { default_bitrate: bitrate, ..old(self).config }),
    {
        self.config.default_bitrate = bitrate;
    }

    pub fn set_cover_config(&mut self, width: u32, height: u32, format: String)
        ensures
            final(self).config.cover_config.width == width,
            final(self).config.cover_config.height == height,
            final(self).config.cover_config.format == format,
            final(self).config == (Config {
                cover_config: final(self).config.cover_config,
                ..old(self).config
            }),
    {
        self.config.cover_config.width = width;
        self.config.cover_config.height = height;
        self.config.cover_config.format = format;
    }

    pub fn set_spotify_credentials(&mut self, client_id: String, client_secret: String)
        ensures
            final(self).config.api_keys == (ApiKeys {
                spotify_client_id: Some(client_id),
                spotify_client_secret: Some(client_secret),
                ..old(self).config.api_keys
            }),
            final(self).config == (Config { api_keys: final(self).config.api_keys, ..old(self).config }),
    {
        self.config.api_keys.spotify_client_id = Some(client_id);
        self.config.api_keys.spotify_client_secret = Some(client_secret);
    }

    pub fn set_musixmatch_api_key(&mut self, api_key: String)
        ensures
            final(self).config.api_keys == (ApiKeys {
                musixmatch_api_key: Some(api_key),
                ..old(self).config.api_keys
            }),
            final(self).config == (Config { api_keys: final(self).config.api_keys, ..old(self).config }),
    {
        self.config.api_keys.musixmatch_api_key = Some(api_key);
    }

    pub fn set_genius_access_token(&mut self, access_token: String)
        ensures
            final(self).config.api_keys == (ApiKeys {
                genius_access_token: Some(access_token),
                ..old(self).config.api_keys
            }),
            final(self).config == (Config { api_keys: final(self).config.api_keys, ..old(self).config }),
    {
        self.config.api_keys.genius_access_token = Some(access_token);
    }

    pub fn set_lastfm_credentials(&mut self, api_key: String, client_secret: String)
        ensures
            final(self).config.api_keys == (ApiKeys {
                lastfm_api_key: Some(api_key),
                lastfm_client_secret: Some(client_secret),
                ..old(self).config.api_keys
            }),
            final(self).config == (Config { api_keys: final(self).config.api_keys, ..old(self).config }),
    {
        self.config.api_keys.lastfm_api_key = Some(api_key);
        self.config.api_keys.lastfm_client_secret = Some(client_secret);
    }

    pub fn api_keys(&self) -> (r: &ApiKeys)
        ensures
            *r == self.config.api_keys,
    {
        &self.config.api_keys
    }

    pub fn set_ui_preferences(&mut self, preferences: UiPreferences)
        ensures
            final(self).config == (Config { ui_preferences: preferences, ..old(self).config }),
    {
        self.config.ui_preferences = preferences;
    }

    pub fn ui_preferences(&self) -> (r: &UiPreferences)
        ensures
            *r == self.config.ui_preferences,
    {
        &self.config.ui_preferences
    }

    pub fn set_window_state(&mut self, width: u32, height: u32, x: i32, y: i32, maximized: bool)
        ensures
            final(self).config.ui_preferences == (UiPreferences {
                window_width: width,
                window_height: height,
                window_x: x,
                window_y: y,
                maximized,
                ..old(self).config.ui_preferences
            }),
            final(self).config == (Config {
                ui_preferences: final(self).config.ui_preferences,
                ..old(self).config
            }),
    {
        self.config.ui_preferences.window_width = width;
        self.config.ui_preferences.window_height = height;
        self.config.ui_preferences.window_x = x;
        self.config.ui_preferences.window_y = y;
        self.config.ui_preferences.maximized = maximized;
    }

    pub fn set_theme(&mut self, theme: String)
        ensures
            final(self).config.ui_preferences == (UiPreferences {
                theme,
                ..old(self).config.ui_preferences
            }),
            final(self).config == (Config {
                ui_preferences: final(self).config.ui_preferences,
                ..old(self).config
            }),
    {
        self.config.ui_preferences.theme = theme;
    }

    pub fn toggle_advanced_options(&mut self)
        ensures
            final(self).config.ui_preferences == (UiPreferences {
                show_advanced_options: !old(self).config.ui_preferences.show_advanced_options,
                ..old(self).config.ui_preferences
            }),
            final(self).config == (Config {
                ui_preferences: final(self).config.ui_preferences,
                ..old(self).config
            }),
    {
        self.config.ui_preferences.show_advanced_options = !self.config.ui_preferences.show_advanced_options;
    }

    pub fn set_preferred_lyrics_source(&mut self, source: String)
        ensures
            final(self).config.ui_preferences == (UiPreferences {
                preferred_lyrics_source: source,
                ..old(self).config.ui_preferences
            }),
            final(self).config == (Config {
                ui_preferences: final(self).config.ui_preferences,
                ..old(self).config
            }),
    {
        self.config.ui_preferences.preferred_lyrics_source = source;
    }

    pub fn toggle_metadata_embedding(&mut self)
        ensures
            final(self).config == (Config {
                metadata_config: MetadataConfig {
                    embed_metadata: !old(self).config.metadata_config.embed_metadata,
                    ..old(self).config.metadata_config
                },
                ..old(self).config
            }),
    {
        self.config.metadata_config.embed_metadata = !self.config.metadata_config.embed_metadata;
    }

    /// Toggles the tag field named `field`; an unknown name is an error and
    /// changes nothing.
    pub fn toggle_metadata_field(&mut self, field: &str) -> (r: Result<(), SpotifyDownloaderError>)
        ensures
            match metadata_toggled(old(self).config.metadata_config, field@) {
                Some(m) => r is Ok && final(self).config == (Config {
                    metadata_config: m,
                    ..old(self).config
                }),
                None => final(self).config == old(self).config && (r matches Err(
                    SpotifyDownloaderError::Config(msg),
                ) && msg@ == "Unknown metadata field: "@ + field@),
            },
    {
        let f = String::from_str(field);
        match toggled_field(self.config.metadata_config, &f) {
            Some(m) => {
                self.config.metadata_config = m;
                Ok(())
            },
            None => {
                let mut v = chars_of("Unknown metadata field: ");
                extend_str(&mut v, field);
                Err(SpotifyDownloaderError::Config(string_of(&v)))
            },
        }
    }

    pub fn metadata_config(&self) -> (r: &MetadataConfig)
        ensures
            *r == self.config.metadata_config,
    {
        &self.config.metadata_config
    }

    pub fn sponsorblock_config(&self) -> (r: &SponsorBlockConfig)
        ensures
            *r == self.config.sponsorblock_config,
    {
        &self.config.sponsorblock_config
    }

    pub fn cookies_config(&self) -> (r: &CookiesConfig)
        ensures
            *r == self.config.cookies_config,
    {
        &self.config.cookies_config
    }

    pub fn toggle_sponsorblock(&mut self)
        ensures
            final(self).config.sponsorblock_config.enabled == !old(self).config.sponsorblock_config.enabled,
            final(self).config.sponsorblock_config.remove_categories == old(self).config.sponsorblock_config.remove_categories,
            final(self).config == (Config {
                sponsorblock_config: final(self).config.sponsorblock_config,
                ..old(self).config
            }),
    {
        self.config.sponsorblock_config.enabled = !self.config.sponsorblock_config.enabled;
    }

    /// Removes `category` from the removed segments if it is there (every
    /// copy of it), else adds it at the end.
    pub fn toggle_sponsorblock_category(&mut self, category: String)
        ensures
            final(self).config.sponsorblock_config.enabled == old(self).config.sponsorblock_config.enabled,
            names_view(final(self).config.sponsorblock_config.remove_categories@) == (if names_view(
                old(self).config.sponsorblock_config.remove_categories@,
            ).contains(category@) {
                without(names_view(old(self).config.sponsorblock_config.remove_categories@), category@)
            } else {
                names_view(old(self).config.sponsorblock_config.remove_categories@).push(category@)
            }),
            final(self).config == (Config {
                sponsorblock_config: final(self).config.sponsorblock_config,
                ..old(self).config
            }),
    {
        let cats = &self.config.sponsorblock_config.remove_categories;
        let ghost old_names = names_view(cats@);
        let mut kept: Vec<String> = Vec::new();
        let mut found = false;
        let mut i: usize = 0;
        while i < cats.len()
            invariant
                i <= cats@.len(),
                old_names == names_view(cats@),
                names_view(kept@) == without(old_names.take(i as int), category@),
                found == old_names.take(i as int).contains(category@),
            decreases cats@.len() - i,
        {
            let ghost before = kept@;
            assert(old_names.take(i + 1).drop_last() =~= old_names.take(i as int));
            assert(old_names.take(i + 1).last() == cats@[i as int]@);
            if cats[i] == category {
                found = true;
                assert(old_names.take(i + 1).contains(category@)) by {
                    assert(old_names.take(i + 1)[i as int] == category@);
                }
            } else {
                kept.push(cats[i].clone());
                assert(names_view(kept@) =~= names_view(before).push(cats@[i as int]@));
                assert(old_names.take(i + 1).contains(category@) == old_names.take(i as int).contains(category@)) by {
                    if old_names.take(i + 1).contains(category@) {
                        let k = choose|k: int| 0 <= k < i + 1 && #[trigger] old_names.take(i + 1)[k] == category@;
                        if k < i {
                            assert(old_names.take(i as int)[k] == category@);
                        }
                    }
                    if old_names.take(i as int).contains(category@) {
                        let k = choose|k: int| 0 <= k < i && #[trigger] old_names.take(i as int)[k] == category@;
                        assert(old_names.take(i + 1)[k] == category@);
                    }
                }
            }
            i = i + 1;
        }
        assert(old_names.take(i as int) =~= old_names);
        if found {
            self.config.sponsorblock_config.remove_categories = kept;
        } else {
            let ghost before = self.config.sponsorblock_config.remove_categories@;
            self.config.sponsorblock_config.remove_categories.push(category);
            assert(names_view(self.config.sponsorblock_config.remove_categories@) =~= names_view(before).push(category@));
        }
    }

    pub fn toggle_cookies(&mut self)
        ensures
            final(self).config.cookies_config.enabled == !old(self).config.cookies_config.enabled,
            final(self).config.cookies_config.browsers == old(self).config.cookies_config.browsers,
            final(self).config == (Config {
                cookies_config: final(self).config.cookies_config,
                ..old(self).config
            }),
    {
        self.config.cookies_config.enabled = !self.config.cookies_config.enabled;
    }

    /// Records the chosen browser; it is kept in the lyrics source field.
    pub fn set_selected_browser(&mut self, browser: String)
        ensures
            final(self).config.ui_preferences == (UiPreferences {
                preferred_lyrics_source: browser,
                ..old(self).config.ui_preferences
            }),
            final(self).config == (Config {
                ui_preferences: final(self).config.ui_preferences,
                ..old(self).config
            }),
    {
        self.config.ui_preferences.preferred_lyrics_source = browser;
    }

    /// The chosen browser.
    pub fn get_selected_browser(&self) -> (r: String)
        ensures
            r == self.config.ui_preferences.preferred_lyrics_source,
    {
        self.config.ui_preferences.preferred_lyrics_source.clone()
    }
}

} // verus!
