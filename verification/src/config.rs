//! Configuration of the playback source, the lyrics index and the display.
use vstd::prelude::*;

verus! {

/// Credentials and polling of the playback service.
#[derive(Debug, PartialEq, Eq)]
pub struct SpotifyConfig {
    pub client_id: String,
    pub client_secret: String,
    pub redirect_uri: String,
    pub polling_interval_ms: u64,
}

/// Model of a [`SpotifyConfig`].
pub struct SpotifyConfigModel {
    pub client_id: Seq<char>,
    pub client_secret: Seq<char>,
    pub redirect_uri: Seq<char>,
    pub polling_interval_ms: u64,
}

impl View for SpotifyConfig {
    type V = SpotifyConfigModel;

    open spec fn view(&self) -> SpotifyConfigModel {
        SpotifyConfigModel {
            client_id: self.client_id@,
            client_secret: self.client_secret@,
            redirect_uri: self.redirect_uri@,
            polling_interval_ms: self.polling_interval_ms,
        }
    }
}

impl Clone for SpotifyConfig {
    fn clone(&self) -> (r: Self)
        ensures
            r@ == self@,
    {
        SpotifyConfig {
            client_id: self.client_id.clone(),
            client_secret: self.client_secret.clone(),
            redirect_uri: self.redirect_uri.clone(),
            polling_interval_ms: self.polling_interval_ms,
        }
    }
}

/// Where lyrics come from and how long they are kept.
#[derive(Debug, PartialEq, Eq)]
pub struct LyricsConfig {
    pub lrclib_base_url: String,
    pub cache_duration_hours: u64,
    pub fallback_sources: Vec<String>,
}

/// Model of a [`LyricsConfig`].
pub struct LyricsConfigModel {
    pub lrclib_base_url: Seq<char>,
    pub cache_duration_hours: u64,
    pub fallback_sources: Seq<Seq<char>>,
}

impl View for LyricsConfig {
    type V = LyricsConfigModel;

    open spec fn view(&self) -> LyricsConfigModel {
        LyricsConfigModel {
            lrclib_base_url: self.lrclib_base_url@,
            cache_duration_hours: self.cache_duration_hours,
            fallback_sources: crate::text::text_views(self.fallback_sources@),
        }
    }
}

/// Copies a list of texts.
pub fn clone_texts(texts: &Vec<String>) -> (r: Vec<String>)
    ensures
        crate::text::text_views(r@) == crate::text::text_views(texts@),
{
    let mut out: Vec<String> = Vec::new();
    let mut i: usize = 0;
    while i < texts.len()
        invariant
            i <= texts.len(),
            out.len() == i,
            forall|k: int| 0 <= k < i ==> out@[k]@ == texts@[k]@,
        decreases texts.len() - i,
    {
        out.push(texts[i].clone());
        i += 1;
    }
    assert(crate::text::text_views(out@) =~= crate::text::text_views(texts@));
    out
}

impl Clone for LyricsConfig {
    fn clone(&self) -> (r: Self)
        ensures
            r@ == self@,
    {
        LyricsConfig {
            lrclib_base_url: self.lrclib_base_url.clone(),
            cache_duration_hours: self.cache_duration_hours,
            fallback_sources: clone_texts(&self.fallback_sources),
        }
    }
}

/// How the display looks and where it stands.
#[derive(Debug, PartialEq, Eq)]
pub struct UiConfig {
    pub font_family: String,
    pub font_size: u32,
    pub theme: String,
    pub window_position: Option<(i32, i32)>,
    pub window_size: Option<(u32, u32)>,
}

/// Model of a [`UiConfig`].
pub struct UiConfigModel {
    pub font_family: Seq<char>,
    pub font_size: u32,
    pub theme: Seq<char>,
    pub window_position: Option<(i32, i32)>,
    pub window_size: Option<(u32, u32)>,
}

impl View for UiConfig {
    type V = UiConfigModel;

    open spec fn view(&self) -> UiConfigModel {
        UiConfigModel {
            font_family: self.font_family@,
            font_size: self.font_size,
            theme: self.theme@,
            window_position: self.window_position,
            window_size: self.window_size,
        }
    }
}

impl Clone for UiConfig {
    fn clone(&self) -> (r: Self)
        ensures
            r@ == self@,
    {
        UiConfig {
            font_family: self.font_family.clone(),
            font_size: self.font_size,
            theme: self.theme.clone(),
            window_position: self.window_position,
            window_size: self.window_size,
        }
    }
}

/// The whole configuration.
#[derive(Debug, PartialEq, Eq)]
pub struct AppConfig {
    pub spotify: SpotifyConfig,
    pub lyrics: LyricsConfig,
    pub ui: UiConfig,
}

/// Model of an [`AppConfig`].
pub struct AppConfigModel {
    pub spotify: SpotifyConfigModel,
    pub lyrics: LyricsConfigModel,
    pub ui: UiConfigModel,
}

impl View for AppConfig {
    type V = AppConfigModel;

    open spec fn view(&self) -> AppConfigModel {
        AppConfigModel { spotify: self.spotify@, lyrics: self.lyrics@, ui: self.ui@ }
    }
}

impl Clone for AppConfig {
    fn clone(&self) -> (r: Self)
        ensures
            r@ == self@,
    {
        AppConfig { spotify: self.spotify.clone(), lyrics: self.lyrics.clone(), ui: self.ui.clone() }
    }
}

/// The first of two optional texts that is there, or `fallback`.
pub open spec fn first_of(a: Option<Seq<char>>, b: Option<Seq<char>>, fallback: Seq<char>) -> Seq<
    char,
> {
    match a {
        Some(s) => s,
        None => match b {
            Some(s) => s,
            None => fallback,
        },
    }
}

/// The configuration that settings from the environment give: each
/// credential from its first setting that is there, everything else as
/// built in.
pub open spec fn configured(
    client_id: Option<Seq<char>>,
    client_id_alt: Option<Seq<char>>,
    client_secret: Option<Seq<char>>,
    client_secret_alt: Option<Seq<char>>,
    redirect_uri: Option<Seq<char>>,
) -> AppConfigModel {
    AppConfigModel {
        spotify: SpotifyConfigModel {
            client_id: first_of(client_id, client_id_alt, "your_client_id"@),
            client_secret: first_of(client_secret, client_secret_alt, "your_client_secret"@),
            redirect_uri: first_of(redirect_uri, None, "http://localhost:8080/callback"@),
            polling_interval_ms: 100,
        },
        lyrics: LyricsConfigModel {
            lrclib_base_url: "https://lrclib.net/api"@,
            cache_duration_hours: 24,
            fallback_sources: seq!["lrclib"@],
        },
        ui: UiConfigModel {
            font_family: "Segoe UI"@,
            font_size: 16,
            theme: "dark"@,
            window_position: None,
            window_size: Some((800u32, 600u32)),
        },
    }
}

/// The first of two optional texts that is there, or `fallback`.
fn pick(a: Option<String>, b: Option<String>, fallback: &str) -> (r: String)
    ensures
        r@ == first_of(
            crate::text::opt_text(a),
            crate::text::opt_text(b),
            fallback@,
        ),
{
    match a {
        Some(s) => s,
        None => match b {
            Some(s) => s,
            None => String::from_str(fallback),
        },
    }
}

impl AppConfig {
    /// The configuration that settings from the environment give.
    /// `client_id` and `client_secret` come before their alternatives.
    pub fn from_settings(
        client_id: Option<String>,
        client_id_alt: Option<String>,
        client_secret: Option<String>,
        client_secret_alt: Option<String>,
        redirect_uri: Option<String>,
    ) -> (r: AppConfig)
        ensures
            r@ == configured(
                crate::text::opt_text(client_id),
                crate::text::opt_text(client_id_alt),
                crate::text::opt_text(client_secret),
                crate::text::opt_text(client_secret_alt),
                crate::text::opt_text(redirect_uri),
            ),
    {
        let mut sources: Vec<String> = Vec::new();
        sources.push(String::from_str("lrclib"));
        assert(crate::text::text_views(sources@) =~= seq!["lrclib"@]);
        AppConfig {
            spotify: SpotifyConfig {
                client_id: pick(client_id, client_id_alt, "your_client_id"),
                client_secret: pick(client_secret, client_secret_alt, "your_client_secret"),
                redirect_uri: pick(redirect_uri, None, "http://localhost:8080/callback"),
                polling_interval_ms: 100,
            },
            lyrics: LyricsConfig {
                lrclib_base_url: String::from_str("https://lrclib.net/api"),
                cache_duration_hours: 24,
                fallback_sources: sources,
            },
            ui: UiConfig {
                font_family: String::from_str("Segoe UI"),
                font_size: 16,
                theme: String::from_str("dark"),
                window_position: None,
                window_size: Some((800, 600)),
            },
        }
    }
}

impl Default for AppConfig {
    /// The configuration where the environment sets nothing.
    fn default() -> (r: AppConfig)
        ensures
            r@ == configured(None, None, None, None, None),
    {
        AppConfig::from_settings(None, None, None, None, None)
    }
}

} // verus!
