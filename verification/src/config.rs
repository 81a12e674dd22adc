//! Configuration model and API-key resolution.
//!
//! Key precedence: the `api_key` saved in config.toml wins over the
//! `ELEVENLABS_API_KEY` environment variable, which is only a fallback;
//! with neither set there is no key. Reading the file and the environment
//! happens in the application shell, which hands the raw values in here.

use vstd::prelude::*;

use crate::text::{cat, has_prefix, is_blank, starts_with, trim, trim_str};

verus! {

/// The persisted configuration.
#[derive(Debug, Clone)]
pub struct AppConfig {
    /// API key saved with `config init` / `config set api_key`.
    pub api_key: Option<String>,
    /// Per-command defaults.
    pub defaults: Defaults,
    /// Self-update settings.
    pub update: UpdateConfig,
}

/// Per-command defaults.
#[derive(Debug, Clone)]
pub struct Defaults {
    pub voice_id: Option<String>,
    pub model_id: Option<String>,
    pub output_format: Option<String>,
    pub output_dir: Option<String>,
}

/// Self-update settings.
#[derive(Debug, Clone)]
pub struct UpdateConfig {
    pub enabled: bool,
    pub owner: String,
    pub repo: String,
}

impl Default for UpdateConfig {
    fn default() -> (r: Self)
        ensures
            r.enabled,
            r.owner@ == "199-biotechnologies"@,
            r.repo@ == "elevenlabs-cli"@,
    {
        UpdateConfig {
            enabled: true,
            owner: String::from_str("199-biotechnologies"),
            repo: String::from_str("elevenlabs-cli"),
        }
    }
}

impl Default for Defaults {
    fn default() -> (r: Self)
        ensures
            r.voice_id is None,
            r.model_id is None,
            r.output_format is None,
            r.output_dir is None,
    {
        Defaults { voice_id: None, model_id: None, output_format: None, output_dir: None }
    }
}

impl Default for AppConfig {
    fn default() -> (r: Self)
        ensures
            r.api_key is None,
            r.defaults.voice_id is None,
            r.defaults.model_id is None,
            r.defaults.output_format is None,
            r.defaults.output_dir is None,
            r.update.enabled,
            r.update.owner@ == "199-biotechnologies"@,
            r.update.repo@ == "elevenlabs-cli"@,
    {
        AppConfig {
            api_key: None,
            defaults: Defaults::default(),
            update: UpdateConfig::default(),
        }
    }
}

/// Where the effective API key came from.
#[derive(Debug, PartialEq, Eq, Structural, Clone, Copy)]
pub enum AuthSource {
    /// The environment variable.
    Env,
    /// `api_key` in config.toml.
    File,
    /// No key anywhere.
    Unset,
}

pub open spec fn auth_source_label(s: AuthSource) -> Seq<char> {
    match s {
        AuthSource::Env => "ELEVENLABS_API_KEY env var"@,
        AuthSource::File => "config file"@,
        AuthSource::Unset => "(unset)"@,
    }
}

impl AuthSource {
    /// Human label naming the source, for `config show` and auth hints.
    pub fn label(&self) -> (r: &'static str)
        ensures
            r@ == auth_source_label(*self),
    {
        match self {
            AuthSource::Env => "ELEVENLABS_API_KEY env var",
            AuthSource::File => "config file",
            AuthSource::Unset => "(unset)",
        }
    }
}

/// Both key sources, reported independently of precedence.
#[derive(Debug, Clone)]
pub struct AuthKeyState {
    /// The environment variable's value, trimmed, when set and non-empty.
    pub env_key: Option<String>,
    /// The saved key, trimmed, when present and not blank.
    pub file_key: Option<String>,
}

/// The trimmed text when it is not empty.
pub open spec fn nonblank_trimmed(s: Option<Seq<char>>) -> Option<Seq<char>> {
    match s {
        Some(v) => if trim(v).len() > 0 {
            Some(trim(v))
        } else {
            None
        },
        None => None,
    }
}

pub open spec fn opt_view(s: Option<String>) -> Option<Seq<char>> {
    match s {
        Some(v) => Some(v@),
        None => None,
    }
}

pub open spec fn opt_str_view(s: Option<&str>) -> Option<Seq<char>> {
    match s {
        Some(v) => Some(v@),
        None => None,
    }
}

/// The saved-key source: the key read from disk when there is one, else the
/// loaded config's value; trimmed, and kept only when not blank.
pub open spec fn saved_key(from_config: Option<Seq<char>>, on_disk: Option<Seq<char>>) -> Option<Seq<char>> {
    nonblank_trimmed(
        match on_disk {
            Some(d) => Some(d),
            None => from_config,
        },
    )
}

/// The trimmed text, as an owned string, when it is not empty.
pub fn nonblank_trimmed_string(s: Option<&str>) -> (r: Option<String>)
    ensures
        opt_view(r) == nonblank_trimmed(opt_str_view(s)),
{
    match s {
        Some(v) => {
            let t = trim_str(v);
            if t.unicode_len() > 0 {
                Some(String::from_str(t))
            } else {
                None
            }
        },
        None => None,
    }
}

/// Which source authenticates: the file wins over the env var.
pub open spec fn source_of(file_key: Option<Seq<char>>, env_key: Option<Seq<char>>) -> AuthSource {
    if file_key is Some {
        AuthSource::File
    } else if env_key is Some {
        AuthSource::Env
    } else {
        AuthSource::Unset
    }
}

/// The key that is sent: the file's, else the env var's.
pub open spec fn key_of(file_key: Option<Seq<char>>, env_key: Option<Seq<char>>) -> Option<Seq<char>> {
    if file_key is Some {
        file_key
    } else {
        env_key
    }
}

/// Both keys are set and differ once trimmed.
pub open spec fn env_ignored(env_key: Option<Seq<char>>, file_key: Option<Seq<char>>) -> bool {
    match (env_key, file_key) {
        (Some(e), Some(f)) => trim(e) != trim(f),
        _ => false,
    }
}

impl AuthKeyState {
    /// The state of both sources, from the raw environment value
    /// (`env_var`), the key found in config.toml on disk (`file_key_on_disk`)
    /// and the key of the loaded config (`file_key_from_config`). The disk
    /// value is preferred so that overlays applied while loading do not pass
    /// for a saved key.
    pub fn snapshot(
        file_key_from_config: Option<&str>,
        env_var: Option<&str>,
        file_key_on_disk: Option<&str>,
    ) -> (r: Self)
        ensures
            opt_view(r.env_key) == nonblank_trimmed(opt_str_view(env_var)),
            opt_view(r.file_key) == saved_key(
                opt_str_view(file_key_from_config),
                opt_str_view(file_key_on_disk),
            ),
    {
        let env_key = nonblank_trimmed_string(env_var);
        let chosen = match file_key_on_disk {
            Some(d) => Some(d),
            None => file_key_from_config,
        };
        let file_key = nonblank_trimmed_string(chosen);
        AuthKeyState { env_key, file_key }
    }

    /// Which source authenticates right now: the file wins over the env var.
    pub fn effective_source(&self) -> (r: AuthSource)
        ensures
            r == source_of(opt_view(self.file_key), opt_view(self.env_key)),
    {
        if self.file_key.is_some() {
            AuthSource::File
        } else if self.env_key.is_some() {
            AuthSource::Env
        } else {
            AuthSource::Unset
        }
    }

    /// The key that is sent (file wins over env).
    pub fn effective_key(&self) -> (r: Option<&str>)
        ensures
            opt_str_view(r) == key_of(opt_view(self.file_key), opt_view(self.env_key)),
    {
        match &self.file_key {
            Some(f) => Some(f.as_str()),
            None => match &self.env_key {
                Some(e) => Some(e.as_str()),
                None => None,
            },
        }
    }

    /// True iff both keys are set and differ once trimmed, so the env var is
    /// being ignored.
    pub fn env_ignored_by_file(&self) -> (r: bool)
        ensures
            r == env_ignored(opt_view(self.env_key), opt_view(self.file_key)),
    {
        match (&self.env_key, &self.file_key) {
            (Some(e), Some(f)) => !crate::text::str_eq(trim_str(e.as_str()), trim_str(f.as_str())),
            _ => false,
        }
    }
}

/// The saved key always wins over the env var, whatever the env var holds.
pub proof fn lemma_file_key_wins(file_key: Seq<char>, env_key: Option<Seq<char>>)
    ensures
        source_of(Some(file_key), env_key) == AuthSource::File,
        key_of(Some(file_key), env_key) == Some(file_key),
{
}

/// The reported source names the key that is sent: no key exactly when the
/// source is unset, the file's key when it is the file, the env var's when
/// it is the env var.
pub proof fn lemma_source_names_key(file_key: Option<Seq<char>>, env_key: Option<Seq<char>>)
    ensures
        (source_of(file_key, env_key) == AuthSource::Unset) == (key_of(file_key, env_key) is None),
        source_of(file_key, env_key) == AuthSource::File ==> key_of(file_key, env_key) == file_key,
        source_of(file_key, env_key) == AuthSource::Env ==> key_of(file_key, env_key) == env_key,
{
}

/// When the env var is reported as ignored, the file's key is the one sent
/// and it differs from the env var's.
pub proof fn lemma_ignored_env_not_sent(file_key: Option<Seq<char>>, env_key: Option<Seq<char>>)
    ensures
        env_ignored(env_key, file_key) ==> source_of(file_key, env_key) == AuthSource::File && key_of(file_key, env_key)
            == file_key && key_of(file_key, env_key) != env_key,
{
}

/// The key precedence: the saved key (trimmed) when not blank, else the
/// environment value (trimmed) when not blank, else none.
pub open spec fn resolved_key(saved: Option<Seq<char>>, env: Option<Seq<char>>) -> Option<Seq<char>> {
    match nonblank_trimmed(saved) {
        Some(k) => Some(k),
        None => nonblank_trimmed(env),
    }
}

/// A saved key that is not blank is sent (trimmed) whatever the env var
/// holds; otherwise the env var (trimmed) is sent when it is not blank.
pub proof fn lemma_saved_key_precedence(saved: Option<Seq<char>>, env: Option<Seq<char>>)
    ensures
        (saved matches Some(k) && !is_blank(k)) ==> resolved_key(saved, env) == Some(trim(saved->0)),
        !(saved matches Some(k) && !is_blank(k)) ==> resolved_key(saved, env) == nonblank_trimmed(env),
{
}

pub open spec fn trim_opt(k: Option<Seq<char>>) -> Option<Seq<char>> {
    match k {
        Some(v) => Some(trim(v)),
        None => None,
    }
}

/// Without a separate key on disk, the key that the key-state snapshot
/// reports as sent is, once trimmed, exactly the key `resolve_api_key`
/// sends for the same config and environment.
pub proof fn lemma_snapshot_agrees_with_resolution(saved: Option<Seq<char>>, env: Option<Seq<char>>)
    ensures
        trim_opt(key_of(saved_key(saved, None), nonblank_trimmed(env))) == resolved_key(saved, env),
{
    if let Some(e) = env {
        crate::text::lemma_trim_idempotent(e);
    }
    if let Some(v) = saved {
        crate::text::lemma_trim_idempotent(v);
    }
}

impl AppConfig {
    /// The API key to send: the config's `api_key` (trimmed) when it is not
    /// blank, else the environment value `env_var` (trimmed) when it is not
    /// blank.
    pub fn resolve_api_key(&self, env_var: Option<&str>) -> (r: Option<String>)
        ensures
            opt_view(r) == resolved_key(opt_view(self.api_key), opt_str_view(env_var)),
    {
        let saved = match &self.api_key {
            Some(k) => Some(k.as_str()),
            None => None,
        };
        match nonblank_trimmed_string(saved) {
            Some(k) => Some(k),
            None => nonblank_trimmed_string(env_var),
        }
    }

    /// Snapshot of both key sources for this config.
    pub fn auth_key_state(&self, env_var: Option<&str>, file_key_on_disk: Option<&str>) -> (r: AuthKeyState)
        ensures
            opt_view(r.env_key) == nonblank_trimmed(opt_str_view(env_var)),
            opt_view(r.file_key) == saved_key(opt_view(self.api_key), opt_str_view(file_key_on_disk)),
    {
        let saved = match &self.api_key {
            Some(k) => Some(k.as_str()),
            None => None,
        };
        AuthKeyState::snapshot(saved, env_var, file_key_on_disk)
    }

    /// Voice used when none is given.
    pub fn default_voice_id(&self) -> (r: String)
        ensures
            r@ == (match self.defaults.voice_id {
                Some(v) => v@,
                None => "cgSgspJ2msm6clMCkdW9"@,
            }),
    {
        match &self.defaults.voice_id {
            Some(v) => v.clone(),
            None => String::from_str("cgSgspJ2msm6clMCkdW9"),
        }
    }

    /// TTS model used when none is given.
    pub fn default_model_id(&self) -> (r: String)
        ensures
            r@ == (match self.defaults.model_id {
                Some(v) => v@,
                None => "eleven_multilingual_v2"@,
            }),
    {
        match &self.defaults.model_id {
            Some(v) => v.clone(),
            None => String::from_str("eleven_multilingual_v2"),
        }
    }

    /// Output format used when none is given.
    pub fn default_output_format(&self) -> (r: String)
        ensures
            r@ == (match self.defaults.output_format {
                Some(v) => v@,
                None => "mp3_44100_128"@,
            }),
    {
        match &self.defaults.output_format {
            Some(v) => v.clone(),
            None => String::from_str("mp3_44100_128"),
        }
    }
}

/// The config file path given by `ELEVENLABS_CLI_CONFIG` (raw value
/// `env_var`), trimmed, when it is not blank; otherwise the platform config
/// directory is used.
pub fn config_path_override(env_var: Option<&str>) -> (r: Option<String>)
    ensures
        opt_view(r) == nonblank_trimmed(opt_str_view(env_var)),
{
    nonblank_trimmed_string(env_var)
}

/// The string value of the top-level `key` of a TOML document, as the `toml`
/// crate parses it (`None` when the text is not a TOML document, has no such
/// key, or the value is not a string).
pub uninterp spec fn toml_top_level_string(text: Seq<char>, key: Seq<char>) -> Option<Seq<char>>;

/// Calls `toml::from_str::<toml::Value>` on the text, then `Value::get` with
/// the key, and keeps a `Value::String`. Trusted claim: the result is
/// `toml_top_level_string(text, key)`.
#[verifier::external_body]
fn toml_string_entry(text: &str, key: &str) -> (r: Option<String>)
    ensures
        opt_view(r) == toml_top_level_string(text@, key@),
{
    match toml::from_str::<toml::Value>(text) {
        Ok(doc) => match doc.get(key) {
            Some(toml::Value::String(s)) => Some(s.clone()),
            _ => None,
        },
        Err(_) => None,
    }
}

/// The `api_key` saved in a config.toml text, trimmed, when present and not
/// blank. Environment overlays play no part: this is the file's own value.
pub fn file_api_key(text: &str) -> (r: Option<String>)
    ensures
        opt_view(r) == nonblank_trimmed(toml_top_level_string(text@, "api_key"@)),
{
    match toml_string_entry(text, "api_key") {
        Some(v) => nonblank_trimmed_string(Some(v.as_str())),
        None => None,
    }
}


/// What `mask_secret` shows of a secret: at most its first two characters
/// when it is short, its first six and last four otherwise.
pub open spec fn masked(v: Seq<char>) -> Seq<char> {
    if v.len() == 0 {
        "(not set)"@
    } else if v.len() <= 8 {
        v.take(if v.len() < 2 { v.len() as int } else { 2 }) + "***"@
    } else {
        v.take(6) + "..."@ + v.skip(v.len() - 4)
    }
}

/// Masks a secret for display, keeping a prefix and a suffix only.
pub fn mask_secret(value: &str) -> (r: String)
    ensures
        r@ == masked(value@),
{
    let n = value.unicode_len();
    if n == 0 {
        return String::from_str("(not set)");
    }
    if n <= 8 {
        let k = if n < 2 { n } else { 2 };
        let prefix = value.substring_char(0, k);
        proof {
            assert(prefix@ =~= value@.take(k as int));
        }
        crate::text::cat(prefix, "***")
    } else {
        let prefix = value.substring_char(0, 6);
        let suffix = value.substring_char(n - 4, n);
        proof {
            assert(prefix@ =~= value@.take(6));
            assert(suffix@ =~= value@.skip(n - 4));
        }
        let head = crate::text::cat(prefix, "...");
        crate::text::cat(head.as_str(), suffix)
    }
}

/// The config entry an `ELEVENLABS_CLI_*` variable overlays, from its name
/// after the prefix (lower-cased): `defaults_<field>` is `defaults.<field>`
/// and `update_<field>` is `update.<field>`. Any other name overlays
/// nothing; the API key in particular never comes from this overlay.
pub open spec fn overlay_key(name: Seq<char>) -> Option<Seq<char>> {
    if has_prefix(name, "defaults_"@) && name.len() > "defaults_"@.len() {
        Some("defaults."@ + name.skip("defaults_"@.len() as int))
    } else if has_prefix(name, "update_"@) && name.len() > "update_"@.len() {
        Some("update."@ + name.skip("update_"@.len() as int))
    } else {
        None
    }
}

fn overlay_section(name: &str, section: &str, dotted: &str) -> (r: Option<String>)
    requires
        section@.len() > 0,
    ensures
        match r {
            Some(k) => has_prefix(name@, section@) && name@.len() > section@.len() && k@ == dotted@ + name@.skip(
                section@.len() as int,
            ),
            None => !(has_prefix(name@, section@) && name@.len() > section@.len()),
        },
{
    let n = name.unicode_len();
    let m = section.unicode_len();
    if starts_with(name, section) && n > m {
        let field = name.substring_char(m, n);
        proof {
            assert(field@ =~= name@.skip(m as int));
        }
        Some(cat(dotted, field))
    } else {
        None
    }
}

/// The config entry an overlay variable sets, as [`overlay_key`] states it.
pub fn env_overlay_key(name: &str) -> (r: Option<String>)
    ensures
        opt_view(r) == overlay_key(name@),
{
    proof {
        reveal_strlit("defaults_");
        reveal_strlit("update_");
    }
    match overlay_section(name, "defaults_", "defaults.") {
        Some(k) => Some(k),
        None => overlay_section(name, "update_", "update."),
    }
}

} // verus!
