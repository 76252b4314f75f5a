//! Configuration resolver: computes the effective storage locations and
//! mode from a layered source — environment overrides first, then a
//! settings document, then compiled-in defaults.  Resolution never fails;
//! every missing or unreadable input falls back to the next layer.
//!
//! All file and environment reading happens outside this library; callers
//! hand in an [`EnvSnapshot`] of plain values and get back an exactly
//! specified [`AppConfig`].

use vstd::prelude::*;
use crate::text::{join_path, join_path_spec, str_eq};

verus! {

/// Where the vault and its capture/media subdirectories live.
#[derive(Debug, Clone)]
pub struct VaultConfig {
    pub path: String,
    pub capture_dir: String,
    pub media_dir: String,
}

/// Settings consumed by the surrounding user interface.
#[derive(Debug, Clone)]
pub struct UiConfig {
    pub clipboard_poll_ms: Option<u64>,
}

/// Where the suggestion index database lives.
#[derive(Debug, Clone)]
pub struct DatabaseConfig {
    pub path: String,
}

/// The effective, fully resolved configuration.  The `capture`,
/// `keybindings` and `theme` sections are opaque to this library and are
/// carried through as their serialized text.
#[derive(Debug, Clone)]
pub struct AppConfig {
    pub vault: VaultConfig,
    pub database: DatabaseConfig,
    pub ui: UiConfig,
    pub capture: String,
    pub keybindings: String,
    pub theme: String,
    pub mode: String,
    pub is_dev: bool,
}

/// The fields of the settings document that this library consumes, as
/// plain optional values; absent fields fall back to defaults.
#[derive(Debug, Clone)]
pub struct Settings {
    pub vault_path: Option<String>,
    pub capture_dir: Option<String>,
    pub media_dir: Option<String>,
    pub db_path: Option<String>,
    pub clipboard_poll_ms: Option<u64>,
    pub dev_mode: Option<String>,
    pub capture_text: Option<String>,
    pub keybindings_text: Option<String>,
    pub theme_text: Option<String>,
}

impl Settings {
    /// The settings of an absent or unreadable document: everything falls
    /// back to defaults.
    pub fn empty() -> (r: Settings)
        ensures
            r.vault_path is None,
            r.capture_dir is None,
            r.media_dir is None,
            r.db_path is None,
            r.clipboard_poll_ms is None,
            r.dev_mode is None,
            r.capture_text is None,
            r.keybindings_text is None,
            r.theme_text is None,
    {
        Settings {
            vault_path: None,
            capture_dir: None,
            media_dir: None,
            db_path: None,
            clipboard_poll_ms: None,
            dev_mode: None,
            capture_text: None,
            keybindings_text: None,
            theme_text: None,
        }
    }
}

/// The mathematical view of a settings record: each field as its text.
pub struct SettingsView {
    pub vault_path: Option<Seq<char>>,
    pub capture_dir: Option<Seq<char>>,
    pub media_dir: Option<Seq<char>>,
    pub db_path: Option<Seq<char>>,
    pub clipboard_poll_ms: Option<u64>,
    pub dev_mode: Option<Seq<char>>,
    pub capture_text: Option<Seq<char>>,
    pub keybindings_text: Option<Seq<char>>,
    pub theme_text: Option<Seq<char>>,
}

impl View for Settings {
    type V = SettingsView;

    open spec fn view(&self) -> SettingsView {
        SettingsView {
            vault_path: self.vault_path.deep_view(),
            capture_dir: self.capture_dir.deep_view(),
            media_dir: self.media_dir.deep_view(),
            db_path: self.db_path.deep_view(),
            clipboard_poll_ms: self.clipboard_poll_ms,
            dev_mode: self.dev_mode.deep_view(),
            capture_text: self.capture_text.deep_view(),
            keybindings_text: self.keybindings_text.deep_view(),
            theme_text: self.theme_text.deep_view(),
        }
    }
}

/// Everything the resolver reads from the process environment, gathered
/// by the caller: override variables, the user's home directory, the
/// working directory and its ancestors (nearest first) with a flag per
/// entry saying whether a settings file stands there, and the text of the
/// candidate settings files.
#[derive(Debug, Clone)]
pub struct EnvSnapshot {
    pub config_path: Option<String>,
    pub vault_path: Option<String>,
    pub db_path: Option<String>,
    pub data_dir: Option<String>,
    pub xdg_data_home: Option<String>,
    pub home_dir: Option<String>,
    pub cwd_chain: Vec<String>,
    pub settings_found: Vec<bool>,
    pub override_text: Option<String>,
    pub root_text: Option<String>,
}

/// A snapshot is well formed when each walked directory has its flag.
pub open spec fn env_wf(env: EnvSnapshot) -> bool {
    env.cwd_chain@.len() == env.settings_found@.len()
}

/// An environment with no overrides at all: every resolution falls back
/// to the settings document or to compiled-in defaults.
pub open spec fn env_no_overrides(env: EnvSnapshot) -> bool {
    &&& env.config_path is None
    &&& env.vault_path is None
    &&& env.db_path is None
    &&& env.data_dir is None
}

// ---------------------------------------------------------------------
// Repository root discovery
// ---------------------------------------------------------------------

/// Index of the last `/` of `p`, or `-1` if there is none.
pub open spec fn last_slash(p: Seq<char>) -> int
    decreases p.len(),
{
    if p.len() == 0 {
        -1
    } else if p[p.len() - 1] == '/' {
        p.len() - 1
    } else {
        last_slash(p.drop_last())
    }
}

/// The directory that holds `p`: the text before the last separator,
/// `/` when that separator leads, `.` when there is none.
pub open spec fn parent_dir_spec(p: Seq<char>) -> Seq<char> {
    if last_slash(p) < 0 {
        "."@
    } else if last_slash(p) == 0 {
        "/"@
    } else {
        p.take(last_slash(p))
    }
}

proof fn lemma_last_slash_take(p: Seq<char>, k: int)
    requires
        0 <= k <= p.len(),
        forall|i: int| k <= i < p.len() ==> p[i] != '/',
    ensures
        last_slash(p) == last_slash(p.take(k)),
    decreases p.len() - k,
{
    if k < p.len() {
        assert(p[p.len() - 1] != '/');
        assert(p.drop_last() =~= p.take(p.len() - 1));
        assert(forall|i: int| k <= i < p.len() - 1 ==> p.take(p.len() - 1)[i] == p[i]);
        lemma_last_slash_take(p.take(p.len() - 1), k);
        assert(p.take(p.len() - 1).take(k) =~= p.take(k));
    } else {
        assert(p.take(k) =~= p);
    }
}

/// The directory holding the entry at path `p`.
pub fn parent_dir(p: &str) -> (r: String)
    ensures
        r@ == parent_dir_spec(p@),
{
    let n = p.unicode_len();
    let mut k: usize = n;
    while k > 0 && p.get_char(k - 1) != '/'
        invariant
            0 <= k <= n == p@.len(),
            forall|i: int| k <= i < n ==> p@[i] != '/',
        decreases k,
    {
        k = k - 1;
    }
    proof {
        lemma_last_slash_take(p@, k as int);
    }
    if k == 0 {
        proof {
            assert(p@.take(0) =~= Seq::<char>::empty());
            assert(last_slash(p@) == -1);
        }
        ".".to_owned()
    } else {
        proof {
            assert(p@.take(k as int).drop_last() =~= p@.take(k as int - 1));
            assert(last_slash(p@) == k - 1);
        }
        if k == 1 {
            "/".to_owned()
        } else {
            let r = p.substring_char(0, k - 1);
            proof {
                assert(p@.subrange(0, k - 1) =~= p@.take(k as int - 1));
            }
            r.to_owned()
        }
    }
}

/// The repository root chosen from the walked directories: the first of
/// at most four levels that holds a settings file, else the last
/// directory walked, else the working directory itself (`.`).
pub open spec fn pick_from(chain: Seq<Seq<char>>, found: Seq<bool>, i: int) -> Seq<char>
    decreases 4 - i,
{
    if 0 <= i < chain.len() && i < 4 {
        if found[i] {
            chain[i]
        } else {
            pick_from(chain, found, i + 1)
        }
    } else if chain.len() > 0 {
        chain[chain.len() - 1]
    } else {
        "."@
    }
}

pub open spec fn repo_root_pick_spec(chain: Seq<Seq<char>>, found: Seq<bool>) -> Seq<char> {
    pick_from(chain, found, 0)
}

pub fn pick_repo_root(chain: &Vec<String>, found: &Vec<bool>) -> (r: String)
    requires
        chain@.len() == found@.len(),
    ensures
        r@ == repo_root_pick_spec(chain.deep_view(), found@),
{
    let n = chain.len();
    let mut i: usize = 0;
    while i < n && i < 4
        invariant
            0 <= i <= n == chain@.len() == found@.len(),
            pick_from(chain.deep_view(), found@, 0) == pick_from(chain.deep_view(), found@, i as int),
        decreases n - i,
    {
        if found[i] {
            return chain[i].clone();
        }
        i = i + 1;
    }
    if n > 0 {
        chain[n - 1].clone()
    } else {
        ".".to_owned()
    }
}

/// The repository root of a snapshot: the directory of the explicit
/// settings-file override when one is set, else the first walked
/// directory holding a settings file.
pub open spec fn repo_root_spec(env: EnvSnapshot) -> Seq<char> {
    match env.config_path {
        Option::Some(p) => parent_dir_spec(p@),
        Option::None => repo_root_pick_spec(env.cwd_chain.deep_view(), env.settings_found@),
    }
}

pub fn repo_root_of(env: &EnvSnapshot) -> (r: String)
    requires
        env_wf(*env),
    ensures
        r@ == repo_root_spec(*env),
{
    match &env.config_path {
        Some(p) => parent_dir(p.as_str()),
        None => pick_repo_root(&env.cwd_chain, &env.settings_found),
    }
}

// ---------------------------------------------------------------------
// Trusted items: the yaml parser and tilde expansion
// ---------------------------------------------------------------------

/// Whether a text parses as a yaml mapping — the shape of a settings
/// document; anything else falls through to the next source.  A
/// function of the text alone.
pub uninterp spec fn yaml_doc_ok(text: Seq<char>) -> bool;

/// What the string lookup yields: the string at `section.key` of the
/// parsed document, nothing when the text is not a yaml mapping or the
/// field is absent or not a string.  A function of the three texts.
pub uninterp spec fn yaml_str_of(text: Seq<char>, section: Seq<char>, key: Seq<char>) -> Option<
    Seq<char>,
>;

/// The unsigned number at `section.key`, under the same rules.
pub uninterp spec fn yaml_u64_of(text: Seq<char>, section: Seq<char>, key: Seq<char>) -> Option<
    u64,
>;

/// The section at `section` re-serialized as yaml text, under the same
/// rules; only used to carry the opaque pass-through sections.
pub uninterp spec fn yaml_section_of(text: Seq<char>, section: Seq<char>) -> Option<Seq<char>>;

/// Relies on serde_yaml::from_str and Value::is_mapping: whether the
/// text parses as a mapping, a function of the text alone, named by
/// [`yaml_doc_ok`].
#[verifier::external_body]
fn yaml_doc_parses(text: &str) -> (r: bool)
    ensures
        r == yaml_doc_ok(text@),
{
    match serde_yaml::from_str::<serde_yaml::Value>(text) {
        Ok(v) => v.is_mapping(),
        Err(_) => false,
    }
}

/// Relies on serde_yaml::from_str, Value::get and Value::as_str: the
/// string at `section.key` of the document, a function of the texts
/// alone, named by [`yaml_str_of`].
#[verifier::external_body]
fn yaml_str(text: &str, section: &str, key: &str) -> (r: Option<String>)
    ensures
        r is Some <==> yaml_str_of(text@, section@, key@) is Some,
        r matches Some(s) ==> Some(s@) == yaml_str_of(text@, section@, key@),
{
    let v = serde_yaml::from_str::<serde_yaml::Value>(text).ok()?;
    v.get(section).and_then(|s| s.get(key)).and_then(|x| x.as_str()).map(|s| s.to_string())
}

/// Relies on serde_yaml::from_str, Value::get and Value::as_u64: the
/// unsigned number at `section.key`, named by [`yaml_u64_of`].
#[verifier::external_body]
fn yaml_u64(text: &str, section: &str, key: &str) -> (r: Option<u64>)
    ensures
        r == yaml_u64_of(text@, section@, key@),
{
    let v = serde_yaml::from_str::<serde_yaml::Value>(text).ok()?;
    v.get(section).and_then(|s| s.get(key)).and_then(|x| x.as_u64())
}

/// Relies on serde_yaml::from_str, Value::get and serde_yaml::to_string:
/// the section re-serialized as yaml text, named by [`yaml_section_of`].
#[verifier::external_body]
fn yaml_section_text(text: &str, section: &str) -> (r: Option<String>)
    ensures
        r is Some <==> yaml_section_of(text@, section@) is Some,
        r matches Some(s) ==> Some(s@) == yaml_section_of(text@, section@),
{
    let v = serde_yaml::from_str::<serde_yaml::Value>(text).ok()?;
    v.get(section).and_then(|s| serde_yaml::to_string(s).ok())
}

/// Tilde expansion: a leading `~` followed by nothing or by `/` is
/// replaced with the home directory; everything else is unchanged, as is
/// everything when no home directory is known.
pub open spec fn tilde_spec(s: Seq<char>, home: Option<Seq<char>>) -> Seq<char> {
    if s.len() >= 1 && s[0] == '~' && (s.len() == 1 || s[1] == '/') {
        match home {
            Option::Some(h) => h + s.skip(1),
            Option::None => s,
        }
    } else {
        s
    }
}

/// Relies on shellexpand::tilde_with_context: replaces a leading `~`
/// (alone or before `/`) with the given home directory and returns any
/// other input unchanged, which is exactly [`tilde_spec`].
#[verifier::external_body]
fn tilde_expand(s: &str, home: &Option<String>) -> (r: String)
    ensures
        r@ == tilde_spec(s@, home.deep_view()),
{
    let h: Option<String> = home.clone();
    shellexpand::tilde_with_context(s, || h).into_owned()
}

// ---------------------------------------------------------------------
// Settings parsing
// ---------------------------------------------------------------------

/// The consumed fields of one settings document, over the named yaml
/// lookups.
pub open spec fn settings_of_text_spec(text: Seq<char>) -> SettingsView {
    SettingsView {
        vault_path: yaml_str_of(text, "vault"@, "path"@),
        capture_dir: yaml_str_of(text, "vault"@, "capture_dir"@),
        media_dir: yaml_str_of(text, "vault"@, "media_dir"@),
        db_path: yaml_str_of(text, "database"@, "path"@),
        clipboard_poll_ms: yaml_u64_of(text, "ui"@, "clipboard_poll_ms"@),
        dev_mode: yaml_str_of(text, "development"@, "mode"@),
        capture_text: yaml_section_of(text, "capture"@),
        keybindings_text: yaml_section_of(text, "keybindings"@),
        theme_text: yaml_section_of(text, "theme"@),
    }
}

/// The settings of a document with nothing usable: every field absent.
pub open spec fn settings_empty_spec() -> SettingsView {
    SettingsView {
        vault_path: Option::None,
        capture_dir: Option::None,
        media_dir: Option::None,
        db_path: Option::None,
        clipboard_poll_ms: Option::None,
        dev_mode: Option::None,
        capture_text: Option::None,
        keybindings_text: Option::None,
        theme_text: Option::None,
    }
}

/// The settings text in effect for a snapshot: the explicit override
/// when it is a yaml mapping, else the repository settings file when
/// that is, else none.
pub open spec fn chosen_settings_text(env: EnvSnapshot) -> Option<Seq<char>> {
    if env.override_text is Some && yaml_doc_ok(env.override_text->0@) {
        Option::Some(env.override_text->0@)
    } else if env.root_text is Some && yaml_doc_ok(env.root_text->0@) {
        Option::Some(env.root_text->0@)
    } else {
        Option::None
    }
}

/// The settings in effect for a snapshot, field by field.
pub open spec fn settings_view_spec(env: EnvSnapshot) -> SettingsView {
    match chosen_settings_text(env) {
        Option::Some(t) => settings_of_text_spec(t),
        Option::None => settings_empty_spec(),
    }
}

/// Read the consumed fields out of one settings text; `None` when the
/// text is not a yaml mapping, so that it falls through to the next
/// source; every absent or ill-typed field is `None`.
fn settings_of_text(text: &str) -> (r: Option<Settings>)
    ensures
        r is Some <==> yaml_doc_ok(text@),
        r matches Some(s) ==> s@ == settings_of_text_spec(text@),
{
    if !yaml_doc_parses(text) {
        return None;
    }
    let s = Settings {
        vault_path: yaml_str(text, "vault", "path"),
        capture_dir: yaml_str(text, "vault", "capture_dir"),
        media_dir: yaml_str(text, "vault", "media_dir"),
        db_path: yaml_str(text, "database", "path"),
        clipboard_poll_ms: yaml_u64(text, "ui", "clipboard_poll_ms"),
        dev_mode: yaml_str(text, "development", "mode"),
        capture_text: yaml_section_text(text, "capture"),
        keybindings_text: yaml_section_text(text, "keybindings"),
        theme_text: yaml_section_text(text, "theme"),
    };
    Some(s)
}

/// The settings in effect: the explicit override file first, then the
/// repository settings file, then defaults.  An unreadable or unparsable
/// candidate falls through to the next.
fn parse_settings(env: &EnvSnapshot) -> (r: Settings)
    ensures
        r@ == settings_view_spec(*env),
{
    if let Some(text) = &env.override_text {
        if let Some(s) = settings_of_text(text.as_str()) {
            return s;
        }
    }
    if let Some(text) = &env.root_text {
        if let Some(s) = settings_of_text(text.as_str()) {
            return s;
        }
    }
    Settings::empty()
}

// ---------------------------------------------------------------------
// Resolution
// ---------------------------------------------------------------------

/// The mode in effect: the settings' `development.mode`, `prod` absent.
pub open spec fn mode_spec(s: SettingsView) -> Seq<char> {
    match s.dev_mode {
        Option::Some(m) => m,
        Option::None => "prod"@,
    }
}

/// The sentinel vault values: the bare sentinel resolves to the
/// repository root, the sentinel with a `/dev` suffix to its `dev`
/// subdirectory, anything else to itself.
pub open spec fn subst_sentinel(p: Seq<char>, root: Seq<char>) -> Seq<char> {
    if p == "ROOT_DIRECTORY_PATH"@ {
        root
    } else if p == "ROOT_DIRECTORY_PATH/dev"@ {
        join_path_spec(root, "dev"@)
    } else {
        p
    }
}

/// The vault path before tilde expansion: the environment override when
/// set, else the settings value after sentinel substitution, else the
/// default `~/notes`.
pub open spec fn vault_base_spec(s: SettingsView, env: EnvSnapshot, root: Seq<char>) -> Seq<
    char,
> {
    match env.vault_path {
        Option::Some(v) => v@,
        Option::None => subst_sentinel(
            match s.vault_path {
                Option::Some(p) => p,
                Option::None => "~/notes"@,
            },
            root,
        ),
    }
}

/// Whether a path is absolute under this library's unix-style convention.
pub open spec fn is_absolute_spec(p: Seq<char>) -> bool {
    p.len() > 0 && p[0] == '/'
}

/// The platform data directory for the database in `prod` mode: the
/// data-home override when set, else `.local/share` under the home
/// directory (`~` when none is known), with the application's own
/// subdirectory appended.
pub open spec fn data_dir_spec(env: EnvSnapshot) -> Seq<char> {
    match env.xdg_data_home {
        Option::Some(x) => join_path_spec(x@, "kms-capture"@),
        Option::None => join_path_spec(
            match env.home_dir {
                Option::Some(h) => h@,
                Option::None => "~"@,
            },
            ".local/share/kms-capture"@,
        ),
    }
}

/// The resolved database path, in priority order: the data-directory
/// override forces `main.db` inside it; then the direct override; then
/// an absolute configured path verbatim; a relative configured path goes
/// under the platform data directory in `prod` mode and under the
/// repository root otherwise.
pub open spec fn db_path_spec(s: SettingsView, env: EnvSnapshot, root: Seq<char>) -> Seq<char> {
    let raw = match s.db_path {
        Option::Some(p) => p,
        Option::None => "server/main.db"@,
    };
    if env.data_dir is Some {
        join_path_spec(env.data_dir->0@, "main.db"@)
    } else if env.db_path is Some {
        env.db_path->0@
    } else if is_absolute_spec(raw) {
        raw
    } else if mode_spec(s) == "prod"@ {
        join_path_spec(data_dir_spec(env), "main.db"@)
    } else {
        join_path_spec(root, raw)
    }
}

/// Resolve the effective configuration from the parsed settings, the
/// environment snapshot and the repository root.
pub fn resolve_config(s: &Settings, env: &EnvSnapshot, root: &str) -> (r: AppConfig)
    ensures
        r.mode@ == mode_spec(s@),
        r.is_dev == (mode_spec(s@) == "dev"@),
        r.vault.path@ == tilde_spec(vault_base_spec(s@, *env, root@), env.home_dir.deep_view()),
        r.vault.capture_dir@ == (match s@.capture_dir {
            Option::Some(d) => d,
            Option::None => "capture/raw_capture"@,
        }),
        r.vault.media_dir@ == (match s@.media_dir {
            Option::Some(d) => d,
            Option::None => "capture/raw_capture/media"@,
        }),
        r.database.path@ == db_path_spec(s@, *env, root@),
        r.ui.clipboard_poll_ms == s@.clipboard_poll_ms,
        r.capture@ == (match s@.capture_text {
            Option::Some(t) => t,
            Option::None => "{}"@,
        }),
        r.keybindings@ == (match s@.keybindings_text {
            Option::Some(t) => t,
            Option::None => "{}"@,
        }),
        r.theme@ == (match s@.theme_text {
            Option::Some(t) => t,
            Option::None => "{}"@,
        }),
{
    let mode: String = match &s.dev_mode {
        Some(m) => m.clone(),
        None => "prod".to_owned(),
    };
    let is_dev = str_eq(mode.as_str(), "dev");

    let base: String = match &env.vault_path {
        Some(v) => v.clone(),
        None => {
            let p: String = match &s.vault_path {
                Some(p) => p.clone(),
                None => "~/notes".to_owned(),
            };
            if str_eq(p.as_str(), "ROOT_DIRECTORY_PATH") {
                root.to_owned()
            } else if str_eq(p.as_str(), "ROOT_DIRECTORY_PATH/dev") {
                join_path(root, "dev")
            } else {
                p
            }
        },
    };
    let vault_path = tilde_expand(base.as_str(), &env.home_dir);

    let capture_dir: String = match &s.capture_dir {
        Some(d) => d.clone(),
        None => "capture/raw_capture".to_owned(),
    };
    let media_dir: String = match &s.media_dir {
        Some(d) => d.clone(),
        None => "capture/raw_capture/media".to_owned(),
    };

    let raw_db: String = match &s.db_path {
        Some(p) => p.clone(),
        None => "server/main.db".to_owned(),
    };
    let db: String = if let Some(d) = &env.data_dir {
        join_path(d.as_str(), "main.db")
    } else if let Some(p) = &env.db_path {
        p.clone()
    } else {
        let abs = raw_db.as_str().unicode_len() > 0 && raw_db.as_str().get_char(0) == '/';
        if abs {
            raw_db
        } else if str_eq(mode.as_str(), "prod") {
            let dir: String = match &env.xdg_data_home {
                Some(x) => join_path(x.as_str(), "kms-capture"),
                None => {
                    let home: String = match &env.home_dir {
                        Some(h) => h.clone(),
                        None => "~".to_owned(),
                    };
                    join_path(home.as_str(), ".local/share/kms-capture")
                },
            };
            join_path(dir.as_str(), "main.db")
        } else {
            join_path(root, raw_db.as_str())
        }
    };

    AppConfig {
        vault: VaultConfig { path: vault_path, capture_dir, media_dir },
        database: DatabaseConfig { path: db },
        ui: UiConfig { clipboard_poll_ms: match s.clipboard_poll_ms {
            Some(ms) => Some(ms),
            None => None,
        } },
        capture: match &s.capture_text {
            Some(t) => t.clone(),
            None => "{}".to_owned(),
        },
        keybindings: match &s.keybindings_text {
            Some(t) => t.clone(),
            None => "{}".to_owned(),
        },
        theme: match &s.theme_text {
            Some(t) => t.clone(),
            None => "{}".to_owned(),
        },
        mode,
        is_dev,
    }
}

/// Produce the effective configuration from an environment snapshot:
/// find the repository root, read the settings in effect, resolve.
///
/// The stated clauses pin the facts that do not depend on the settings
/// document: every override wins unconditionally, and with no settings
/// text at all the compiled-in defaults come through.
pub fn load_config(env: &EnvSnapshot) -> (r: AppConfig)
    requires
        env_wf(*env),
    ensures
        r.mode@ == mode_spec(settings_view_spec(*env)),
        r.is_dev == (mode_spec(settings_view_spec(*env)) == "dev"@),
        r.vault.path@ == tilde_spec(
            vault_base_spec(settings_view_spec(*env), *env, repo_root_spec(*env)),
            env.home_dir.deep_view(),
        ),
        r.vault.capture_dir@ == (match settings_view_spec(*env).capture_dir {
            Option::Some(d) => d,
            Option::None => "capture/raw_capture"@,
        }),
        r.vault.media_dir@ == (match settings_view_spec(*env).media_dir {
            Option::Some(d) => d,
            Option::None => "capture/raw_capture/media"@,
        }),
        r.database.path@ == db_path_spec(settings_view_spec(*env), *env, repo_root_spec(*env)),
        r.ui.clipboard_poll_ms == settings_view_spec(*env).clipboard_poll_ms,
        r.capture@ == (match settings_view_spec(*env).capture_text {
            Option::Some(t) => t,
            Option::None => "{}"@,
        }),
        r.keybindings@ == (match settings_view_spec(*env).keybindings_text {
            Option::Some(t) => t,
            Option::None => "{}"@,
        }),
        r.theme@ == (match settings_view_spec(*env).theme_text {
            Option::Some(t) => t,
            Option::None => "{}"@,
        }),
        env.vault_path matches Some(v) ==> r.vault.path@ == tilde_spec(
            v@,
            env.home_dir.deep_view(),
        ),
        env.data_dir matches Some(d) ==> r.database.path@ == join_path_spec(d@, "main.db"@),
        (env.data_dir is None && env.db_path is Some) ==> r.database.path@ == env.db_path->0@,
        env.override_text is None && env.root_text is None ==> {
            &&& r.mode@ == "prod"@
            &&& !r.is_dev
            &&& r.vault.capture_dir@ == "capture/raw_capture"@
            &&& r.vault.media_dir@ == "capture/raw_capture/media"@
            &&& r.ui.clipboard_poll_ms is None
            &&& r.capture@ == "{}"@
            &&& r.keybindings@ == "{}"@
            &&& r.theme@ == "{}"@
            &&& (env.vault_path is None ==> r.vault.path@ == tilde_spec(
                "~/notes"@,
                env.home_dir.deep_view(),
            ))
            &&& (env.data_dir is None && env.db_path is None ==> r.database.path@
                == join_path_spec(data_dir_spec(*env), "main.db"@))
        },
{
    let root = repo_root_of(env);
    let settings = parse_settings(env);
    proof {
        reveal_strlit("prod");
        reveal_strlit("dev");
        assert("prod"@.len() == 4 && "dev"@.len() == 3);
        reveal_strlit("server/main.db");
        assert(!is_absolute_spec("server/main.db"@));
        if env.override_text is None && env.root_text is None && env.vault_path is None {
            lemma_default_vault_path(settings@, *env, root@);
        }
    }
    resolve_config(&settings, env, root.as_str())
}

// ---------------------------------------------------------------------
// Laws of the layering
// ---------------------------------------------------------------------

/// The vault-path environment override always wins: whatever the
/// settings document holds and wherever the repository root lies, the
/// resolved vault path is the expansion of the override alone.
pub proof fn lemma_env_vault_override_wins(
    s1: SettingsView,
    s2: SettingsView,
    env: EnvSnapshot,
    root1: Seq<char>,
    root2: Seq<char>,
)
    requires
        env.vault_path is Some,
    ensures
        vault_base_spec(s1, env, root1) == env.vault_path->0@,
        tilde_spec(vault_base_spec(s1, env, root1), env.home_dir.deep_view()) == tilde_spec(
            vault_base_spec(s2, env, root2),
            env.home_dir.deep_view(),
        ),
{
}

/// With no environment override and no settings value, the vault path
/// falls back to the default `~/notes`, whatever the rest holds.
pub proof fn lemma_default_vault_path(s: SettingsView, env: EnvSnapshot, root: Seq<char>)
    requires
        env.vault_path is None,
        s.vault_path is None,
    ensures
        vault_base_spec(s, env, root) == "~/notes"@,
{
    reveal_strlit("~/notes");
    reveal_strlit("ROOT_DIRECTORY_PATH");
    reveal_strlit("ROOT_DIRECTORY_PATH/dev");
    assert("~/notes"@.len() == 7);
    assert("ROOT_DIRECTORY_PATH"@.len() == 19);
    assert("ROOT_DIRECTORY_PATH/dev"@.len() == 23);
}

} // verus!
