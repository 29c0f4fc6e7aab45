//! The settings file, `config.toml`.
use vstd::prelude::*;

use crate::keep::{effective_index, keep_by_key, preset_index, preset_seconds, DEFAULT_KEEP};
use crate::text::str_eq;

verus! {

/// The settings file written on first run.
pub const DEFAULT_CONFIG: &'static str = "# Omapaste \u{2014} https://github.com/pkayokay/omapaste

# How long new clips are kept unless you change a clip individually.
# One of: 1h, 1d, 7d, forever
default_keep = \"1d\"

# Hard cap on stored clips. Forever clips are pruned last.
max_items = 200

# Skip clipboard items larger than this (bytes).
max_bytes = 8000000

# Skip password-manager / secret MIME types.
ignore_secrets = true

# Paste key after Enter:
#   auto           \u{2014} Shift+Insert in terminals, Ctrl+V elsewhere
#   shift-insert   \u{2014} always Shift+Insert (Omarchy's universal paste)
#   ctrl-v         \u{2014} always Ctrl+V
paste_keys = \"auto\"
";

#[verifier::external_type_specification]
#[verifier::external_body]
pub struct ExTomlError(toml::de::Error);

/// The settings.
#[derive(Clone, Debug)]
pub struct Config {
    pub default_keep: String,
    pub max_items: i64,
    pub max_bytes: i64,
    pub ignore_secrets: bool,
    pub paste_keys: String,
}

/// The settings as values.
pub struct ConfigView {
    pub default_keep: Seq<char>,
    pub max_items: i64,
    pub max_bytes: i64,
    pub ignore_secrets: bool,
    pub paste_keys: Seq<char>,
}

impl View for Config {
    type V = ConfigView;

    open spec fn view(&self) -> ConfigView {
        ConfigView {
            default_keep: self.default_keep@,
            max_items: self.max_items,
            max_bytes: self.max_bytes,
            ignore_secrets: self.ignore_secrets,
            paste_keys: self.paste_keys@,
        }
    }
}

/// The settings that apply when the file sets nothing.
pub open spec fn default_config() -> ConfigView {
    ConfigView {
        default_keep: "1d"@,
        max_items: 200,
        max_bytes: 8000000,
        ignore_secrets: true,
        paste_keys: "auto"@,
    }
}

impl Default for Config {
    fn default() -> (r: Self)
        ensures
            r@ == default_config(),
    {
        Config {
            default_keep: DEFAULT_KEEP.to_owned(),
            max_items: 200,
            max_bytes: 8000000,
            ignore_secrets: true,
            paste_keys: "auto".to_owned(),
        }
    }
}

impl Config {
    /// How long new clips live, in seconds (`None`: forever); an unknown
    /// preset counts as `1d`.
    pub fn keep_seconds(&self) -> (r: Option<i64>)
        ensures
            r == preset_seconds(effective_index(self.default_keep@)),
    {
        match keep_by_key(self.default_keep.as_str()) {
            Some(p) => p.seconds,
            None => crate::keep::keep_preset_at(1).seconds,
        }
    }
}

/// A value of the settings file, as far as the settings read it.
pub enum TomlScalar {
    Str(String),
    Int(i64),
    Bool(bool),
    /// A float, date, array or table.
    Other,
}

/// A settings value as a value.
pub enum ScalarView {
    Str(Seq<char>),
    Int(i64),
    Bool(bool),
    Other,
}

impl View for TomlScalar {
    type V = ScalarView;

    open spec fn view(&self) -> ScalarView {
        match self {
            TomlScalar::Str(s) => ScalarView::Str(s@),
            TomlScalar::Int(i) => ScalarView::Int(*i),
            TomlScalar::Bool(b) => ScalarView::Bool(*b),
            TomlScalar::Other => ScalarView::Other,
        }
    }
}

/// The views of the entries of a table.
pub open spec fn entry_views(entries: Seq<(String, TomlScalar)>) -> Seq<(Seq<char>, ScalarView)> {
    entries.map_values(|e: (String, TomlScalar)| (e.0@, e.1@))
}

/// The top-level entries of the TOML document `text` (key, value), as the
/// `toml` crate parses it into a table; `None` when it is not valid TOML.
pub uninterp spec fn toml_entries(text: Seq<char>) -> Option<Seq<(Seq<char>, ScalarView)>>;

/// Calls `str::parse::<toml::Table>` and lists the table's entries, each
/// value reduced to a string, an integer, a boolean or another kind; the
/// result is named by `toml_entries`.
#[verifier::external_body]
pub(crate) fn parse_table(text: &str) -> (r: Result<Vec<(String, TomlScalar)>, toml::de::Error>)
    ensures
        r is Ok <==> toml_entries(text@) is Some,
        r matches Ok(entries) ==> entry_views(entries@) == toml_entries(text@)->0,
{
    let table = text.parse::<toml::Table>()?;
    Ok(table.into_iter().map(|(k, v)| (k, match v {
        toml::Value::String(s) => TomlScalar::Str(s),
        toml::Value::Integer(i) => TomlScalar::Int(i),
        toml::Value::Boolean(b) => TomlScalar::Bool(b),
        _ => TomlScalar::Other,
    })).collect())
}

/// The value of the first entry keyed `key`, if any.
pub open spec fn lookup(entries: Seq<(Seq<char>, ScalarView)>, key: Seq<char>) -> Option<ScalarView>
    decreases entries.len(),
{
    if entries.len() == 0 {
        None
    } else if entries[0].0 == key {
        Some(entries[0].1)
    } else {
        lookup(entries.drop_first(), key)
    }
}

/// A paste-key setting the bar knows.
pub open spec fn is_paste_keys(v: Seq<char>) -> bool {
    v == "auto"@ || v == "shift-insert"@ || v == "ctrl-v"@
}

/// The settings a parsed file gives: each known key of the right type
/// replaces its default, `default_keep` only when it names a preset,
/// `paste_keys` only when it is a known value, `max_items` at least 1 and
/// `max_bytes` at least 1024; everything else is ignored.
pub open spec fn config_of(entries: Seq<(Seq<char>, ScalarView)>) -> ConfigView {
    let d = default_config();
    ConfigView {
        default_keep: match lookup(entries, "default_keep"@) {
            Some(ScalarView::Str(v)) => if preset_index(v) is Some {
                v
            } else {
                d.default_keep
            },
            _ => d.default_keep,
        },
        paste_keys: match lookup(entries, "paste_keys"@) {
            Some(ScalarView::Str(v)) => if is_paste_keys(v) {
                v
            } else {
                d.paste_keys
            },
            _ => d.paste_keys,
        },
        max_items: match lookup(entries, "max_items"@) {
            Some(ScalarView::Int(v)) => if v < 1 {
                1
            } else {
                v
            },
            _ => d.max_items,
        },
        max_bytes: match lookup(entries, "max_bytes"@) {
            Some(ScalarView::Int(v)) => if v < 1024 {
                1024
            } else {
                v
            },
            _ => d.max_bytes,
        },
        ignore_secrets: match lookup(entries, "ignore_secrets"@) {
            Some(ScalarView::Bool(v)) => v,
            _ => d.ignore_secrets,
        },
    }
}

/// The settings the text of a settings file gives; text that is not TOML
/// gives the defaults.
pub open spec fn config_of_text(text: Seq<char>) -> ConfigView {
    match toml_entries(text) {
        Some(entries) => config_of(entries),
        None => default_config(),
    }
}

/// The value of the first entry keyed `key`.
fn find_entry<'a>(entries: &'a Vec<(String, TomlScalar)>, key: &str) -> (r: Option<&'a TomlScalar>)
    ensures
        match lookup(entry_views(entries@), key@) {
            Some(v) => r matches Some(x) && x@ == v,
            None => r is None,
        },
{
    let ghost ev = entry_views(entries@);
    let mut i: usize = 0;
    assert(ev.skip(0) =~= ev);
    while i < entries.len()
        invariant
            0 <= i <= entries@.len(),
            ev == entry_views(entries@),
            lookup(ev, key@) == lookup(ev.skip(i as int), key@),
        decreases entries@.len() - i,
    {
        assert(ev.skip(i as int)[0] == ev[i as int]);
        assert(ev.skip(i as int).drop_first() =~= ev.skip(i + 1));
        if str_eq(entries[i].0.as_str(), key) {
            return Some(&entries[i].1);
        }
        i = i + 1;
    }
    None
}

/// The settings a parsed file gives.
pub fn config_from_entries(entries: &Vec<(String, TomlScalar)>) -> (r: Config)
    ensures
        r@ == config_of(entry_views(entries@)),
{
    let mut cfg = Config::default();
    match find_entry(entries, "default_keep") {
        Some(TomlScalar::Str(v)) => {
            if keep_by_key(v.as_str()).is_some() {
                cfg.default_keep = v.clone();
            }
        },
        _ => {},
    }
    match find_entry(entries, "paste_keys") {
        Some(TomlScalar::Str(v)) => {
            if str_eq(v.as_str(), "auto") || str_eq(v.as_str(), "shift-insert") || str_eq(
                v.as_str(),
                "ctrl-v",
            ) {
                cfg.paste_keys = v.clone();
            }
        },
        _ => {},
    }
    match find_entry(entries, "max_items") {
        Some(TomlScalar::Int(v)) => {
            cfg.max_items = if *v < 1 {
                1
            } else {
                *v
            };
        },
        _ => {},
    }
    match find_entry(entries, "max_bytes") {
        Some(TomlScalar::Int(v)) => {
            cfg.max_bytes = if *v < 1024 {
                1024
            } else {
                *v
            };
        },
        _ => {},
    }
    match find_entry(entries, "ignore_secrets") {
        Some(TomlScalar::Bool(v)) => {
            cfg.ignore_secrets = *v;
        },
        _ => {},
    }
    cfg
}

/// The settings the text of a settings file gives (the defaults when it is
/// not TOML).
pub fn config_from_text(text: &str) -> (r: Config)
    ensures
        r@ == config_of_text(text@),
{
    match parse_table(text) {
        Ok(entries) => config_from_entries(&entries),
        Err(_) => Config::default(),
    }
}

/// Whatever the file says, the settings name a keep preset and a known paste
/// key, keep at least one clip and read at least 1 KiB.
pub proof fn law_config_is_always_usable(text: Seq<char>)
    ensures
        preset_index(config_of_text(text).default_keep) is Some,
        is_paste_keys(config_of_text(text).paste_keys),
        config_of_text(text).max_items >= 1,
        config_of_text(text).max_bytes >= 1024,
{
    reveal_strlit("1d");
    reveal_strlit("1h");
    crate::keep::lemma_preset_keys_distinct();
    assert(preset_index("1d"@) == Some(1int));
}

/// A value the settings file gives for a known key, of the right type, is
/// the value loaded: `max_bytes` and `max_items` as written when at least
/// 1024 and 1 (raised to those floors otherwise), `ignore_secrets` as
/// written, and `default_keep` and `paste_keys` as written when they name a
/// preset and a known paste key.
pub proof fn law_settings_take_the_files_values(text: Seq<char>, entries: Seq<(Seq<char>, ScalarView)>)
    requires
        toml_entries(text) == Some(entries),
    ensures
        lookup(entries, "max_bytes"@) matches Some(ScalarView::Int(v)) ==> (v >= 1024
            ==> config_of_text(text).max_bytes == v) && (v < 1024 ==> config_of_text(text).max_bytes
            == 1024),
        lookup(entries, "max_items"@) matches Some(ScalarView::Int(v)) ==> (v >= 1
            ==> config_of_text(text).max_items == v) && (v < 1 ==> config_of_text(text).max_items
            == 1),
        lookup(entries, "ignore_secrets"@) matches Some(ScalarView::Bool(b)) ==> config_of_text(
            text,
        ).ignore_secrets == b,
        lookup(entries, "default_keep"@) matches Some(ScalarView::Str(k)) ==> (preset_index(k) is Some
            ==> config_of_text(text).default_keep == k),
        lookup(entries, "paste_keys"@) matches Some(ScalarView::Str(k)) ==> (is_paste_keys(k)
            ==> config_of_text(text).paste_keys == k),
{
}

} // verus!
