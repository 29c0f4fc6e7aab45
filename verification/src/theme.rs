//! The Omarchy theme the bar follows, and the stylesheet it gives.
use vstd::prelude::*;

use crate::config::{entry_views, parse_table, toml_entries, ScalarView, TomlScalar};
use crate::text::{
    contains_seq, occurs_at, push_str, starts_with_seq, str_eq, str_starts_with, string_from_chars,
    trim, trimmed,
};

verus! {

/// Number of fallback colors.
pub const FALLBACK_COUNT: usize = 11;

/// Key of fallback color `i` (Tokyo Night).
pub open spec fn fallback_key(i: int) -> Seq<char> {
    if i == 0 {
        "mode"@
    } else if i == 1 {
        "accent"@
    } else if i == 2 {
        "selection"@
    } else if i == 3 {
        "muted"@
    } else if i == 4 {
        "background"@
    } else if i == 5 {
        "dark_background"@
    } else if i == 6 {
        "lighter_background"@
    } else if i == 7 {
        "foreground"@
    } else if i == 8 {
        "dark_foreground"@
    } else if i == 9 {
        "light_foreground"@
    } else {
        "bright_foreground"@
    }
}

/// Value of fallback color `i`.
pub open spec fn fallback_value(i: int) -> Seq<char> {
    if i == 0 {
        "dark"@
    } else if i == 1 {
        "#7aa2f7"@
    } else if i == 2 {
        "#292e42"@
    } else if i == 3 {
        "#414868"@
    } else if i == 4 {
        "#1a1b26"@
    } else if i == 5 {
        "#13141c"@
    } else if i == 6 {
        "#24283b"@
    } else if i == 7 {
        "#c0caf5"@
    } else if i == 8 {
        "#565f89"@
    } else if i == 9 {
        "#b4bee6"@
    } else {
        "#c0caf5"@
    }
}

/// Fallback color `i`: its key and value.
pub fn fallback_at(i: usize) -> (r: (&'static str, &'static str))
    requires
        i < FALLBACK_COUNT,
    ensures
        r.0@ == fallback_key(i as int),
        r.1@ == fallback_value(i as int),
{
    if i == 0 {
        ("mode", "dark")
    } else if i == 1 {
        ("accent", "#7aa2f7")
    } else if i == 2 {
        ("selection", "#292e42")
    } else if i == 3 {
        ("muted", "#414868")
    } else if i == 4 {
        ("background", "#1a1b26")
    } else if i == 5 {
        ("dark_background", "#13141c")
    } else if i == 6 {
        ("lighter_background", "#24283b")
    } else if i == 7 {
        ("foreground", "#c0caf5")
    } else if i == 8 {
        ("dark_foreground", "#565f89")
    } else if i == 9 {
        ("light_foreground", "#b4bee6")
    } else {
        ("bright_foreground", "#c0caf5")
    }
}

/// The theme: its name and its colors, by key.
#[derive(Clone, Debug)]
pub struct Theme {
    pub name: String,
    pub colors: Vec<(String, String)>,
}

/// The views of color entries.
pub open spec fn color_views(colors: Seq<(String, String)>) -> Seq<(Seq<char>, Seq<char>)> {
    colors.map_values(|e: (String, String)| (e.0@, e.1@))
}

/// The value of the first entry keyed `key`.
pub open spec fn color_lookup(colors: Seq<(Seq<char>, Seq<char>)>, key: Seq<char>) -> Option<Seq<char>>
    decreases colors.len(),
{
    if colors.len() == 0 {
        None
    } else if colors[0].0 == key {
        Some(colors[0].1)
    } else {
        color_lookup(colors.drop_first(), key)
    }
}

/// The fallback value for `key`, if there is one.
pub open spec fn fallback_lookup(key: Seq<char>) -> Option<Seq<char>> {
    if exists|i: int| 0 <= i < FALLBACK_COUNT && #[trigger] fallback_key(i) == key {
        Some(fallback_value(choose|i: int| 0 <= i < FALLBACK_COUNT && #[trigger] fallback_key(i) == key))
    } else {
        None
    }
}

/// The color a theme gives `key`: its own, else the fallback, else white.
pub open spec fn theme_color(colors: Seq<(Seq<char>, Seq<char>)>, key: Seq<char>) -> Seq<char> {
    match color_lookup(colors, key) {
        Some(v) => v,
        None => match fallback_lookup(key) {
            Some(v) => v,
            None => "#ffffff"@,
        },
    }
}

proof fn lemma_fallback_keys_distinct()
    ensures
        forall|i: int, j: int|
            0 <= i < FALLBACK_COUNT && 0 <= j < FALLBACK_COUNT && i != j ==> fallback_key(i)
                != fallback_key(j),
{
    reveal_strlit("mode");
    reveal_strlit("accent");
    reveal_strlit("selection");
    reveal_strlit("muted");
    reveal_strlit("background");
    reveal_strlit("dark_background");
    reveal_strlit("lighter_background");
    reveal_strlit("foreground");
    reveal_strlit("dark_foreground");
    reveal_strlit("light_foreground");
    reveal_strlit("bright_foreground");
    assert forall|i: int, j: int|
        0 <= i < FALLBACK_COUNT && 0 <= j < FALLBACK_COUNT && i != j implies fallback_key(i)
            != fallback_key(j) by {
        if fallback_key(i).len() == fallback_key(j).len() {
            let a = fallback_key(i);
            let b = fallback_key(j);
            assert(a[0] != b[0] || a[1] != b[1] || a[2] != b[2] || a[a.len() - 1] != b[b.len() - 1] || a[5] != b[5]);
        }
    }
}

/// The value of the first entry keyed `key`.
fn find_color(colors: &Vec<(String, String)>, key: &str) -> (r: Option<usize>)
    ensures
        match color_lookup(color_views(colors@), key@) {
            Some(v) => r matches Some(i) && i < colors@.len() && colors@[i as int].1@ == v
                && colors@[i as int].0@ == key@ && forall|j: int|
                0 <= j < i ==> (#[trigger] colors@[j]).0@ != key@,
            None => r is None,
        },
{
    let ghost cv = color_views(colors@);
    let mut i: usize = 0;
    assert(cv.skip(0) =~= cv);
    while i < colors.len()
        invariant
            0 <= i <= colors@.len(),
            cv == color_views(colors@),
            color_lookup(cv, key@) == color_lookup(cv.skip(i as int), key@),
            forall|j: int| 0 <= j < i ==> (#[trigger] colors@[j]).0@ != key@,
        decreases colors@.len() - i,
    {
        assert(cv.skip(i as int)[0] == cv[i as int]);
        assert(cv.skip(i as int).drop_first() =~= cv.skip(i + 1));
        if str_eq(colors[i].0.as_str(), key) {
            return Some(i);
        }
        i = i + 1;
    }
    None
}

impl Theme {
    /// The color for `key`: the theme's own, else the fallback, else white.
    pub fn get(&self, key: &str) -> (r: String)
        ensures
            r@ == theme_color(color_views(self.colors@), key@),
    {
        match find_color(&self.colors, key) {
            Some(i) => self.colors[i].1.clone(),
            None => {
                let mut j: usize = 0;
                while j < FALLBACK_COUNT
                    invariant
                        0 <= j <= FALLBACK_COUNT,
                        forall|k: int| 0 <= k < j ==> fallback_key(k) != key@,
                        color_lookup(color_views(self.colors@), key@) is None,
                    decreases FALLBACK_COUNT - j,
                {
                    let (k, v) = fallback_at(j);
                    if str_eq(k, key) {
                        proof {
                            lemma_fallback_keys_distinct();
                            assert(0 <= j < FALLBACK_COUNT && fallback_key(j as int) == key@);
                            let c = choose|i: int| 0 <= i < FALLBACK_COUNT && #[trigger] fallback_key(i) == key@;
                            assert(c == j);
                        }
                        return v.to_owned();
                    }
                    j = j + 1;
                }
                "#ffffff".to_owned()
            },
        }
    }
}

/// The fallback colors, as a theme holds them.
pub fn fallback_colors() -> (r: Vec<(String, String)>)
    ensures
        r@.len() == FALLBACK_COUNT,
        forall|i: int|
            0 <= i < FALLBACK_COUNT ==> (#[trigger] r@[i]).0@ == fallback_key(i) && r@[i].1@
                == fallback_value(i),
{
    let mut r: Vec<(String, String)> = Vec::new();
    let mut i: usize = 0;
    while i < FALLBACK_COUNT
        invariant
            0 <= i <= FALLBACK_COUNT,
            r@.len() == i,
            forall|k: int|
                0 <= k < i ==> (#[trigger] r@[k]).0@ == fallback_key(k) && r@[k].1@
                    == fallback_value(k),
        decreases FALLBACK_COUNT - i,
    {
        let (k, v) = fallback_at(i);
        r.push((k.to_owned(), v.to_owned()));
        i = i + 1;
    }
    r
}

proof fn lemma_lookup_update(
    s: Seq<(Seq<char>, Seq<char>)>,
    i: int,
    key: Seq<char>,
    v: Seq<char>,
    k: Seq<char>,
)
    requires
        0 <= i < s.len(),
        s[i].0 == key,
        forall|j: int| 0 <= j < i ==> s[j].0 != key,
    ensures
        color_lookup(s.update(i, (key, v)), k) == if k == key {
            Some(v)
        } else {
            color_lookup(s, k)
        },
    decreases i,
{
    let u = s.update(i, (key, v));
    if i > 0 {
        assert(u[0] == s[0]);
        assert(u.drop_first() =~= s.drop_first().update(i - 1, (key, v)));
        lemma_lookup_update(s.drop_first(), i - 1, key, v, k);
    } else {
        assert(u.drop_first() =~= s.drop_first());
    }
}

proof fn lemma_lookup_push(s: Seq<(Seq<char>, Seq<char>)>, e: (Seq<char>, Seq<char>), k: Seq<char>)
    ensures
        color_lookup(s.push(e), k) == match color_lookup(s, k) {
            Some(v) => Some(v),
            None => if e.0 == k {
                Some(e.1)
            } else {
                None
            },
        },
    decreases s.len(),
{
    if s.len() > 0 {
        assert(s.push(e).drop_first() =~= s.drop_first().push(e));
        lemma_lookup_push(s.drop_first(), e, k);
    } else {
        assert(s.push(e).drop_first() =~= s);
    }
}

/// Sets the color `key` to `value`: replaces the value of the first entry
/// keyed `key`, or adds an entry.
pub fn insert_color(colors: &mut Vec<(String, String)>, key: String, value: String)
    ensures
        forall|k: Seq<char>|
            #[trigger] color_lookup(color_views(final(colors)@), k) == if k == key@ {
                Some(value@)
            } else {
                color_lookup(color_views(old(colors)@), k)
            },
{
    let ghost cv = color_views(colors@);
    let ghost kv = key@;
    let ghost vv = value@;
    match find_color(colors, key.as_str()) {
        Some(i) => {
            colors.set(i, (key, value));
            proof {
                assert(color_views(colors@) =~= cv.update(i as int, (kv, vv)));
                assert forall|k: Seq<char>|
                    #[trigger] color_lookup(color_views(colors@), k) == if k == kv {
                        Some(vv)
                    } else {
                        color_lookup(cv, k)
                    } by {
                    lemma_lookup_update(cv, i as int, kv, vv, k);
                }
            }
        },
        None => {
            colors.push((key, value));
            proof {
                assert(color_views(colors@) =~= cv.push((kv, vv)));
                assert forall|k: Seq<char>|
                    #[trigger] color_lookup(color_views(colors@), k) == if k == kv {
                        Some(vv)
                    } else {
                        color_lookup(cv, k)
                    } by {
                    lemma_lookup_push(cv, (kv, vv), k);
                    if k == kv {
                        assert(color_lookup(cv, kv) is None);
                    }
                }
            }
        },
    }
}

/// A theme-file entry that sets a color: a string value that starts with `#`,
/// or the `mode` entry.
pub open spec fn is_color_entry(e: (Seq<char>, ScalarView)) -> bool {
    e.1 matches ScalarView::Str(v) && (starts_with_seq(v, "#"@) || e.0 == "mode"@)
}

/// The value of a string entry.
pub open spec fn entry_text(e: (Seq<char>, ScalarView)) -> Seq<char> {
    match e.1 {
        ScalarView::Str(v) => v,
        _ => Seq::<char>::empty(),
    }
}

/// The color `key` after the color entries of `entries` are set over `base`,
/// later entries winning.
pub open spec fn merged_lookup(
    base: Seq<(Seq<char>, Seq<char>)>,
    entries: Seq<(Seq<char>, ScalarView)>,
    key: Seq<char>,
) -> Option<Seq<char>>
    decreases entries.len(),
{
    if entries.len() == 0 {
        color_lookup(base, key)
    } else if is_color_entry(entries.last()) && entries.last().0 == key {
        Some(entry_text(entries.last()))
    } else {
        merged_lookup(base, entries.drop_last(), key)
    }
}

/// Sets the colors a `colors.toml` text gives over `colors`: every string
/// entry that starts with `#`, and `mode`; other entries, and text that is not
/// TOML, change nothing.
pub fn merge_colors_toml(colors: &mut Vec<(String, String)>, text: &str)
    ensures
        forall|k: Seq<char>|
            #[trigger] color_lookup(color_views(final(colors)@), k) == match toml_entries(text@) {
                Some(es) => merged_lookup(color_views(old(colors)@), es, k),
                None => color_lookup(color_views(old(colors)@), k),
            },
{
    let ghost base = color_views(colors@);
    let entries = match parse_table(text) {
        Ok(entries) => entries,
        Err(_) => return,
    };
    let ghost ev = entry_views(entries@);
    let mut i: usize = 0;
    while i < entries.len()
        invariant
            0 <= i <= entries@.len(),
            ev == entry_views(entries@),
            forall|k: Seq<char>|
                #[trigger] color_lookup(color_views(colors@), k) == merged_lookup(
                    base,
                    ev.take(i as int),
                    k,
                ),
        decreases entries@.len() - i,
    {
        let ghost before = color_views(colors@);
        assert(ev.take(i + 1).drop_last() =~= ev.take(i as int));
        assert(ev.take(i + 1).last() == ev[i as int]);
        match &entries[i].1 {
            TomlScalar::Str(v) => {
                if str_starts_with(v.as_str(), "#") || str_eq(entries[i].0.as_str(), "mode") {
                    insert_color(colors, entries[i].0.clone(), v.clone());
                }
            },
            _ => {},
        }
        i = i + 1;
    }
    assert(ev.take(ev.len() as int) =~= ev);
}

/// The theme name in the `theme.name` file: trimmed, `unknown` when blank.
pub fn parse_theme_name(raw: &str) -> (r: String)
    ensures
        r@ == if trimmed(raw@).len() == 0 {
            "unknown"@
        } else {
            trimmed(raw@)
        },
{
    let name = trim(raw);
    if name.as_str().is_empty() {
        "unknown".to_owned()
    } else {
        name
    }
}

/// The theme name from the contents of the `theme.name` file, when it could
/// be read: as `parse_theme_name` reads it, else `unknown`.
pub fn theme_name_from(raw: Option<&str>) -> (r: String)
    ensures
        r@ == match raw {
            Some(t) => if trimmed(t@).len() == 0 {
                "unknown"@
            } else {
                trimmed(t@)
            },
            None => "unknown"@,
        },
{
    match raw {
        Some(t) => parse_theme_name(t),
        None => "unknown".to_owned(),
    }
}

/// The stylesheet of the bar for the given background, lighter background,
/// foreground and accent colors.
pub open spec fn css_text(bg: Seq<char>, bg2: Seq<char>, fg: Seq<char>, accent: Seq<char>) -> Seq<char> {
    Seq::<char>::empty()
        + "\nwindow.omapaste {\n  background-color: transparent;\n}\n\n.op-bar {\n  background-color: alpha("@
        + bg
        + ", 0.96);\n  color: "@
        + fg
        + ";\n  border-radius: 0;\n  border: 1px solid alpha("@
        + fg
        + ", 0.10);\n  padding: 12px 16px 12px 16px;\n  min-height: 292px;\n}\n\n.op-title {\n  font-weight: 700;\n  font-size: 13px;\n  letter-spacing: 0.4px;\n  color: "@
        + fg
        + ";\n}\n\n.op-icon-btn {\n  padding: 2px 6px;\n  min-width: 28px;\n  min-height: 28px;\n  border-radius: 0;\n  background-color: transparent;\n  color: alpha("@
        + fg
        + ", 0.80);\n}\n\n.op-icon-btn:hover {\n  background-color: alpha("@
        + fg
        + ", 0.08);\n  color: "@
        + fg
        + ";\n}\n\n.op-count, .op-hint {\n  color: alpha("@
        + fg
        + ", 0.70);\n  font-size: 11px;\n}\n\n.op-shortcuts {\n  padding: 10px 14px;\n  min-width: 200px;\n}\n\npopover, popover.background, popover contents {\n  border-radius: 0;\n}\n\n.op-shortcut-key {\n  font-family: \"JetBrainsMono Nerd Font\", \"JetBrains Mono\", monospace;\n  font-size: 11px;\n  color: alpha("@
        + fg
        + ", 0.70);\n}\n\n.op-shortcut-action {\n  font-size: 12px;\n  color: "@
        + fg
        + ";\n}\n\n.op-issues {\n  font-size: 11px;\n  color: alpha("@
        + fg
        + ", 0.70);\n  padding-top: 8px;\n}\n\n.op-search {\n  background-color: "@
        + bg2
        + ";\n  color: "@
        + fg
        + ";\n  border-radius: 0;\n  min-height: 28px;\n  padding: 0 8px;\n  border: 1px solid alpha("@
        + fg
        + ", 0.08);\n  font-size: 13px;\n}\n\n.op-search text {\n  min-height: 0;\n  padding: 0;\n}\n\n.op-search:focus {\n  border-color: "@
        + accent
        + ";\n}\n\n.op-search placeholder {\n  color: alpha("@
        + fg
        + ", 0.45);\n}\n\n.op-card {\n  background-color: "@
        + bg2
        + ";\n  color: "@
        + fg
        + ";\n  border-radius: 0;\n  border: 1px solid alpha("@
        + fg
        + ", 0.08);\n  padding: 0;\n}\n\n.op-card:hover {\n  border-color: alpha("@
        + accent
        + ", 0.55);\n}\n\n.op-card.selected {\n  background-color: alpha("@
        + accent
        + ", 0.20);\n  border: 1px solid "@
        + accent
        + ";\n}\n\n.op-card.selected .op-card-header {\n  background-color: alpha("@
        + fg
        + ", 0.10);\n  border-bottom-color: alpha("@
        + fg
        + ", 0.18);\n}\n\n.op-card.selected .op-meta,\n.op-card.selected .op-chars {\n  color: alpha("@
        + fg
        + ", 0.92);\n}\n\n.op-card-header {\n  background-color: alpha("@
        + fg
        + ", 0.07);\n  border-bottom: 1px solid alpha("@
        + fg
        + ", 0.12);\n  padding: 10px 12px 8px 12px;\n}\n\n.op-card-body {\n  padding: 10px 12px 6px 12px;\n}\n\n.op-card-footer {\n  padding: 4px 12px 8px 12px;\n}\n\n.op-kind {\n  font-weight: 600;\n  font-size: 11px;\n  letter-spacing: 0.3px;\n  color: "@
        + fg
        + ";\n  min-height: 20px;\n}\n\n.op-preview {\n  color: "@
        + fg
        + ";\n  font-family: \"JetBrainsMono Nerd Font\", \"JetBrains Mono\", monospace;\n  font-size: 12px;\n  padding-left: 2px;\n  padding-right: 2px;\n  font-feature-settings: \"liga\" 0, \"calt\" 0;\n}\n\n.op-meta, .op-chars {\n  color: alpha("@
        + fg
        + ", 0.70);\n  font-size: 11px;\n}\n\n.op-empty {\n  color: alpha("@
        + fg
        + ", 0.70);\n  font-size: 13px;\n}\n\n.op-header {\n  padding: 0 4px;\n  min-height: 28px;\n}\n"@
}

/// The stylesheet of the bar in the theme's colors.
pub fn css_for(theme: &Theme) -> (r: String)
    ensures
        r@ == css_text(
            theme_color(color_views(theme.colors@), "background"@),
            theme_color(color_views(theme.colors@), "lighter_background"@),
            theme_color(color_views(theme.colors@), "bright_foreground"@),
            theme_color(color_views(theme.colors@), "accent"@),
        ),
{
    let bg = theme.get("background");
    let bg2 = theme.get("lighter_background");
    let fg = theme.get("bright_foreground");
    let accent = theme.get("accent");
    let mut out: Vec<char> = Vec::new();
    push_str(&mut out, "\nwindow.omapaste {\n  background-color: transparent;\n}\n\n.op-bar {\n  background-color: alpha(");
    push_str(&mut out, bg.as_str());
    push_str(&mut out, ", 0.96);\n  color: ");
    push_str(&mut out, fg.as_str());
    push_str(&mut out, ";\n  border-radius: 0;\n  border: 1px solid alpha(");
    push_str(&mut out, fg.as_str());
    push_str(&mut out, ", 0.10);\n  padding: 12px 16px 12px 16px;\n  min-height: 292px;\n}\n\n.op-title {\n  font-weight: 700;\n  font-size: 13px;\n  letter-spacing: 0.4px;\n  color: ");
    push_str(&mut out, fg.as_str());
    push_str(&mut out, ";\n}\n\n.op-icon-btn {\n  padding: 2px 6px;\n  min-width: 28px;\n  min-height: 28px;\n  border-radius: 0;\n  background-color: transparent;\n  color: alpha(");
    push_str(&mut out, fg.as_str());
    push_str(&mut out, ", 0.80);\n}\n\n.op-icon-btn:hover {\n  background-color: alpha(");
    push_str(&mut out, fg.as_str());
    push_str(&mut out, ", 0.08);\n  color: ");
    push_str(&mut out, fg.as_str());
    push_str(&mut out, ";\n}\n\n.op-count, .op-hint {\n  color: alpha(");
    push_str(&mut out, fg.as_str());
    push_str(&mut out, ", 0.70);\n  font-size: 11px;\n}\n\n.op-shortcuts {\n  padding: 10px 14px;\n  min-width: 200px;\n}\n\npopover, popover.background, popover contents {\n  border-radius: 0;\n}\n\n.op-shortcut-key {\n  font-family: \"JetBrainsMono Nerd Font\", \"JetBrains Mono\", monospace;\n  font-size: 11px;\n  color: alpha(");
    push_str(&mut out, fg.as_str());
    push_str(&mut out, ", 0.70);\n}\n\n.op-shortcut-action {\n  font-size: 12px;\n  color: ");
    push_str(&mut out, fg.as_str());
    push_str(&mut out, ";\n}\n\n.op-issues {\n  font-size: 11px;\n  color: alpha(");
    push_str(&mut out, fg.as_str());
    push_str(&mut out, ", 0.70);\n  padding-top: 8px;\n}\n\n.op-search {\n  background-color: ");
    push_str(&mut out, bg2.as_str());
    push_str(&mut out, ";\n  color: ");
    push_str(&mut out, fg.as_str());
    push_str(&mut out, ";\n  border-radius: 0;\n  min-height: 28px;\n  padding: 0 8px;\n  border: 1px solid alpha(");
    push_str(&mut out, fg.as_str());
    push_str(&mut out, ", 0.08);\n  font-size: 13px;\n}\n\n.op-search text {\n  min-height: 0;\n  padding: 0;\n}\n\n.op-search:focus {\n  border-color: ");
    push_str(&mut out, accent.as_str());
    push_str(&mut out, ";\n}\n\n.op-search placeholder {\n  color: alpha(");
    push_str(&mut out, fg.as_str());
    push_str(&mut out, ", 0.45);\n}\n\n.op-card {\n  background-color: ");
    push_str(&mut out, bg2.as_str());
    push_str(&mut out, ";\n  color: ");
    push_str(&mut out, fg.as_str());
    push_str(&mut out, ";\n  border-radius: 0;\n  border: 1px solid alpha(");
    push_str(&mut out, fg.as_str());
    push_str(&mut out, ", 0.08);\n  padding: 0;\n}\n\n.op-card:hover {\n  border-color: alpha(");
    push_str(&mut out, accent.as_str());
    push_str(&mut out, ", 0.55);\n}\n\n.op-card.selected {\n  background-color: alpha(");
    push_str(&mut out, accent.as_str());
    push_str(&mut out, ", 0.20);\n  border: 1px solid ");
    push_str(&mut out, accent.as_str());
    push_str(&mut out, ";\n}\n\n.op-card.selected .op-card-header {\n  background-color: alpha(");
    push_str(&mut out, fg.as_str());
    push_str(&mut out, ", 0.10);\n  border-bottom-color: alpha(");
    push_str(&mut out, fg.as_str());
    push_str(&mut out, ", 0.18);\n}\n\n.op-card.selected .op-meta,\n.op-card.selected .op-chars {\n  color: alpha(");
    push_str(&mut out, fg.as_str());
    push_str(&mut out, ", 0.92);\n}\n\n.op-card-header {\n  background-color: alpha(");
    push_str(&mut out, fg.as_str());
    push_str(&mut out, ", 0.07);\n  border-bottom: 1px solid alpha(");
    push_str(&mut out, fg.as_str());
    push_str(&mut out, ", 0.12);\n  padding: 10px 12px 8px 12px;\n}\n\n.op-card-body {\n  padding: 10px 12px 6px 12px;\n}\n\n.op-card-footer {\n  padding: 4px 12px 8px 12px;\n}\n\n.op-kind {\n  font-weight: 600;\n  font-size: 11px;\n  letter-spacing: 0.3px;\n  color: ");
    push_str(&mut out, fg.as_str());
    push_str(&mut out, ";\n  min-height: 20px;\n}\n\n.op-preview {\n  color: ");
    push_str(&mut out, fg.as_str());
    push_str(&mut out, ";\n  font-family: \"JetBrainsMono Nerd Font\", \"JetBrains Mono\", monospace;\n  font-size: 12px;\n  padding-left: 2px;\n  padding-right: 2px;\n  font-feature-settings: \"liga\" 0, \"calt\" 0;\n}\n\n.op-meta, .op-chars {\n  color: alpha(");
    push_str(&mut out, fg.as_str());
    push_str(&mut out, ", 0.70);\n  font-size: 11px;\n}\n\n.op-empty {\n  color: alpha(");
    push_str(&mut out, fg.as_str());
    push_str(&mut out, ", 0.70);\n  font-size: 13px;\n}\n\n.op-header {\n  padding: 0 4px;\n  min-height: 28px;\n}\n");
    string_from_chars(&out)
}

/// Merging a theme file sets only colors: a key that no entry sets as a
/// color (a `#` value, or `mode`) keeps its color, and the last entry that
/// sets a key as a color decides it.
pub proof fn law_merge_sets_only_colors(
    base: Seq<(Seq<char>, Seq<char>)>,
    entries: Seq<(Seq<char>, ScalarView)>,
    key: Seq<char>,
)
    ensures
        (forall|i: int|
            0 <= i < entries.len() ==> !(is_color_entry(#[trigger] entries[i]) && entries[i].0
                == key)) ==> merged_lookup(base, entries, key) == color_lookup(base, key),
        forall|i: int|
            0 <= i < entries.len() && is_color_entry(#[trigger] entries[i]) && entries[i].0 == key
                && (forall|j: int|
                i < j < entries.len() ==> !(is_color_entry(#[trigger] entries[j]) && entries[j].0
                    == key)) ==> merged_lookup(base, entries, key) == Some(entry_text(entries[i])),
    decreases entries.len(),
{
    if entries.len() > 0 {
        let init = entries.drop_last();
        law_merge_sets_only_colors(base, init, key);
        assert forall|i: int|
            0 <= i < init.len() ==> #[trigger] init[i] == entries[i] by {}
        assert forall|i: int|
            0 <= i < entries.len() && is_color_entry(#[trigger] entries[i]) && entries[i].0 == key
                && (forall|j: int|
                i < j < entries.len() ==> !(is_color_entry(#[trigger] entries[j]) && entries[j].0
                    == key)) implies merged_lookup(base, entries, key) == Some(
            entry_text(entries[i]),
        ) by {
            if i < entries.len() - 1 {
                assert(!(is_color_entry(entries[entries.len() - 1]) && entries[entries.len() - 1].0
                    == key));
                assert(init[i] == entries[i]);
                assert forall|j: int| i < j < init.len() implies !(is_color_entry(
                    #[trigger] init[j],
                ) && init[j].0 == key) by {
                    assert(init[j] == entries[j]);
                }
            }
        }
        if forall|i: int|
            0 <= i < entries.len() ==> !(is_color_entry(#[trigger] entries[i]) && entries[i].0
                == key) {
            assert(!(is_color_entry(entries[entries.len() - 1]) && entries[entries.len() - 1].0
                == key));
            assert forall|i: int| 0 <= i < init.len() implies !(is_color_entry(#[trigger] init[i])
                && init[i].0 == key) by {
                assert(init[i] == entries[i]);
            }
        }
    }
}


/// The selected card is marked in the theme's accent: the stylesheet holds
/// the rule for `.op-card.selected` that tints its background with the
/// accent color and draws its border in it.
pub proof fn law_selected_card_uses_the_accent(
    bg: Seq<char>,
    bg2: Seq<char>,
    fg: Seq<char>,
    accent: Seq<char>,
)
    ensures
        contains_seq(
            css_text(bg, bg2, fg, accent),
            ".op-card.selected {\n  background-color: alpha("@ + accent + ", 0.20);\n  border: 1px solid "@
                + accent,
        ),
{
    let w = css_text(bg, bg2, fg, accent);
    let pre = Seq::<char>::empty()
        + "\nwindow.omapaste {\n  background-color: transparent;\n}\n\n.op-bar {\n  background-color: alpha("@
        + bg
        + ", 0.96);\n  color: "@
        + fg
        + ";\n  border-radius: 0;\n  border: 1px solid alpha("@
        + fg
        + ", 0.10);\n  padding: 12px 16px 12px 16px;\n  min-height: 292px;\n}\n\n.op-title {\n  font-weight: 700;\n  font-size: 13px;\n  letter-spacing: 0.4px;\n  color: "@
        + fg
        + ";\n}\n\n.op-icon-btn {\n  padding: 2px 6px;\n  min-width: 28px;\n  min-height: 28px;\n  border-radius: 0;\n  background-color: transparent;\n  color: alpha("@
        + fg
        + ", 0.80);\n}\n\n.op-icon-btn:hover {\n  background-color: alpha("@
        + fg
        + ", 0.08);\n  color: "@
        + fg
        + ";\n}\n\n.op-count, .op-hint {\n  color: alpha("@
        + fg
        + ", 0.70);\n  font-size: 11px;\n}\n\n.op-shortcuts {\n  padding: 10px 14px;\n  min-width: 200px;\n}\n\npopover, popover.background, popover contents {\n  border-radius: 0;\n}\n\n.op-shortcut-key {\n  font-family: \"JetBrainsMono Nerd Font\", \"JetBrains Mono\", monospace;\n  font-size: 11px;\n  color: alpha("@
        + fg
        + ", 0.70);\n}\n\n.op-shortcut-action {\n  font-size: 12px;\n  color: "@
        + fg
        + ";\n}\n\n.op-issues {\n  font-size: 11px;\n  color: alpha("@
        + fg
        + ", 0.70);\n  padding-top: 8px;\n}\n\n.op-search {\n  background-color: "@
        + bg2
        + ";\n  color: "@
        + fg
        + ";\n  border-radius: 0;\n  min-height: 28px;\n  padding: 0 8px;\n  border: 1px solid alpha("@
        + fg
        + ", 0.08);\n  font-size: 13px;\n}\n\n.op-search text {\n  min-height: 0;\n  padding: 0;\n}\n\n.op-search:focus {\n  border-color: "@
        + accent
        + ";\n}\n\n.op-search placeholder {\n  color: alpha("@
        + fg
        + ", 0.45);\n}\n\n.op-card {\n  background-color: "@
        + bg2
        + ";\n  color: "@
        + fg
        + ";\n  border-radius: 0;\n  border: 1px solid alpha("@
        + fg
        + ", 0.08);\n  padding: 0;\n}\n\n.op-card:hover {\n  border-color: alpha("@
        + accent;
    let l1 = ", 0.55);\n}\n\n.op-card.selected {\n  background-color: alpha("@;
    let gap = ", 0.55);\n}\n\n"@;
    let sel = ".op-card.selected {\n  background-color: alpha("@;
    let mid = ", 0.20);\n  border: 1px solid "@;
    reveal_strlit(", 0.55);\n}\n\n.op-card.selected {\n  background-color: alpha(");
    reveal_strlit(", 0.55);\n}\n\n");
    reveal_strlit(".op-card.selected {\n  background-color: alpha(");
    assert(l1 =~= gap + sel);
    let b = pre + l1 + accent + mid + accent;
    let rule = sel + accent + mid + accent;
    assert(w.subrange(0, b.len() as int) =~= b);
    let at: int = (pre.len() + gap.len()) as int;
    assert(b.subrange(at, b.len() as int) =~= rule);
    assert(w.subrange(at, at + rule.len() as int) =~= rule);
    assert(occurs_at(w, rule, at));
}

} // verus!
