use omapaste::theme::{
    css_for, fallback_colors, insert_color, merge_colors_toml, parse_theme_name, theme_name_from,
    Theme,
};

fn theme_with(pairs: &[(&str, &str)]) -> Theme {
    let mut colors = fallback_colors();
    for (k, v) in pairs {
        insert_color(&mut colors, (*k).into(), (*v).into());
    }
    Theme {
        name: "test".into(),
        colors,
    }
}

fn color<'a>(colors: &'a [(String, String)], key: &str) -> Option<&'a str> {
    colors.iter().find(|(k, _)| k == key).map(|(_, v)| v.as_str())
}

#[test]
fn parse_theme_name_trims_and_defaults() {
    assert_eq!(parse_theme_name("Last Horizon\n"), "Last Horizon");
    assert_eq!(parse_theme_name("   "), "unknown");
    assert_eq!(parse_theme_name(""), "unknown");
}

#[test]
fn merge_keeps_hex_and_mode_only() {
    let mut colors = fallback_colors();
    merge_colors_toml(
        &mut colors,
        r##"
accent = "#ff0000"
mode = "light"
foreground = "red"
count = 3
"##,
    );
    assert_eq!(color(&colors, "accent").unwrap(), "#ff0000");
    assert_eq!(color(&colors, "mode").unwrap(), "light");
    assert_eq!(color(&colors, "foreground").unwrap(), "#c0caf5");
}

#[test]
fn invalid_toml_leaves_fallbacks() {
    let mut colors = fallback_colors();
    merge_colors_toml(&mut colors, "???");
    assert_eq!(color(&colors, "accent").unwrap(), "#7aa2f7");
}

#[test]
fn get_falls_back_then_white() {
    let theme = Theme {
        name: "x".into(),
        colors: Vec::new(),
    };
    assert_eq!(theme.get("accent"), "#7aa2f7");
    assert_eq!(theme.get("no-such-color"), "#ffffff");
}

#[test]
fn own_color_wins_over_fallback() {
    let theme = theme_with(&[("accent", "#010203"), ("extra", "#abcabc")]);
    assert_eq!(theme.get("accent"), "#010203");
    assert_eq!(theme.get("extra"), "#abcabc");
    assert_eq!(theme.get("background"), "#1a1b26");
}

#[test]
fn css_uses_theme_colors_and_square_chrome() {
    let theme = theme_with(&[
        ("background", "#111111"),
        ("lighter_background", "#222222"),
        ("bright_foreground", "#eeeeee"),
        ("accent", "#abcdef"),
    ]);
    let css = css_for(&theme);
    assert!(css.contains("#111111"));
    assert!(css.contains("#222222"));
    assert!(css.contains("#eeeeee"));
    assert!(css.contains("#abcdef"));
    assert!(css.contains("border-radius: 0"));
    assert!(!css.contains("overflow"));
    assert!(css.contains(".op-search text"));
    assert!(css.contains("min-height: 28px"));
    assert!(!css.contains("line-height"));
    assert!(css.contains("min-height: 20px"));
    assert!(css.contains("padding: 10px 12px 6px 12px"));
    assert!(css.contains("font-feature-settings"));
}

#[test]
fn css_starts_with_the_window_rule() {
    let css = css_for(&theme_with(&[]));
    assert!(css.starts_with("\nwindow.omapaste {\n  background-color: transparent;\n}\n"));
    assert!(css.contains("background-color: alpha(#1a1b26, 0.96);"));
}

#[test]
fn theme_name_falls_back_to_unknown() {
    assert_eq!(theme_name_from(None), "unknown");
    assert_eq!(theme_name_from(Some("  \n")), "unknown");
    assert_eq!(theme_name_from(Some(" tokyo-night\n")), "tokyo-night");
}
