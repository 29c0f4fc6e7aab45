use omapaste::config::{config_from_text, Config, DEFAULT_CONFIG};

#[test]
fn defaults_apply_without_settings() {
    let cfg = Config::default();
    assert_eq!(cfg.default_keep, "1d");
    assert_eq!(cfg.paste_keys, "auto");
    assert_eq!(cfg.max_items, 200);
    assert_eq!(cfg.max_bytes, 8_000_000);
    assert!(cfg.ignore_secrets);
}

#[test]
fn invalid_keep_falls_back() {
    let cfg = config_from_text("default_keep = \"nope\"\npaste_keys = \"laser\"\n");
    assert_eq!(cfg.default_keep, "1d");
    assert_eq!(cfg.paste_keys, "auto");
}

#[test]
fn custom_values() {
    let cfg = config_from_text(
        "default_keep = \"forever\"\nmax_items = 12\nignore_secrets = false\npaste_keys = \"shift-insert\"\n",
    );
    assert_eq!(cfg.default_keep, "forever");
    assert_eq!(cfg.max_items, 12);
    assert!(!cfg.ignore_secrets);
    assert_eq!(cfg.paste_keys, "shift-insert");
    assert!(cfg.keep_seconds().is_none());
}

#[test]
fn default_config_text_parses() {
    let cfg = config_from_text(DEFAULT_CONFIG);
    assert_eq!(cfg.default_keep, "1d");
    assert_eq!(cfg.max_items, 200);
    assert_eq!(cfg.max_bytes, 8_000_000);
    assert!(cfg.ignore_secrets);
    assert_eq!(cfg.paste_keys, "auto");
    assert_eq!(cfg.keep_seconds(), Some(86_400));
}

#[test]
fn floors_and_paste_key_values() {
    let cfg = config_from_text("max_items = 0\nmax_bytes = 10\npaste_keys = \"ctrl-v\"\n");
    assert_eq!(cfg.max_items, 1);
    assert_eq!(cfg.max_bytes, 1024);
    assert_eq!(cfg.paste_keys, "ctrl-v");
}

#[test]
fn broken_toml_uses_defaults() {
    let cfg = config_from_text("[[[[");
    assert_eq!(cfg.default_keep, "1d");
    assert_eq!(cfg.paste_keys, "auto");
}

#[test]
fn extra_keys_are_ignored() {
    let cfg = config_from_text("toggle_key = \"SUPER + V\"\ndefault_keep = \"7d\"\n");
    assert_eq!(cfg.default_keep, "7d");
    assert_eq!(cfg.keep_seconds(), Some(86_400 * 7));
}

#[test]
fn wrong_types_keep_defaults() {
    let cfg = config_from_text("default_keep = \"1h\"\nmax_items = \"12\"\n");
    assert_eq!(cfg.default_keep, "1h");
    assert_eq!(cfg.keep_seconds(), Some(3600));
    assert_eq!(cfg.max_items, 200);
}
