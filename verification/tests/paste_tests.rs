use omapaste::paste::{is_blank, uses_shift_insert, window_from_fields, TargetWindow};

fn window(class: &str, tags: &[&str]) -> TargetWindow {
    TargetWindow {
        address: "0x1".into(),
        wm_class: class.into(),
        title: String::new(),
        tags: tags.iter().map(|s| (*s).to_string()).collect(),
    }
}

fn window_from_json(json: &[u8]) -> Option<TargetWindow> {
    if is_blank(json) {
        return None;
    }
    let data: serde_json::Value = serde_json::from_slice(json).ok()?;
    let text = |k: &str| data.get(k).and_then(|v| v.as_str()).map(str::to_string);
    let tags = data.get("tags").and_then(|v| v.as_array()).map(|a| {
        a.iter()
            .filter_map(|t| t.as_str().map(str::to_string))
            .collect()
    });
    window_from_fields(text("address"), text("class"), text("title"), tags)
}

#[test]
fn terminals_by_class() {
    for class in [
        "com.mitchellh.ghostty",
        "kitty",
        "Alacritty",
        "foot",
        "org.wezfurlong.wezterm",
        "rio",
    ] {
        assert!(window(class, &[]).is_terminal(), "{class}");
    }
    assert!(!window("firefox", &[]).is_terminal());
    assert!(!window("google-chrome", &[]).is_terminal());
}

#[test]
fn terminals_by_hypr_tag() {
    assert!(window("something", &["terminal"]).is_terminal());
    assert!(window("something", &["terminal*"]).is_terminal());
    assert!(!window("something", &["browser"]).is_terminal());
}

#[test]
fn paste_key_choice() {
    assert!(uses_shift_insert("shift-insert", false));
    assert!(uses_shift_insert("shift-insert", true));
    assert!(!uses_shift_insert("ctrl-v", true));
    assert!(!uses_shift_insert("ctrl-v", false));
    assert!(uses_shift_insert("auto", true));
    assert!(!uses_shift_insert("auto", false));
    assert!(!uses_shift_insert("laser", true));
}

#[test]
fn hypr_json_window() {
    let json = br#"{"address":"0xabc","class":"kitty","title":"vim","tags":["terminal"]}"#;
    let win = window_from_json(json).unwrap();
    assert_eq!(win.address, "0xabc");
    assert_eq!(win.wm_class, "kitty");
    assert_eq!(win.title, "vim");
    assert!(win.is_terminal());

    let sparse = br#"{"address":"0x1"}"#;
    let win = window_from_json(sparse).unwrap();
    assert_eq!(win.wm_class, "");
    assert!(win.tags.is_empty());
    assert!(!win.is_terminal());
}

#[test]
fn hypr_json_rejects_empty_or_invalid() {
    assert!(window_from_json(b"").is_none());
    assert!(window_from_json(b"   \n").is_none());
    assert!(window_from_json(b"not-json").is_none());
    assert!(window_from_json(br#"{"address":"","class":"kitty"}"#).is_none());
    assert!(window_from_json(br#"{"class":"kitty"}"#).is_none());
}

#[test]
fn blank_means_only_ascii_whitespace() {
    assert!(is_blank(b""));
    assert!(is_blank(b" \t\r\n\x0c"));
    assert!(!is_blank(b" x "));
}
