use omapaste::clipboard::{
    capture_decision, capture_held, copy_digest, first_image_mime, looks_secret, parse_mime_list, should_ignore, Capture,
};
use omapaste::config::Config;
use omapaste::hash::content_hash;

#[test]
fn secret_mime_types_are_skipped() {
    assert!(looks_secret(&vec![
        "text/plain".into(),
        "x-kde-passwordManagerHint".into()
    ]));
    assert!(looks_secret(&vec!["application/x-keepassxc".into()]));
    assert!(looks_secret(&vec!["text/secret".into()]));
    assert!(looks_secret(&vec!["x-nm-origin".into()]));
    assert!(!looks_secret(&vec!["text/plain".into(), "text/html".into()]));
    assert!(!looks_secret(&vec![]));
}

#[test]
fn first_image_mime_prefers_listed_image() {
    let types = vec!["text/plain".into(), "image/png".into(), "image/jpeg".into()];
    assert_eq!(first_image_mime(&types), Some("image/png"));
    assert_eq!(first_image_mime(&vec!["text/plain".into()]), None);
}

#[test]
fn ignore_hash_only_matches_live_digest() {
    let now = 1_000_000_000;
    let slot = Some(("abc".to_string(), now + 5_000_000));
    assert!(should_ignore("abc", &slot, now));
    assert!(!should_ignore("def", &slot, now));
    let slot = Some(("abc".to_string(), now - 1));
    assert!(!should_ignore("abc", &slot, now));
    let slot: Option<(String, i64)> = None;
    assert!(!should_ignore("abc", &slot, now));
}

#[test]
fn parse_mime_list_drops_blank_lines() {
    assert_eq!(
        parse_mime_list("text/plain\n\n  image/png  \n"),
        vec!["text/plain".to_string(), "image/png".to_string()]
    );
    assert!(parse_mime_list("").is_empty());
}

#[test]
fn parse_mime_list_handles_crlf_and_no_final_newline() {
    assert_eq!(
        parse_mime_list("text/plain\r\nimage/png"),
        vec!["text/plain".to_string(), "image/png".to_string()]
    );
}

fn cfg() -> Config {
    Config {
        default_keep: "1d".into(),
        max_items: 50,
        max_bytes: 100,
        ignore_secrets: true,
        paste_keys: "auto".into(),
    }
}

fn decide_text(config: &Config, types: &[&str], payload: &[u8], ignore: &Option<(String, i64)>) -> Capture {
    let types: Vec<String> = types.iter().map(|s| (*s).to_string()).collect();
    capture_decision(config, "text", &types, "text/plain", payload, ignore, 10)
}

#[test]
fn ingest_skips_secrets_empty_whitespace_and_oversize() {
    let none = None;
    assert!(matches!(
        decide_text(&cfg(), &["text/plain", "x-kde-passwordManagerHint"], b"secret", &none),
        Capture::Skip
    ));
    let mut open = cfg();
    open.ignore_secrets = false;
    assert!(matches!(
        decide_text(&open, &["text/plain", "x-kde-passwordManagerHint"], b"secret", &none),
        Capture::Text(_, _)
    ));
    assert!(matches!(decide_text(&cfg(), &["text/plain"], b"", &none), Capture::Skip));
    assert!(matches!(decide_text(&cfg(), &["text/plain"], b"   \n", &none), Capture::Skip));
    let big = vec![b'a'; 101];
    assert!(matches!(decide_text(&cfg(), &["text/plain"], &big, &none), Capture::Skip));
    let exact = vec![b'a'; 100];
    assert!(matches!(decide_text(&cfg(), &["text/plain"], &exact, &none), Capture::Text(_, _)));
}

#[test]
fn ingest_stores_text_and_honors_ignore_hash() {
    match decide_text(&cfg(), &["text/plain"], b"hello world", &None) {
        Capture::Text(text, preview) => {
            assert_eq!(text, "hello world");
            assert_eq!(preview, "hello world");
        }
        other => panic!("unexpected {other:?}"),
    }
    let digest = content_hash("text", "text/plain", b"hello world");
    let slot = Some((digest, 10 + 5_000_000));
    assert!(matches!(
        decide_text(&cfg(), &["text/plain"], b"hello world", &slot),
        Capture::Skip
    ));
}

#[test]
fn images_are_named_by_their_hash() {
    let types = vec!["image/png".to_string()];
    let payload = b"png-bytes-here";
    match capture_decision(&cfg(), "image/png", &types, "image/png", payload, &None, 10) {
        Capture::Image(name) => {
            assert_eq!(name, format!("{}.bin", content_hash("image", "image/png", payload)));
        }
        other => panic!("unexpected {other:?}"),
    }
    let slot = Some((content_hash("image", "image/png", payload), 11));
    assert!(matches!(
        capture_decision(&cfg(), "image/png", &types, "image/png", payload, &slot, 10),
        Capture::Skip
    ));
}

#[test]
fn invalid_utf8_is_kept_lossily() {
    match decide_text(&cfg(), &["text/plain"], b"ab\xffcd", &None) {
        Capture::Text(text, _) => assert_eq!(text, "ab\u{fffd}cd"),
        other => panic!("unexpected {other:?}"),
    }
}

#[test]
fn changes_inside_the_hold_are_not_captured() {
    assert!(capture_held(99, 100));
    assert!(!capture_held(100, 100));
    assert!(!capture_held(101, 100));
}

#[test]
fn the_bars_own_copy_comes_back_ignored() {
    let text = b"copied from the bar";
    let slot = Some((copy_digest("text", "text/markdown", text), 11));
    assert!(matches!(decide_text(&cfg(), &["text/plain"], text, &slot), Capture::Skip));
    assert!(matches!(decide_text(&cfg(), &["text/plain"], text, &None), Capture::Text(_, _)));
    let png = b"png-bytes";
    let types = vec!["image/png".to_string()];
    let slot = Some((copy_digest("image", "image/png", png), 11));
    assert!(matches!(
        capture_decision(&cfg(), "image/png", &types, "image/png", png, &slot, 10),
        Capture::Skip
    ));
    assert_eq!(copy_digest("image", "image/png", png), content_hash("image", "image/png", png));
    assert_eq!(copy_digest("text", "x", text), content_hash("text", "text/plain", text));
}
