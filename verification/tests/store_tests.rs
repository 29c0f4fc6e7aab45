use std::path::Path;

use omapaste::clip::Clip;
use omapaste::hash::content_hash;
use omapaste::keep::{keep_by_key, keep_until_from, next_keep};
use omapaste::store::{seed_clip, seed_image_name, SeedImage, Store, SEED_TEXT_COUNT};
use omapaste::text::make_preview;

fn open_store(path: &Path) -> Store {
    Store::open(rusqlite::Connection::open(path).unwrap()).unwrap()
}

fn tmp_store() -> (tempfile::TempDir, Store) {
    let dir = tempfile::TempDir::new().unwrap();
    let store = open_store(&dir.path().join("history.sqlite"));
    (dir, store)
}

fn add(store: &mut Store, text: &str, keep: &str, now: i64) -> Clip {
    store
        .add(
            "text",
            "text/plain",
            text.as_bytes(),
            Some(text),
            text,
            None,
            keep,
            50,
            Some(now),
        )
        .unwrap()
        .unwrap()
}

fn sample_images() -> Vec<(&'static str, Vec<u8>)> {
    vec![
        ("7d", b"\x89PNG sample red".to_vec()),
        ("forever", b"\x89PNG sample blue".to_vec()),
    ]
}

fn seed(store: &mut Store, images_dir: &Path) {
    let mut images = Vec::new();
    for (keep, payload) in sample_images() {
        let path = images_dir.join(seed_image_name(&payload));
        images.push(SeedImage {
            keep: keep.to_string(),
            payload,
            path: path.to_str().unwrap().to_string(),
        });
    }
    store.seed(&images).unwrap();
}

#[test]
fn dedup_moves_to_front() {
    let (_d, mut store) = tmp_store();
    let first = add(&mut store, "hello", "1d", 10);
    add(&mut store, "world", "1d", 20);
    let again = add(&mut store, "hello", "1d", 30);
    assert_eq!(first.id, again.id);
    let clips = store.list("", Some(31)).unwrap();
    let texts: Vec<_> = clips.iter().map(|c| c.text.clone().unwrap()).collect();
    assert_eq!(texts, ["hello", "world"]);
}

#[test]
fn expired_clips_are_hidden_and_pruned() {
    let (_d, mut store) = tmp_store();
    add(&mut store, "short", "1h", 100);
    add(&mut store, "kept", "forever", 100);
    let visible = store.list("", Some(100 + 60 * 60 + 1)).unwrap();
    assert_eq!(
        visible
            .iter()
            .map(|c| c.text.clone().unwrap())
            .collect::<Vec<_>>(),
        ["kept"]
    );
    store.prune(50, Some(100 + 60 * 60 + 1)).unwrap();
    assert_eq!(store.count().unwrap(), 1);
}

#[test]
fn set_keep_forever() {
    let (_d, mut store) = tmp_store();
    let clip = add(&mut store, "pin me", "1h", 50);
    let updated = store
        .set_keep(clip.id, "forever", Some(80))
        .unwrap()
        .unwrap();
    assert_eq!(updated.keep_preset, "forever");
    assert!(updated.keep_until.is_none());
}

#[test]
fn max_items_keeps_forever_last() {
    let (_d, mut store) = tmp_store();
    add(&mut store, "a", "1d", 1);
    add(&mut store, "b", "forever", 2);
    add(&mut store, "c", "1d", 3);
    store.prune(2, Some(4)).unwrap();
    let texts: std::collections::HashSet<_> = store
        .list("", Some(4))
        .unwrap()
        .into_iter()
        .filter_map(|c| c.text)
        .collect();
    assert!(texts.contains("b"));
    assert_eq!(texts.len(), 2);
}

#[test]
fn search_filters_preview() {
    let (_d, mut store) = tmp_store();
    add(&mut store, "https://omarchy.org", "1d", 1);
    add(&mut store, "invoice-42", "1d", 2);
    let hits = store.list("omarchy", Some(3)).unwrap();
    assert_eq!(hits[0].text.as_deref(), Some("https://omarchy.org"));
}

#[test]
fn search_does_not_match_kind() {
    let (_d, mut store) = tmp_store();
    add(&mut store, "one", "1d", 1);
    add(&mut store, "two", "1d", 2);
    let hits = store.list("t", Some(3)).unwrap();
    assert_eq!(
        hits.iter()
            .map(|c| c.text.clone().unwrap())
            .collect::<Vec<_>>(),
        ["two"]
    );
    assert!(store.list("text", Some(3)).unwrap().is_empty());
}

#[test]
fn hash_stable() {
    assert_eq!(
        content_hash("text", "text/plain", b"abc"),
        content_hash("text", "text/plain", b"abc")
    );
    assert_ne!(
        content_hash("text", "text/plain", b"abc"),
        content_hash("text", "text/plain", b"abcd")
    );
}

#[test]
fn keep_cycle() {
    assert_eq!(next_keep("1h").key, "1d");
    assert_eq!(next_keep("1d").key, "7d");
    assert_eq!(next_keep("7d").key, "forever");
    assert_eq!(next_keep("forever").key, "1h");
}

#[test]
fn keep_until_forever_is_none() {
    assert!(keep_until_from("forever", 10).is_none());
    assert_eq!(keep_until_from("1h", 10), Some(10 + 3600));
}

#[test]
fn get_missing_and_empty_list() {
    let (_d, mut store) = tmp_store();
    assert!(store.get(99).unwrap().is_none());
    assert!(store.list("", Some(1)).unwrap().is_empty());
    assert_eq!(store.count().unwrap(), 0);
    assert!(store.delete(99).unwrap().is_none());
}

#[test]
fn persists_across_reopen() {
    let dir = tempfile::TempDir::new().unwrap();
    let path = dir.path().join("history.sqlite");
    {
        let mut store = open_store(&path);
        add(&mut store, "kept", "1d", 1);
    }
    let store = open_store(&path);
    assert_eq!(store.count().unwrap(), 1);
    assert_eq!(
        store.list("", Some(2)).unwrap()[0].text.as_deref(),
        Some("kept")
    );
}

#[test]
fn expiry_boundary_is_exclusive_in_list() {
    let (_d, mut store) = tmp_store();
    add(&mut store, "short", "1h", 100);
    assert_eq!(store.list("", Some(100 + 3600)).unwrap().len(), 0);
    assert_eq!(store.list("", Some(100 + 3599)).unwrap().len(), 1);
    assert_eq!(store.count().unwrap(), 1);
    store.prune(50, Some(100 + 3600)).unwrap();
    assert_eq!(store.count().unwrap(), 0);
}

#[test]
fn dedup_does_not_change_keep() {
    let (_d, mut store) = tmp_store();
    let first = add(&mut store, "hello", "1h", 10);
    let again = add(&mut store, "hello", "forever", 40);
    assert_eq!(first.id, again.id);
    assert_eq!(again.keep_preset, "1h");
    assert_eq!(again.keep_until, Some(10 + 3600));
    assert_eq!(again.last_used_at, 40);
}

#[test]
fn prune_returns_expired_image_paths() {
    let (_d, mut store) = tmp_store();
    store
        .add(
            "image",
            "image/png",
            b"png",
            None,
            "Image",
            Some("/tmp/expired.png"),
            "1h",
            50,
            Some(10),
        )
        .unwrap();
    let removed = store.prune(50, Some(10 + 3600)).unwrap();
    assert_eq!(removed, ["/tmp/expired.png".to_string()]);
    assert_eq!(store.count().unwrap(), 0);
}

#[test]
fn same_timestamp_orders_by_newer_id() {
    let (_d, mut store) = tmp_store();
    add(&mut store, "first", "1d", 5);
    add(&mut store, "second", "1d", 5);
    let texts: Vec<_> = store
        .list("", Some(6))
        .unwrap()
        .into_iter()
        .filter_map(|c| c.text)
        .collect();
    assert_eq!(texts, ["second", "first"]);
}

#[test]
fn search_unicode_and_set_keep_recomputes_until() {
    let (_d, mut store) = tmp_store();
    add(&mut store, "こんにちは", "forever", 1);
    assert_eq!(store.list("こん", Some(2)).unwrap().len(), 1);
    let clip = add(&mut store, "pin", "forever", 1);
    let updated = store.set_keep(clip.id, "1h", Some(50)).unwrap().unwrap();
    assert_eq!(updated.keep_preset, "1h");
    assert_eq!(updated.keep_until, Some(50 + 3600));
}

#[test]
fn seed_inserts_text_and_image_samples() {
    let (dir, mut store) = tmp_store();
    let images = dir.path().join("images");
    assert_eq!(store.count().unwrap(), 0);
    seed(&mut store, &images);
    let clips = store.list("", None).unwrap();
    let n_images = sample_images().len();
    assert_eq!(clips.len(), SEED_TEXT_COUNT + n_images);
    assert!(clips.iter().any(|c| c.kind == "text"));
    assert_eq!(clips.iter().filter(|c| c.kind == "text").count(), SEED_TEXT_COUNT);
    assert!(clips.iter().any(|c| c.kind == "image"));
    assert_eq!(clips.iter().filter(|c| c.kind == "image").count(), n_images);
    assert_eq!(clips[0].text.as_deref(), Some(seed_clip(0).0));
    assert!(clips
        .iter()
        .any(|c| c.text.as_deref() == Some("https://omarchy.org")));
    assert!(clips
        .iter()
        .any(|c| c.text.as_deref() == Some(omapaste::paths::ISSUES_URL)));
    let image = clips.iter().find(|c| c.kind == "image").unwrap();
    assert_eq!(image.mime, "image/png");
    assert!(image
        .image_path
        .as_ref()
        .is_some_and(|p| Path::new(p).starts_with(&images)
            && sample_images().iter().any(|(_, b)| p.ends_with(&seed_image_name(b)))));
    seed(&mut store, &images);
    assert_eq!(store.count().unwrap(), (SEED_TEXT_COUNT + n_images) as i64);
}

fn sample_clip(kind: &str, text: Option<&str>, bytes: i64, keep: &str) -> Clip {
    Clip {
        id: 1,
        created_at: 0,
        last_used_at: 0,
        keep_preset: keep.into(),
        keep_until: None,
        mime: "text/plain".into(),
        kind: kind.into(),
        text: text.map(str::to_string),
        preview: text.unwrap_or("").into(),
        hash: "x".into(),
        image_path: None,
        byte_size: bytes,
        custom_label: None,
    }
}

#[test]
fn empty_payload_is_ignored() {
    let (_d, mut store) = tmp_store();
    let none = store
        .add(
            "text",
            "text/plain",
            b"",
            Some(""),
            "",
            None,
            "1d",
            50,
            Some(1),
        )
        .unwrap();
    assert!(none.is_none());
    assert_eq!(store.count().unwrap(), 0);
}

#[test]
fn delete_removes_clip_and_returns_image_path() {
    let (_d, mut store) = tmp_store();
    let clip = add(&mut store, "bye", "1d", 1);
    assert!(store.delete(clip.id).unwrap().is_none());
    assert!(store.get(clip.id).unwrap().is_none());
    assert_eq!(store.count().unwrap(), 0);

    let image = store
        .add(
            "image",
            "image/png",
            b"png-bytes",
            None,
            "Image",
            Some("/tmp/clip.png"),
            "1d",
            50,
            Some(2),
        )
        .unwrap()
        .unwrap();
    assert_eq!(image.kind, "image");
    let path = store.delete(image.id).unwrap();
    assert_eq!(path.as_deref(), Some("/tmp/clip.png"));
}

#[test]
fn touch_reorders_by_last_used() {
    let (_d, mut store) = tmp_store();
    let a = add(&mut store, "a", "1d", 1);
    add(&mut store, "b", "1d", 2);
    store.touch(a.id, Some(9)).unwrap();
    let texts: Vec<_> = store
        .list("", Some(10))
        .unwrap()
        .into_iter()
        .filter_map(|c| c.text)
        .collect();
    assert_eq!(texts, ["a", "b"]);
}

#[test]
fn invalid_keep_preset_is_ignored() {
    let (_d, mut store) = tmp_store();
    let clip = add(&mut store, "stay", "1h", 10);
    let same = store.set_keep(clip.id, "nope", Some(11)).unwrap().unwrap();
    assert_eq!(same.keep_preset, "1h");
    assert_eq!(same.keep_until, Some(10 + 3600));
}

#[test]
fn add_prunes_to_max_items() {
    let (_d, mut store) = tmp_store();
    add(&mut store, "old", "1d", 1);
    add(&mut store, "mid", "1d", 2);
    store
        .add(
            "text",
            "text/plain",
            b"new",
            Some("new"),
            "new",
            None,
            "1d",
            2,
            Some(3),
        )
        .unwrap();
    let texts: Vec<_> = store
        .list("", Some(4))
        .unwrap()
        .into_iter()
        .filter_map(|c| c.text)
        .collect();
    assert_eq!(texts, ["new", "mid"]);
}

#[test]
fn search_is_case_insensitive_and_uses_full_text() {
    let (_d, mut store) = tmp_store();
    store
        .add(
            "text",
            "text/plain",
            b"Hello Tokyo Night",
            Some("Hello Tokyo Night"),
            "Hello…",
            None,
            "1d",
            50,
            Some(1),
        )
        .unwrap();
    assert_eq!(store.list("tokyo", Some(2)).unwrap().len(), 1);
    assert_eq!(store.list("HELLO", Some(2)).unwrap().len(), 1);
    assert_eq!(store.list("night", Some(2)).unwrap().len(), 1);
    assert_eq!(store.list("   ", Some(2)).unwrap().len(), 1);
    assert!(store.list("missing", Some(2)).unwrap().is_empty());
}

#[test]
fn preview_collapses_whitespace_and_ellipsizes() {
    assert_eq!(make_preview("  foo   bar  ", 280), "foo bar");
    assert_eq!(make_preview("abcd", 4), "abcd");
    assert_eq!(make_preview("abcde", 4), "abc…");
    let preview = make_preview("こんにちは世界", 4);
    assert!(preview.ends_with('…'));
    assert_eq!(preview.chars().count(), 4);
}

#[test]
fn hash_includes_kind_and_mime() {
    assert_ne!(
        content_hash("text", "text/plain", b"abc"),
        content_hash("image", "text/plain", b"abc")
    );
    assert_ne!(
        content_hash("text", "text/plain", b"abc"),
        content_hash("text", "text/html", b"abc")
    );
}

#[test]
fn keep_helpers() {
    assert!(keep_by_key("nope").is_none());
    assert_eq!(next_keep("nope").key, "7d");
    assert_eq!(keep_until_from("nope", 0), Some(86_400));
    assert_eq!(keep_until_from("7d", 0), Some(86_400 * 7));
}

#[test]
fn clip_labels_and_sizes() {
    let one = sample_clip("text", Some("é"), 0, "1d");
    assert_eq!(one.kind_label(), "Text");
    assert_eq!(one.format_chars(), "1 char");
    assert_eq!(one.keep_short(), "1d");
    assert_eq!(one.keep_label(), "1 day");

    let many = sample_clip("text", Some("ab"), 0, "forever");
    assert_eq!(many.format_chars(), "2 chars");
    assert_eq!(many.keep_short(), "∞");
    assert_eq!(many.keep_label(), "Forever");

    let empty = sample_clip("text", None, 0, "7d");
    assert_eq!(empty.format_chars(), "0 chars");
    assert_eq!(empty.kind_label(), "Text");

    let image = sample_clip("image", None, 500, "1h");
    assert_eq!(image.kind_label(), "Image");
    assert_eq!(image.format_chars(), "500 B");
    assert_eq!(
        sample_clip("image", None, 1536, "1h").format_chars(),
        "1.5 KB"
    );
    assert_eq!(
        sample_clip("image", None, 20_480, "1h").format_chars(),
        "20 KB"
    );
    assert_eq!(
        sample_clip("image", None, 2 * 1024 * 1024, "1h").format_chars(),
        "2.0 MB"
    );
    assert_eq!(
        sample_clip("foo_bar", None, 0, "1d").kind_label(),
        "foo bar"
    );
    assert_eq!(
        sample_clip("image", None, 1023, "1h").format_chars(),
        "1023 B"
    );
    assert_eq!(
        sample_clip("image", None, 1024, "1h").format_chars(),
        "1.0 KB"
    );
    let unknown = sample_clip("text", Some("x"), 0, "custom");
    assert_eq!(unknown.keep_label(), "custom");
    assert_eq!(unknown.keep_short(), "custom");
}

#[test]
fn custom_label_round_trip_and_search() {
    let (_d, mut store) = tmp_store();
    let clip = add(&mut store, "hello", "1d", 10);
    assert_eq!(clip.display_label(), "Text");

    let renamed = store
        .set_custom_label(clip.id, Some("  Notes  "))
        .unwrap()
        .unwrap();
    assert_eq!(renamed.custom_label.as_deref(), Some("Notes"));
    assert_eq!(renamed.display_label(), "Notes");

    let cleared = store
        .set_custom_label(clip.id, Some("  "))
        .unwrap()
        .unwrap();
    assert!(cleared.custom_label.is_none());
    assert_eq!(cleared.display_label(), "Text");

    store.set_custom_label(clip.id, Some("todo")).unwrap();
    assert_eq!(store.list("todo", Some(11)).unwrap().len(), 1);
    assert!(store.list("text", Some(11)).unwrap().is_empty());
}

#[test]
fn preview_tiny_limit_is_ellipsis() {
    assert_eq!(make_preview("abc", 1), "…");
    assert_eq!(make_preview("abc", 0), "…");
}

#[test]
fn seed_keep_mix() {
    let (dir, mut store) = tmp_store();
    seed(&mut store, &dir.path().join("images"));
    let clips = store.list("", None).unwrap();
    assert!(clips.iter().any(|c| c.keep_preset == "forever"));
    assert!(clips.iter().any(|c| c.keep_preset == "7d"));
    assert!(clips.iter().all(|c| c.keep_preset != "1h"));
}

#[test]
fn hash_is_lowercase_hex_sha256_of_kind_mime_and_payload() {
    assert_eq!(
        content_hash("text", "text/plain", b"abc"),
        "f26bd93a8b702bc1a31d42cd87e0302be7cb167407a282c4a06280882ede383d"
    );
    assert_eq!(
        seed_image_name(b"png"),
        "7fa99ea1df0ef9b7ae35e5726ddd4ae6c3ad05bee4b5e6ac6c3f3feb9b81a234.bin"
    );
}

#[test]
fn empty_payload_is_ignored_whatever_the_time() {
    let (_dir, mut store) = tmp_store();
    let r = store
        .add("text", "text/plain", b"", Some(""), "", None, "7d", 50, Some(i64::MAX))
        .unwrap();
    assert!(r.is_none());
    assert_eq!(store.count().unwrap(), 0);
}

#[test]
fn unknown_keep_preset_changes_nothing_whatever_the_time() {
    let (_dir, mut store) = tmp_store();
    let clip = store
        .add("text", "text/plain", b"hi", Some("hi"), "hi", None, "1h", 50, Some(100))
        .unwrap()
        .unwrap();
    let same = store.set_keep(clip.id, "fortnight", Some(i64::MAX)).unwrap().unwrap();
    assert_eq!(same.keep_preset, "1h");
    assert_eq!(same.keep_until, clip.keep_until);
}
