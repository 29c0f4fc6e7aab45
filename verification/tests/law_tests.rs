use omapaste::config::config_from_text;
use omapaste::store::Store;

fn tmp_store() -> (tempfile::TempDir, Store) {
    let dir = tempfile::TempDir::new().unwrap();
    let conn = rusqlite::Connection::open(dir.path().join("history.sqlite")).unwrap();
    (dir, Store::open(conn).unwrap())
}

fn add_text(store: &mut Store, text: &str, keep: &str, max: i64, now: i64) -> Option<omapaste::clip::Clip> {
    store
        .add("text", "text/plain", text.as_bytes(), Some(text), text, None, keep, max, Some(now))
        .unwrap()
}

#[test]
fn prune_never_keeps_more_than_the_cap() {
    let (_d, mut store) = tmp_store();
    for (i, t) in ["a", "b", "c", "d", "e"].iter().enumerate() {
        add_text(&mut store, t, if i == 0 { "forever" } else { "1d" }, 50, i as i64 + 1);
    }
    let removed = store.prune(2, Some(10)).unwrap();
    assert!(removed.is_empty());
    assert_eq!(store.count().unwrap(), 2);
    let kept: Vec<_> = store.list("", Some(10)).unwrap().into_iter().filter_map(|c| c.text).collect();
    assert_eq!(kept, ["e", "a"]);
    store.prune(0, Some(10)).unwrap();
    assert_eq!(store.count().unwrap(), 0);
}

#[test]
fn new_content_reads_back_as_given() {
    let (_d, mut store) = tmp_store();
    let clip = store
        .add("text", "text/plain", b"abc", Some("abc"), "abc", None, "7d", 10, Some(100))
        .unwrap()
        .unwrap();
    assert_eq!(clip.text.as_deref(), Some("abc"));
    assert_eq!(clip.keep_preset, "7d");
    assert_eq!(clip.keep_until, Some(100 + 7 * 86_400));
    assert_eq!(clip.created_at, 100);
    assert_eq!(clip.byte_size, 3);
    assert!(clip.custom_label.is_none());
    assert_eq!(store.get(clip.id).unwrap().unwrap().hash, clip.hash);
}

#[test]
fn a_clip_added_with_no_room_is_gone() {
    let (_d, mut store) = tmp_store();
    assert!(add_text(&mut store, "x", "1d", 0, 1).is_none());
    assert_eq!(store.count().unwrap(), 0);
}

#[test]
fn known_content_keeps_its_clip() {
    let (_d, mut store) = tmp_store();
    let first = add_text(&mut store, "same", "1h", 50, 1).unwrap();
    add_text(&mut store, "other", "1d", 50, 2);
    let again = add_text(&mut store, "same", "forever", 50, 3).unwrap();
    assert_eq!(store.count().unwrap(), 2);
    assert_eq!(again.id, first.id);
    assert_eq!(again.created_at, first.created_at);
    assert_eq!(again.keep_until, first.keep_until);
    assert_eq!(again.last_used_at, 3);
}

#[test]
fn keep_and_label_read_back_and_delete_forgets() {
    let (_d, mut store) = tmp_store();
    let clip = add_text(&mut store, "note", "1d", 50, 1).unwrap();
    let kept = store.set_keep(clip.id, "1h", Some(5)).unwrap().unwrap();
    assert_eq!((kept.keep_preset.as_str(), kept.keep_until), ("1h", Some(5 + 3600)));
    let labelled = store.set_custom_label(clip.id, Some(" todo ")).unwrap().unwrap();
    assert_eq!(labelled.custom_label.as_deref(), Some("todo"));
    assert!(store.set_custom_label(99, Some("x")).unwrap().is_none());
    store.delete(clip.id).unwrap();
    assert!(store.get(clip.id).unwrap().is_none());
}

#[test]
fn settings_are_always_usable() {
    for text in ["max_items = -5\nmax_bytes = -1", "default_keep = 3", "paste_keys = \"x\"", "]["] {
        let cfg = config_from_text(text);
        assert!(cfg.max_items >= 1);
        assert!(cfg.max_bytes >= 1024);
        assert!(["1h", "1d", "7d", "forever"].contains(&cfg.default_keep.as_str()));
        assert!(["auto", "shift-insert", "ctrl-v"].contains(&cfg.paste_keys.as_str()));
    }
}
