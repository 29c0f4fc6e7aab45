use omapaste::bar::{
    bar_width_for, card_text, clip_drag_payload, drag_file_name, format_age, format_age_at,
    format_age_with,
    shortcut_at, should_reopen_after_drag, text_drag_mime_types, CardBody, CARD_BODY_PAD_X,
    CARD_BORDER, CARD_DRAG_THRESHOLD_PX, CARD_WIDTH, PREVIEW_CELL_PX, PREVIEW_LINES,
    PREVIEW_MAX_CHARS, SHORTCUT_COUNT, SIDE_MARGIN,
};
use omapaste::clip::Clip;
use omapaste::editing::{
    char_byte_index, entry_edit_backspace, entry_edit_backspace_word, entry_edit_delete,
    entry_edit_insert, entry_edit_move, entry_edit_move_word, kind_edit_range,
    search_text_pop_word,
};
use omapaste::hash::content_hash;
use omapaste::keys::{
    bar_key_action, clamp_select, key_intent, move_selection_target, rename_key_step,
    search_key_step, select_after_delete, visible_clip_indices, BarAction, KeyIntent, RenameStep,
    SearchStep, KEY_1, KEY_9, KEY_BACKSPACE, KEY_DELETE, KEY_END, KEY_ESCAPE, KEY_HOME,
    KEY_KP_DELETE, KEY_KP_ENTER, KEY_LEFT, KEY_LOWER_A, KEY_LOWER_F, KEY_LOWER_K, KEY_LOWER_U,
    KEY_LOWER_C, KEY_RETURN, KEY_RIGHT, KEY_SLASH, KEY_UPPER_C, KEY_UPPER_K,
};
use omapaste::keys::{
    count_text, filtered_selection, kept_selection, reloaded_selection, rename_begin,
    rename_start_state, RenameBegin,
};
use omapaste::store::{seed_clip, SEED_TEXT_COUNT};
use omapaste::text::make_preview;

fn sample_clip(kind: &str, text: Option<&str>, image_path: Option<&str>) -> Clip {
    Clip {
        id: 1,
        created_at: 0,
        last_used_at: 0,
        keep_preset: "1d".into(),
        keep_until: None,
        mime: if kind == "image" {
            "image/png".into()
        } else {
            "text/plain".into()
        },
        kind: kind.into(),
        text: text.map(str::to_string),
        preview: text.unwrap_or("").into(),
        hash: "x".into(),
        image_path: image_path.map(str::to_string),
        byte_size: 0,
        custom_label: None,
    }
}

fn intent(key: u32, ctrl: bool, searching: bool) -> KeyIntent {
    let unicode = char::from_u32(key).filter(|_| key < 0xff00);
    key_intent(key, unicode, ctrl, searching)
}

#[test]
fn age_labels() {
    let now = 1_700_000_000;
    assert_eq!(format_age_at(now, now), "just now");
    assert_eq!(format_age_at(now - 11, now), "just now");
    assert_eq!(format_age_at(now - 12, now), "12s ago");
    assert_eq!(format_age_at(now - 59, now), "59s ago");
    assert_eq!(format_age_at(now - 60, now), "1m ago");
    assert_eq!(format_age_at(now - 3599, now), "59m ago");
    assert_eq!(format_age_at(now - 3600, now), "1h ago");
    assert_eq!(format_age_at(now - 86399, now), "23h ago");
    assert_eq!(format_age_at(now - 86400, now), "yesterday");
    assert_eq!(format_age_at(now - 86400 * 2, now), "2d ago");
    assert_eq!(format_age_at(now - 86400 * 6, now), "6d ago");
    let week = format_age_at(now - 86400 * 7, now);
    assert!(!week.ends_with("d ago"), "{week}");
    let older = format_age_at(now - 86400 * 10, now);
    assert!(!older.ends_with("d ago"), "{older}");
    assert!(!older.is_empty());
}

#[test]
fn future_timestamps_are_just_now() {
    let now = 1_700_000_000;
    assert_eq!(format_age_at(now + 60, now), "just now");
}

#[test]
fn old_ages_use_the_local_date_or_days() {
    let now = 1_700_000_000;
    assert_eq!(format_age_with(now - 86400 * 10, now, Some("Nov 4".into())), "Nov 4");
    assert_eq!(format_age_with(now - 86400 * 10, now, None), "10d ago");
    assert_eq!(format_age_with(now - 86400 * 3, now, Some("Nov 4".into())), "3d ago");
}

#[test]
fn bar_width_tracks_output_minus_side_margins() {
    assert_eq!(bar_width_for(1280), 1280 - 2 * SIDE_MARGIN);
    assert_eq!(bar_width_for(1920), 1920 - 2 * SIDE_MARGIN);
    assert_eq!(bar_width_for(640), 800);
    assert_eq!(bar_width_for(800 + 2 * SIDE_MARGIN), 800);
}

#[test]
fn shortcut_table_covers_core_actions() {
    let keys: Vec<_> = (0..SHORTCUT_COUNT).map(|i| shortcut_at(i).0).collect();
    assert!(keys.contains(&"← →"));
    assert!(keys.contains(&"Enter"));
    assert!(keys.contains(&"Del"));
    assert!(keys.contains(&"Ctrl+K"));
    assert!(keys.contains(&"Esc"));
    assert!(keys.contains(&"Type"));
    assert!(keys.contains(&"Click"));
    assert!(keys.contains(&"Drag"));
}

#[test]
fn clip_drag_payload_text() {
    let clip = sample_clip("text", Some("hello drag"), None);
    let payload = clip_drag_payload(&clip, None).unwrap();
    assert!(payload.is_text);
    assert_eq!(payload.mime, "text/plain;charset=utf-8");
    assert_eq!(payload.bytes, b"hello drag");
    assert_eq!(text_drag_mime_types().len() + 1, 3);
    assert_eq!(
        content_hash("text", "text/plain", &payload.bytes),
        content_hash("text", "text/plain", b"hello drag")
    );
}

#[test]
fn clip_drag_payload_image_carries_its_bytes() {
    let clip = sample_clip("image", None, Some("/tmp/clip.png"));
    let payload = clip_drag_payload(&clip, Some(b"png".to_vec())).unwrap();
    assert!(!payload.is_text);
    assert_eq!(payload.mime, "image/png");
    assert_eq!(payload.bytes, b"png");
    assert_eq!(
        drag_file_name(&payload),
        format!("omapaste-drag-{}.png", content_hash("image", "image/png", b"png"))
    );
}

#[test]
fn clip_drag_payload_skips_missing_image() {
    let clip = sample_clip("image", None, Some("/no/such/file.png"));
    assert!(clip_drag_payload(&clip, None).is_none());
}

#[test]
fn clip_drag_payload_skips_text_without_body() {
    let clip = sample_clip("text", None, None);
    assert!(clip_drag_payload(&clip, None).is_none());
}

#[test]
fn text_drag_offers_plain_and_utf8_mimes() {
    assert_eq!(
        text_drag_mime_types(),
        vec!["text/plain;charset=utf-8", "text/plain"]
    );
}

#[test]
fn reopen_after_drag_only_on_cancel_when_panel_was_hidden() {
    assert!(!should_reopen_after_drag(false, true));
    assert!(!should_reopen_after_drag(false, false));
    assert!(!should_reopen_after_drag(true, false));
    assert!(should_reopen_after_drag(true, true));
}

#[test]
fn card_drag_threshold_is_above_the_gtk_default() {
    assert!(CARD_DRAG_THRESHOLD_PX >= 20);
}

#[test]
fn key_intents_match_the_bar() {
    assert_eq!(intent(KEY_ESCAPE, false, false), KeyIntent::Dismiss);
    assert_eq!(intent(KEY_ESCAPE, false, true), KeyIntent::Dismiss);
    assert_eq!(intent(KEY_RETURN, false, false), KeyIntent::Paste);
    assert_eq!(intent(KEY_KP_ENTER, false, false), KeyIntent::Paste);
    assert_eq!(intent(KEY_LEFT, false, false), KeyIntent::Left);
    assert_eq!(intent(KEY_RIGHT, false, false), KeyIntent::Right);
    assert_eq!(intent(KEY_HOME, false, false), KeyIntent::Home);
    assert_eq!(intent(KEY_END, false, false), KeyIntent::End);
    assert_eq!(intent(KEY_DELETE, false, true), KeyIntent::Delete);
    assert_eq!(intent(KEY_KP_DELETE, false, true), KeyIntent::Delete);
    assert_eq!(intent(KEY_BACKSPACE, false, false), KeyIntent::Delete);
    assert_eq!(intent(KEY_BACKSPACE, false, true), KeyIntent::Other);
    assert_eq!(intent(KEY_LOWER_K, true, false), KeyIntent::CycleKeep);
    assert_eq!(intent(KEY_UPPER_K, true, false), KeyIntent::CycleKeep);
    assert_eq!(intent(KEY_LOWER_F, true, false), KeyIntent::OpenSearch);
    assert_eq!(intent(KEY_SLASH, true, true), KeyIntent::OpenSearch);
    assert_eq!(intent(KEY_SLASH, false, false), KeyIntent::OpenSearch);
    assert_eq!(intent(KEY_SLASH, false, true), KeyIntent::Other);
    assert_eq!(intent(KEY_1, true, false), KeyIntent::PasteNth(0));
    assert_eq!(intent(KEY_9, true, false), KeyIntent::PasteNth(8));
    assert_eq!(intent(KEY_LOWER_A, false, false), KeyIntent::TypeSearch('a'));
    assert_eq!(intent(KEY_LOWER_A, false, true), KeyIntent::Other);
    assert_eq!(intent(KEY_LOWER_A, true, false), KeyIntent::Other);
}

#[test]
fn type_to_search_accepts_non_ascii() {
    let eacute: u32 = 0xe9;
    assert_eq!(key_intent(eacute, Some('é'), false, false), KeyIntent::TypeSearch('é'));
    assert_eq!(key_intent(eacute, Some('é'), false, true), KeyIntent::Other);
}

#[test]
fn bar_actions_follow_the_intent() {
    let visible = vec![2, 5, 7];
    assert_eq!(bar_key_action(KeyIntent::Dismiss, true, &visible), BarAction::CloseShortcuts);
    assert_eq!(bar_key_action(KeyIntent::Dismiss, false, &visible), BarAction::Hide);
    assert_eq!(bar_key_action(KeyIntent::Home, false, &visible), BarAction::Select(2));
    assert_eq!(bar_key_action(KeyIntent::End, false, &visible), BarAction::Select(7));
    assert_eq!(bar_key_action(KeyIntent::End, false, &vec![]), BarAction::Consume);
    assert_eq!(bar_key_action(KeyIntent::Left, false, &visible), BarAction::Move(-1));
    assert_eq!(
        bar_key_action(KeyIntent::TypeSearch('x'), false, &visible),
        BarAction::OpenSearch(Some('x'))
    );
    assert_eq!(bar_key_action(KeyIntent::Other, false, &visible), BarAction::Proceed);
}

#[test]
fn search_steps_edit_the_query() {
    let step = |text: &str, cursor: usize, key: u32, unicode: Option<char>, ctrl: bool, alt: bool| {
        let intent = key_intent(key, unicode, ctrl, true);
        search_key_step(text, cursor, cursor, key, unicode, ctrl, alt, intent)
    };
    assert_eq!(step("abc", 3, KEY_ESCAPE, None, false, false), SearchStep::CloseSearch);
    assert_eq!(step("abc", 3, KEY_LOWER_K, Some('k'), true, false), SearchStep::CycleKeep);
    assert_eq!(step("abc", 3, KEY_RETURN, None, false, false), SearchStep::Paste);
    assert_eq!(step("abc", 3, KEY_LEFT, None, false, false), SearchStep::Edit("abc".into(), 2));
    assert_eq!(step("ab cd", 5, KEY_LEFT, None, true, false), SearchStep::Edit("ab cd".into(), 3));
    assert_eq!(step("abc", 9, KEY_HOME, None, false, false), SearchStep::Edit("abc".into(), 0));
    assert_eq!(step("abc", 0, KEY_END, None, false, false), SearchStep::Edit("abc".into(), 3));
    assert_eq!(step("abc", 3, KEY_BACKSPACE, None, false, false), SearchStep::Edit("ab".into(), 2));
    assert_eq!(step("abc", 0, KEY_BACKSPACE, None, false, false), SearchStep::PokeCaret);
    assert_eq!(step("abc", 2, KEY_BACKSPACE, None, true, false), SearchStep::Edit("".into(), 0));
    assert_eq!(step("abc", 1, KEY_LOWER_U, Some('u'), true, false), SearchStep::Edit("".into(), 0));
    assert_eq!(step("", 0, KEY_LOWER_U, Some('u'), true, false), SearchStep::PokeCaret);
    assert_eq!(step("abc", 1, KEY_DELETE, None, false, false), SearchStep::Edit("ac".into(), 1));
    assert_eq!(step("abc", 3, KEY_DELETE, None, false, false), SearchStep::PokeCaret);
    assert_eq!(step("ac", 1, 0x62, Some('b'), false, false), SearchStep::Edit("abc".into(), 2));
    assert_eq!(step("abc", 1, 0x62, Some('b'), true, false), SearchStep::Proceed);
}

#[test]
fn rename_steps_edit_the_label() {
    assert_eq!(rename_key_step("Text", 0, 4, KEY_ESCAPE, None, false, false), RenameStep::Finish(true));
    assert_eq!(rename_key_step("Text", 0, 4, KEY_RETURN, None, false, false), RenameStep::Finish(false));
    assert_eq!(
        rename_key_step("Text", 0, 4, 0x4e, Some('N'), false, false),
        RenameStep::SetText("N".into(), 1)
    );
    assert_eq!(
        rename_key_step("hello", 5, 5, KEY_BACKSPACE, None, false, true),
        RenameStep::SetText("".into(), 0)
    );
    assert_eq!(rename_key_step("abc", 0, 3, KEY_LEFT, None, false, false), RenameStep::SetText("abc".into(), 0));
    assert_eq!(rename_key_step("abc", 0, 3, KEY_RIGHT, None, false, false), RenameStep::SetText("abc".into(), 3));
    assert_eq!(rename_key_step("abc", 1, 1, 0x78, Some('x'), true, false), RenameStep::Consume);
}

#[test]
fn search_text_edits_insert_and_backspace_at_cursor() {
    assert_eq!(entry_edit_insert("", 0, 0, 'a'), ("a".into(), 1));
    assert_eq!(entry_edit_insert("ab", 2, 2, 'c'), ("abc".into(), 3));
    assert_eq!(entry_edit_insert("ac", 1, 1, 'b'), ("abc".into(), 2));
    assert_eq!(entry_edit_backspace("abc", 3, 3), ("ab".into(), 2));
    assert_eq!(entry_edit_backspace("", 0, 0), ("".into(), 0));
}

#[test]
fn search_text_pop_word_deletes_the_previous_token() {
    assert_eq!(search_text_pop_word("hello world"), "hello");
    assert_eq!(search_text_pop_word("one two three"), "one two");
    assert_eq!(search_text_pop_word("solo"), "");
    assert_eq!(search_text_pop_word(""), "");
    assert_eq!(search_text_pop_word("ab cd  "), "ab");
}

#[test]
fn visible_clip_indices_match_store_search() {
    let clips = vec![
        sample_clip("text", Some("hello world"), None),
        sample_clip("text", Some("goodbye"), None),
        sample_clip("text", Some("HELLO again"), None),
    ];
    assert_eq!(visible_clip_indices(&clips, ""), vec![0, 1, 2]);
    assert_eq!(visible_clip_indices(&clips, "hello"), vec![0, 2]);
    assert_eq!(visible_clip_indices(&clips, "xyz"), Vec::<usize>::new());
}

#[test]
fn selection_clamps_and_delete_keeps_a_neighbor() {
    assert_eq!(clamp_select(0, 0), None);
    assert_eq!(clamp_select(9, 3), Some(2));
    assert_eq!(clamp_select(0, 3), Some(0));
    assert_eq!(select_after_delete(0, 1), 0);
    assert_eq!(select_after_delete(4, 5), 3);
    assert_eq!(select_after_delete(2, 5), 2);
    assert_eq!(select_after_delete(0, 0), 0);
}

#[test]
fn moves_stay_among_the_visible_cards() {
    let visible = vec![1, 4, 6];
    assert_eq!(move_selection_target(&visible, 4, 1), Some(6));
    assert_eq!(move_selection_target(&visible, 6, 1), Some(6));
    assert_eq!(move_selection_target(&visible, 1, -1), Some(1));
    assert_eq!(move_selection_target(&visible, 3, 1), Some(4));
    assert_eq!(move_selection_target(&vec![], 3, 1), None);
}

#[test]
fn card_preview_text_fits_the_tile() {
    let long = "word ".repeat(200);
    let shown = make_preview(&long, (PREVIEW_MAX_CHARS * PREVIEW_LINES) as usize);
    assert!(shown.chars().count() <= (PREVIEW_MAX_CHARS * PREVIEW_LINES) as usize);
    assert!(shown.ends_with('…'), "{shown}");
}

#[test]
fn card_texts_show_label_age_body_and_size() {
    let mut clip = sample_clip("text", Some("hello   card"), None);
    clip.last_used_at = 100;
    let card = card_text(&clip, 130);
    assert_eq!(card.label, "Text");
    assert_eq!(card.age, "30s ago");
    assert!(matches!(card.body, CardBody::Text(ref t) if t == "hello card"));
    assert_eq!(card.footer, "12 chars");
    let image = sample_clip("image", None, Some("/tmp/a.bin"));
    assert!(matches!(card_text(&image, 0).body, CardBody::Image(ref p) if p == "/tmp/a.bin"));
}

#[test]
fn clip_filter_matches_custom_label() {
    let mut clip = sample_clip("text", Some("hello"), None);
    clip.custom_label = Some("todo item".into());
    assert!(omapaste::clip::clip_matches_query(&clip, "todo"));
    assert!(!omapaste::clip::clip_matches_query(&clip, "world"));
}

#[test]
fn kind_edit_text_helpers_replace_selection_and_move() {
    assert_eq!(kind_edit_range(0, 4), (0, 4));
    assert_eq!(kind_edit_range(2, 2), (2, 2));
    assert_eq!(entry_edit_insert("Text", 0, 4, 'N'), ("N".into(), 1));
    assert_eq!(entry_edit_insert("ab", 1, 1, 'x'), ("axb".into(), 2));
    assert_eq!(entry_edit_backspace("abc", 1, 1), ("bc".into(), 0));
    assert_eq!(entry_edit_backspace("abc", 0, 2), ("c".into(), 0));
    assert_eq!(entry_edit_backspace_word("hello world", 5, 5), (" world".into(), 0));
    assert_eq!(entry_edit_backspace_word("hello world", 11, 11), ("hello".into(), 5));
    assert_eq!(entry_edit_delete("abc", 1, 1), ("ac".into(), 1));
    assert_eq!(entry_edit_move("abc", 0, 3, 0, 1), 3);
    assert_eq!(entry_edit_move("abc", 0, 3, 0, -1), 0);
    assert_eq!(entry_edit_move_word("hello world", 11, false), 6);
    assert_eq!(entry_edit_move_word("hello world", 6, false), 0);
    assert_eq!(entry_edit_move_word("hello world", 0, true), 6);
    assert_eq!(entry_edit_move_word("hello world", 6, true), 11);
    assert_eq!(entry_edit_move_word("ab  cd", 2, true), 4);
}

#[test]
fn char_byte_index_matches_rust_char_offsets() {
    assert_eq!(char_byte_index("hello", 0), 0);
    assert_eq!(char_byte_index("hello", 5), 5);
    assert_eq!(char_byte_index("é", 1), 2);
}

#[test]
fn preview_max_chars_fits_inside_the_card() {
    let inner = CARD_WIDTH - 2 * CARD_BORDER - 2 * CARD_BODY_PAD_X;
    assert!(PREVIEW_MAX_CHARS > 0);
    assert!(PREVIEW_MAX_CHARS * PREVIEW_CELL_PX <= inner);
    assert!(PREVIEW_MAX_CHARS < 28);
}

#[test]
fn seed_lines_fit_the_card_wrap() {
    let max = PREVIEW_MAX_CHARS as usize;
    for i in 0..SEED_TEXT_COUNT {
        let (text, _) = seed_clip(i);
        for line in text.lines() {
            let n = line.chars().count();
            if n <= max {
                continue;
            }
            for token in line.split_whitespace() {
                if token.chars().count() <= max {
                    continue;
                }
                assert!(
                    token.starts_with("http://") || token.starts_with("https://"),
                    "seed {token:?} is longer than {max} chars and is not a URL"
                );
            }
        }
    }
}

#[test]
fn insert_then_backspace_restores_the_text() {
    let (t, c) = entry_edit_insert("héllo", 2, 2, 'x');
    assert_eq!((t.as_str(), c), ("héxllo", 3));
    assert_eq!(entry_edit_backspace(&t, c, c), ("héllo".into(), 2));
}

#[test]
fn moves_never_leave_the_text() {
    assert_eq!(entry_edit_move("abc", 2, 2, 2, 5), 3);
    assert_eq!(entry_edit_move("abc", 2, 2, -4, -1), 0);
    assert_eq!(entry_edit_move_word("abc", 99, true), 3);
}

#[test]
fn kind_edit_viewport_scrolls_long_text_to_the_cursor() {
    let measure = |s: &str| s.chars().count() as i32;
    let text = "abcdefghijklmnopqrstuvwxyz";
    let (visible, start) = omapaste::bar::kind_edit_viewport(measure, text, 0, 10);
    assert_eq!(visible, "abcdefghij");
    assert_eq!(start, 0);

    let (visible, start) = omapaste::bar::kind_edit_viewport(measure, text, text.len(), 10);
    assert_eq!(visible, "qrstuvwxyz");
    assert_eq!(start, 16);

    let (visible, start) = omapaste::bar::kind_edit_viewport(measure, text, 13, 10);
    assert_eq!(visible, "ijklmnopqr");
    assert_eq!(start, 8);
}

#[test]
fn kind_edit_viewport_shows_the_cursor_character_when_nothing_fits() {
    let measure = |s: &str| if s.is_empty() { 0 } else { 1000 };
    assert_eq!(omapaste::bar::kind_edit_viewport(measure, "abc", 1, 10), ("b".to_string(), 1));
    assert_eq!(omapaste::bar::kind_edit_viewport(measure, "", 1, 10), (String::new(), 0));
}

#[test]
fn selection_survives_reloads_and_searches() {
    let mut a = sample_clip("text", Some("a"), None);
    a.id = 10;
    let mut b = sample_clip("text", Some("b"), None);
    b.id = 20;
    let clips = vec![a.clone(), b.clone()];
    assert_eq!(kept_selection(true, 1, &clips), Some(20));
    assert_eq!(kept_selection(false, 1, &clips), None);
    assert_eq!(kept_selection(true, 5, &clips), None);
    assert_eq!(reloaded_selection(Some(20), 0, &vec![b.clone(), a.clone()]), 0);
    assert_eq!(reloaded_selection(Some(10), 0, &vec![b.clone(), a.clone()]), 1);
    assert_eq!(reloaded_selection(Some(99), 1, &clips), 0);
    assert_eq!(reloaded_selection(None, 7, &clips), 1);
    assert_eq!(reloaded_selection(None, 7, &vec![]), 0);
    assert_eq!(filtered_selection(&vec![2, 4], 4, false), 4);
    assert_eq!(filtered_selection(&vec![2, 4], 4, true), 2);
    assert_eq!(filtered_selection(&vec![2, 4], 3, false), 2);
    assert_eq!(filtered_selection(&vec![], 3, false), 0);
}

#[test]
fn header_counts_clips() {
    assert_eq!(count_text(0), "0 clips");
    assert_eq!(count_text(1), "1 clip");
    assert_eq!(count_text(12), "12 clips");
}

#[test]
fn renaming_starts_with_the_label_selected() {
    assert_eq!(rename_begin(None, 2), RenameBegin::Start);
    assert_eq!(rename_begin(Some(2), 2), RenameBegin::AlreadyEditing);
    assert_eq!(rename_begin(Some(1), 2), RenameBegin::FinishOther(1));
    let mut clip = sample_clip("text", Some("x"), None);
    clip.custom_label = Some("Notes".into());
    assert_eq!(rename_start_state(&clip), ("Notes".to_string(), 0, 5));
}

fn reads_as_month_day(s: &str) -> bool {
    let months = ["Jan", "Feb", "Mar", "Apr", "May", "Jun", "Jul", "Aug", "Sep", "Oct", "Nov", "Dec"];
    match s.split_once(' ') {
        Some((m, d)) => {
            months.contains(&m)
                && !d.starts_with('0')
                && d.parse::<u32>().map(|n| (1..=31).contains(&n)).unwrap_or(false)
        }
        None => false,
    }
}

#[test]
fn week_old_ages_read_as_local_dates() {
    let now = 1_700_000_000;
    let older = format_age_at(now - 86400 * 10, now);
    assert!(reads_as_month_day(&older) || older == "10d ago", "{older}");
}

#[test]
fn age_on_the_clock_reads_as_an_age() {
    assert_eq!(format_age(4_000_000_000_000), "just now");
    let old = format_age(0);
    assert!(reads_as_month_day(&old) || old.ends_with("d ago"), "{old}");
}

#[test]
fn backspace_on_an_empty_search_removes_the_clip() {
    let step = |text: &str, ctrl: bool, alt: bool| {
        let intent = key_intent(KEY_BACKSPACE, None, ctrl, true);
        search_key_step(text, 0, 0, KEY_BACKSPACE, None, ctrl, alt, intent)
    };
    assert_eq!(step("", false, false), SearchStep::Delete);
    assert_eq!(step("", true, false), SearchStep::Delete);
    assert_eq!(step("", false, true), SearchStep::Delete);
    assert_eq!(step("a", false, false), SearchStep::PokeCaret);
}

#[test]
fn ctrl_c_copies_and_closes_unless_searching() {
    let visible = vec![0usize, 1];
    for key in [KEY_LOWER_C, KEY_UPPER_C] {
        let unicode = char::from_u32(key);
        let bar = key_intent(key, unicode, true, false);
        assert_eq!(bar, KeyIntent::CopyClose);
        assert_eq!(bar_key_action(bar, false, &visible), BarAction::CopyClose);
        let searching = key_intent(key, unicode, true, true);
        assert_eq!(
            search_key_step("abc", 1, 1, key, unicode, true, false, searching),
            SearchStep::Proceed
        );
    }
    assert_eq!(key_intent(KEY_LOWER_C, Some('c'), false, false), KeyIntent::TypeSearch('c'));
}

#[test]
fn ctrl_a_selects_all_in_search_and_rename() {
    let step = |text: &str, anchor: usize, cursor: usize, key: u32, unicode: Option<char>, ctrl: bool| {
        let intent = key_intent(key, unicode, ctrl, true);
        search_key_step(text, anchor, cursor, key, unicode, ctrl, false, intent)
    };
    assert_eq!(step("hello", 2, 2, KEY_LOWER_A, Some('a'), true), SearchStep::Select(0, 5));
    assert_eq!(step("hello", 2, 2, 0x41, Some('A'), true), SearchStep::Select(0, 5));
    assert_eq!(step("hello", 0, 5, 0x78, Some('x'), false), SearchStep::Edit("x".into(), 1));
    assert_eq!(step("hello", 0, 5, KEY_BACKSPACE, None, false), SearchStep::Edit("".into(), 0));
    assert_eq!(step("hello", 0, 5, KEY_LEFT, None, false), SearchStep::Edit("hello".into(), 0));
    assert_eq!(step("hello", 2, 2, KEY_LOWER_A, Some('a'), false), SearchStep::Edit("heallo".into(), 3));
    assert_eq!(rename_key_step("Text", 2, 2, KEY_LOWER_A, Some('a'), true, false), RenameStep::Select(0, 4));
    assert_eq!(rename_key_step("Text", 0, 4, 0x4e, Some('N'), false, false), RenameStep::SetText("N".into(), 1));
}

#[test]
fn insert_clamps_the_selection_to_the_text() {
    assert_eq!(entry_edit_insert("ab", usize::MAX, usize::MAX, 'c'), ("abc".to_string(), 3));
    assert_eq!(entry_edit_insert("Text", 0, 4, 'N'), ("N".to_string(), 1));
}
