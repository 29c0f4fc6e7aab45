//! What a key press on the bar does: the intent of a key, and the steps of
//! the bar, the search field and the rename field as functions from their
//! state and the key to what happens next.
use vstd::prelude::*;

use crate::clip::{clip_matches, clip_matches_query, Clip, ClipView};
use crate::editing::{
    backspace_spec, backspace_word_spec, delete_spec, entry_edit_backspace,
    entry_edit_backspace_word, entry_edit_delete, entry_edit_insert, entry_edit_move,
    entry_edit_move_word, insert_spec, kind_edit_range, min_int, move_spec, move_word_spec,
};
use crate::history::views;
use crate::store::query_needle;
use crate::text::{chars_of, is_control, is_control_char, str_eq, to_lowercase, trim};

verus! {

/// Key values (X11 keysyms, as GDK reports them).
pub const KEY_ESCAPE: u32 = 0xff1b;

pub const KEY_RETURN: u32 = 0xff0d;

pub const KEY_KP_ENTER: u32 = 0xff8d;

pub const KEY_LEFT: u32 = 0xff51;

pub const KEY_RIGHT: u32 = 0xff53;

pub const KEY_HOME: u32 = 0xff50;

pub const KEY_END: u32 = 0xff57;

pub const KEY_DELETE: u32 = 0xffff;

pub const KEY_KP_DELETE: u32 = 0xff9f;

pub const KEY_BACKSPACE: u32 = 0xff08;

pub const KEY_SLASH: u32 = 0x2f;

pub const KEY_1: u32 = 0x31;

pub const KEY_9: u32 = 0x39;

pub const KEY_LOWER_F: u32 = 0x66;

pub const KEY_UPPER_F: u32 = 0x46;

pub const KEY_LOWER_K: u32 = 0x6b;

pub const KEY_UPPER_K: u32 = 0x4b;

pub const KEY_LOWER_U: u32 = 0x75;

pub const KEY_LOWER_A: u32 = 0x61;

pub const KEY_UPPER_A: u32 = 0x41;

pub const KEY_LOWER_C: u32 = 0x63;

pub const KEY_UPPER_C: u32 = 0x43;

/// What a key asks of the bar.
#[derive(Debug, Clone, Copy, PartialEq, Eq, Structural)]
pub enum KeyIntent {
    Dismiss,
    Paste,
    Left,
    Right,
    Home,
    End,
    Delete,
    CycleKeep,
    OpenSearch,
    /// Copy the selected clip and close the bar.
    CopyClose,
    TypeSearch(char),
    PasteNth(usize),
    Other,
}

/// A key that types a character that is not a control character.
pub open spec fn types_char(unicode: Option<char>) -> bool {
    unicode matches Some(ch) && !is_control(ch)
}

/// The intent of `key` (`unicode`: the character it types, if any) with
/// Ctrl held or not, while searching or not.
pub open spec fn key_intent_spec(key: u32, unicode: Option<char>, ctrl: bool, searching: bool) -> KeyIntent {
    if key == KEY_ESCAPE {
        KeyIntent::Dismiss
    } else if key == KEY_RETURN || key == KEY_KP_ENTER {
        KeyIntent::Paste
    } else if key == KEY_LEFT {
        KeyIntent::Left
    } else if key == KEY_RIGHT {
        KeyIntent::Right
    } else if key == KEY_HOME {
        KeyIntent::Home
    } else if key == KEY_END {
        KeyIntent::End
    } else if key == KEY_DELETE || key == KEY_KP_DELETE || (key == KEY_BACKSPACE && !searching) {
        KeyIntent::Delete
    } else if ctrl && (key == KEY_LOWER_K || key == KEY_UPPER_K) {
        KeyIntent::CycleKeep
    } else if ctrl && (key == KEY_LOWER_F || key == KEY_UPPER_F || key == KEY_SLASH) {
        KeyIntent::OpenSearch
    } else if key == KEY_SLASH && !searching {
        KeyIntent::OpenSearch
    } else if ctrl && (key == KEY_LOWER_C || key == KEY_UPPER_C) {
        KeyIntent::CopyClose
    } else if ctrl && KEY_1 <= key <= KEY_9 {
        KeyIntent::PasteNth((key - KEY_1) as usize)
    } else if !ctrl && !searching && types_char(unicode) {
        KeyIntent::TypeSearch(unicode->0)
    } else {
        KeyIntent::Other
    }
}

/// The intent of a key press.
pub fn key_intent(key: u32, unicode: Option<char>, ctrl: bool, searching: bool) -> (r: KeyIntent)
    ensures
        r == key_intent_spec(key, unicode, ctrl, searching),
{
    if key == KEY_ESCAPE {
        return KeyIntent::Dismiss;
    }
    if key == KEY_RETURN || key == KEY_KP_ENTER {
        return KeyIntent::Paste;
    }
    if key == KEY_LEFT {
        return KeyIntent::Left;
    }
    if key == KEY_RIGHT {
        return KeyIntent::Right;
    }
    if key == KEY_HOME {
        return KeyIntent::Home;
    }
    if key == KEY_END {
        return KeyIntent::End;
    }
    if key == KEY_DELETE || key == KEY_KP_DELETE || (key == KEY_BACKSPACE && !searching) {
        return KeyIntent::Delete;
    }
    if ctrl && (key == KEY_LOWER_K || key == KEY_UPPER_K) {
        return KeyIntent::CycleKeep;
    }
    if ctrl && (key == KEY_LOWER_F || key == KEY_UPPER_F || key == KEY_SLASH) {
        return KeyIntent::OpenSearch;
    }
    if key == KEY_SLASH && !searching {
        return KeyIntent::OpenSearch;
    }
    if ctrl && (key == KEY_LOWER_C || key == KEY_UPPER_C) {
        return KeyIntent::CopyClose;
    }
    if ctrl && KEY_1 <= key && key <= KEY_9 {
        return KeyIntent::PasteNth((key - KEY_1) as usize);
    }
    if !ctrl && !searching {
        match unicode {
            Some(ch) => {
                if !is_control_char(ch) {
                    return KeyIntent::TypeSearch(ch);
                }
            },
            None => {},
        }
    }
    KeyIntent::Other
}

/// What the bar does for a key while neither searching nor renaming.
#[derive(Debug, Clone, Copy, PartialEq, Eq, Structural)]
pub enum BarAction {
    /// Close the shortcut list.
    CloseShortcuts,
    /// Hide the bar.
    Hide,
    /// Paste the selected clip.
    Paste,
    /// Move the selection by this many visible cards, copying.
    Move(i32),
    /// Select the card at this index, copying.
    Select(usize),
    /// Delete the selected clip.
    Delete,
    /// Cycle the selected clip's keep time.
    CycleKeep,
    /// Open the search field, with this character typed.
    OpenSearch(Option<char>),
    /// Copy the selected clip and hide the bar.
    CopyClose,
    /// Select the card at this index and paste it.
    PasteNth(usize),
    /// Take the key and do nothing.
    Consume,
    /// Leave the key to others.
    Proceed,
}

/// The bar's action for `intent`; `visible` lists the indices of the shown
/// cards, in order.
pub open spec fn bar_action_spec(intent: KeyIntent, shortcuts_open: bool, visible: Seq<usize>) -> BarAction {
    match intent {
        KeyIntent::Dismiss => if shortcuts_open {
            BarAction::CloseShortcuts
        } else {
            BarAction::Hide
        },
        KeyIntent::Paste => BarAction::Paste,
        KeyIntent::Left => BarAction::Move(-1i32),
        KeyIntent::Right => BarAction::Move(1i32),
        KeyIntent::Home => if visible.len() > 0 {
            BarAction::Select(visible[0])
        } else {
            BarAction::Consume
        },
        KeyIntent::End => if visible.len() > 0 {
            BarAction::Select(visible.last())
        } else {
            BarAction::Consume
        },
        KeyIntent::Delete => BarAction::Delete,
        KeyIntent::CycleKeep => BarAction::CycleKeep,
        KeyIntent::OpenSearch => BarAction::OpenSearch(None),
        KeyIntent::CopyClose => BarAction::CopyClose,
        KeyIntent::TypeSearch(ch) => BarAction::OpenSearch(Some(ch)),
        KeyIntent::PasteNth(n) => BarAction::PasteNth(n),
        KeyIntent::Other => BarAction::Proceed,
    }
}

/// The bar's action for a key while neither searching nor renaming.
pub fn bar_key_action(intent: KeyIntent, shortcuts_open: bool, visible: &Vec<usize>) -> (r: BarAction)
    ensures
        r == bar_action_spec(intent, shortcuts_open, visible@),
{
    match intent {
        KeyIntent::Dismiss => if shortcuts_open {
            BarAction::CloseShortcuts
        } else {
            BarAction::Hide
        },
        KeyIntent::Paste => BarAction::Paste,
        KeyIntent::Left => BarAction::Move(-1),
        KeyIntent::Right => BarAction::Move(1),
        KeyIntent::Home => if visible.len() > 0 {
            BarAction::Select(visible[0])
        } else {
            BarAction::Consume
        },
        KeyIntent::End => if visible.len() > 0 {
            BarAction::Select(visible[visible.len() - 1])
        } else {
            BarAction::Consume
        },
        KeyIntent::Delete => BarAction::Delete,
        KeyIntent::CycleKeep => BarAction::CycleKeep,
        KeyIntent::OpenSearch => BarAction::OpenSearch(None),
        KeyIntent::CopyClose => BarAction::CopyClose,
        KeyIntent::TypeSearch(ch) => BarAction::OpenSearch(Some(ch)),
        KeyIntent::PasteNth(n) => BarAction::PasteNth(n),
        KeyIntent::Other => BarAction::Proceed,
    }
}

/// What the search field does with a key.
#[derive(Debug, Clone, PartialEq, Eq)]
pub enum SearchStep {
    /// Close the search field.
    CloseSearch,
    /// Cycle the selected clip's keep time.
    CycleKeep,
    /// Paste the selected clip.
    Paste,
    /// Delete the selected clip (the search text is empty).
    Delete,
    /// Take the key and do nothing.
    Consume,
    /// Show this text with the cursor here, nothing selected (and show the
    /// caret).
    Edit(String, usize),
    /// Select from the first position to the second (and show the caret).
    Select(usize, usize),
    /// Only show the caret.
    PokeCaret,
    /// Leave the key to others.
    Proceed,
}

/// A search step as values.
pub enum SearchStepView {
    CloseSearch,
    CycleKeep,
    Paste,
    Delete,
    Consume,
    Edit(Seq<char>, int),
    Select(int, int),
    PokeCaret,
    Proceed,
}

impl View for SearchStep {
    type V = SearchStepView;

    open spec fn view(&self) -> SearchStepView {
        match self {
            SearchStep::CloseSearch => SearchStepView::CloseSearch,
            SearchStep::CycleKeep => SearchStepView::CycleKeep,
            SearchStep::Paste => SearchStepView::Paste,
            SearchStep::Delete => SearchStepView::Delete,
            SearchStep::Consume => SearchStepView::Consume,
            SearchStep::Edit(t, c) => SearchStepView::Edit(t@, *c as int),
            SearchStep::Select(a, c) => SearchStepView::Select(*a as int, *c as int),
            SearchStep::PokeCaret => SearchStepView::PokeCaret,
            SearchStep::Proceed => SearchStepView::Proceed,
        }
    }
}

/// An edit that only shows the caret when it changes nothing.
pub open spec fn edit_or_poke(t: Seq<char>, cursor: int, next: (Seq<char>, int)) -> SearchStepView {
    if next.0 != t || next.1 != cursor {
        SearchStepView::Edit(next.0, next.1)
    } else {
        SearchStepView::PokeCaret
    }
}

/// Whether `key` with Ctrl held selects all (Ctrl+A).
pub open spec fn is_select_all(key: u32, ctrl: bool) -> bool {
    ctrl && (key == KEY_LOWER_A || key == KEY_UPPER_A)
}

/// The search field's step for a key, from its text, selection anchor and
/// cursor (each clamped to the text).
pub open spec fn search_step_spec(
    t: Seq<char>,
    anchor: int,
    cursor: int,
    key: u32,
    unicode: Option<char>,
    ctrl: bool,
    alt: bool,
    intent: KeyIntent,
) -> SearchStepView {
    match intent {
        KeyIntent::Dismiss => SearchStepView::CloseSearch,
        KeyIntent::CycleKeep if ctrl => SearchStepView::CycleKeep,
        KeyIntent::Paste => SearchStepView::Paste,
        KeyIntent::OpenSearch => SearchStepView::Consume,
        _ => {
            let c = min_int(cursor, t.len() as int);
            let a = min_int(anchor, t.len() as int);
            let start = min_int(a, c);
            let end = if a < c {
                c
            } else {
                a
            };
            if key == KEY_LEFT {
                SearchStepView::Edit(
                    t,
                    if alt || ctrl {
                        move_word_spec(t, c, false)
                    } else {
                        move_spec(t.len() as int, start, end, (c as i32) as int, -1)
                    },
                )
            } else if key == KEY_RIGHT {
                SearchStepView::Edit(
                    t,
                    if alt || ctrl {
                        move_word_spec(t, c, true)
                    } else {
                        move_spec(t.len() as int, start, end, (c as i32) as int, 1)
                    },
                )
            } else if key == KEY_HOME {
                SearchStepView::Edit(t, 0)
            } else if key == KEY_END {
                SearchStepView::Edit(t, t.len() as int)
            } else if key == KEY_BACKSPACE && t.len() == 0 {
                SearchStepView::Delete
            } else if key == KEY_BACKSPACE {
                edit_or_poke(
                    t,
                    c,
                    if ctrl {
                        (Seq::<char>::empty(), 0)
                    } else if alt {
                        backspace_word_spec(t, start, end)
                    } else {
                        backspace_spec(t, start, end)
                    },
                )
            } else if ctrl && key == KEY_LOWER_U {
                if t.len() > 0 {
                    SearchStepView::Edit(Seq::<char>::empty(), 0)
                } else {
                    SearchStepView::PokeCaret
                }
            } else if is_select_all(key, ctrl) {
                SearchStepView::Select(0, t.len() as int)
            } else if ctrl {
                SearchStepView::Proceed
            } else if key == KEY_DELETE || key == KEY_KP_DELETE {
                edit_or_poke(t, c, delete_spec(t, start, end))
            } else if types_char(unicode) {
                let n = insert_spec(t, start, end, unicode->0);
                SearchStepView::Edit(n.0, n.1)
            } else {
                SearchStepView::Proceed
            }
        },
    }
}

fn edit_or_poke_exec(text: &str, cursor: usize, next: (String, usize)) -> (r: SearchStep)
    ensures
        r@ == edit_or_poke(text@, cursor as int, (next.0@, next.1 as int)),
{
    if !str_eq(next.0.as_str(), text) || next.1 != cursor {
        SearchStep::Edit(next.0, next.1)
    } else {
        SearchStep::PokeCaret
    }
}

/// The search field's step for a key press.
pub fn search_key_step(
    text: &str,
    anchor: usize,
    cursor: usize,
    key: u32,
    unicode: Option<char>,
    ctrl: bool,
    alt: bool,
    intent: KeyIntent,
) -> (r: SearchStep)
    requires
        text@.len() < usize::MAX,
    ensures
        r@ == search_step_spec(text@, anchor as int, cursor as int, key, unicode, ctrl, alt, intent),
{
    match intent {
        KeyIntent::Dismiss => return SearchStep::CloseSearch,
        KeyIntent::CycleKeep if ctrl => return SearchStep::CycleKeep,
        KeyIntent::Paste => return SearchStep::Paste,
        KeyIntent::OpenSearch => return SearchStep::Consume,
        _ => {},
    }
    let len = chars_of(text).len();
    let c = if cursor < len {
        cursor
    } else {
        len
    };
    let a = if anchor < len {
        anchor
    } else {
        len
    };
    let (start, end) = kind_edit_range(a, c);
    if key == KEY_LEFT {
        let pos = if alt || ctrl {
            entry_edit_move_word(text, c, false)
        } else {
            entry_edit_move(text, start, end, c as i32, -1)
        };
        return SearchStep::Edit(text.to_owned(), pos);
    }
    if key == KEY_RIGHT {
        let pos = if alt || ctrl {
            entry_edit_move_word(text, c, true)
        } else {
            entry_edit_move(text, start, end, c as i32, 1)
        };
        return SearchStep::Edit(text.to_owned(), pos);
    }
    if key == KEY_HOME {
        return SearchStep::Edit(text.to_owned(), 0);
    }
    if key == KEY_END {
        return SearchStep::Edit(text.to_owned(), len);
    }
    if key == KEY_BACKSPACE && len == 0 {
        return SearchStep::Delete;
    }
    if key == KEY_BACKSPACE {
        let next = if ctrl {
            (String::new(), 0)
        } else if alt {
            entry_edit_backspace_word(text, start, end)
        } else {
            entry_edit_backspace(text, start, end)
        };
        return edit_or_poke_exec(text, c, next);
    }
    if ctrl && key == KEY_LOWER_U {
        if len > 0 {
            return SearchStep::Edit(String::new(), 0);
        }
        return SearchStep::PokeCaret;
    }
    if ctrl && (key == KEY_LOWER_A || key == KEY_UPPER_A) {
        return SearchStep::Select(0, len);
    }
    if ctrl {
        return SearchStep::Proceed;
    }
    if key == KEY_DELETE || key == KEY_KP_DELETE {
        let next = entry_edit_delete(text, start, end);
        return edit_or_poke_exec(text, c, next);
    }
    match unicode {
        Some(ch) => {
            if !is_control_char(ch) {
                let (next, pos) = entry_edit_insert(text, start, end, ch);
                return SearchStep::Edit(next, pos);
            }
        },
        None => {},
    }
    SearchStep::Proceed
}

/// What the rename field does with a key.
#[derive(Debug, Clone, PartialEq, Eq)]
pub enum RenameStep {
    /// End the rename, keeping the old label when `true`.
    Finish(bool),
    /// Show this text with the cursor here.
    SetText(String, usize),
    /// Select from the first position to the second.
    Select(usize, usize),
    /// Take the key and do nothing.
    Consume,
}

/// A rename step as values.
pub enum RenameStepView {
    Finish(bool),
    SetText(Seq<char>, int),
    Select(int, int),
    Consume,
}

impl View for RenameStep {
    type V = RenameStepView;

    open spec fn view(&self) -> RenameStepView {
        match self {
            RenameStep::Finish(c) => RenameStepView::Finish(*c),
            RenameStep::SetText(t, c) => RenameStepView::SetText(t@, *c as int),
            RenameStep::Select(a, c) => RenameStepView::Select(*a as int, *c as int),
            RenameStep::Consume => RenameStepView::Consume,
        }
    }
}

/// The rename field's step for a key, from its text, selection anchor and
/// cursor.
pub open spec fn rename_step_spec(
    t: Seq<char>,
    anchor: int,
    cursor: int,
    key: u32,
    unicode: Option<char>,
    ctrl: bool,
    alt: bool,
) -> RenameStepView {
    let start = min_int(anchor, cursor);
    let end = if anchor < cursor {
        cursor
    } else {
        anchor
    };
    if key == KEY_ESCAPE {
        RenameStepView::Finish(true)
    } else if key == KEY_RETURN || key == KEY_KP_ENTER {
        RenameStepView::Finish(false)
    } else if key == KEY_BACKSPACE {
        let n = if ctrl {
            (Seq::<char>::empty(), 0)
        } else if alt {
            backspace_word_spec(t, start, end)
        } else {
            backspace_spec(t, start, end)
        };
        RenameStepView::SetText(n.0, n.1)
    } else if ctrl && key == KEY_LOWER_U {
        RenameStepView::SetText(Seq::<char>::empty(), 0)
    } else if key == KEY_DELETE || key == KEY_KP_DELETE {
        let n = delete_spec(t, start, end);
        RenameStepView::SetText(n.0, n.1)
    } else if key == KEY_LEFT {
        RenameStepView::SetText(
            t,
            if alt || ctrl {
                move_word_spec(t, cursor, false)
            } else {
                move_spec(t.len() as int, start, end, (cursor as i32) as int, -1)
            },
        )
    } else if key == KEY_RIGHT {
        RenameStepView::SetText(
            t,
            if alt || ctrl {
                move_word_spec(t, cursor, true)
            } else {
                move_spec(t.len() as int, start, end, (cursor as i32) as int, 1)
            },
        )
    } else if key == KEY_HOME {
        RenameStepView::SetText(t, 0)
    } else if key == KEY_END {
        RenameStepView::SetText(t, t.len() as int)
    } else if is_select_all(key, ctrl) {
        RenameStepView::Select(0, t.len() as int)
    } else if ctrl {
        RenameStepView::Consume
    } else if types_char(unicode) {
        let n = insert_spec(t, start, end, unicode->0);
        RenameStepView::SetText(n.0, n.1)
    } else {
        RenameStepView::Consume
    }
}

/// The rename field's step for a key press; the anchor and cursor lie in
/// the text.
pub fn rename_key_step(
    text: &str,
    anchor: usize,
    cursor: usize,
    key: u32,
    unicode: Option<char>,
    ctrl: bool,
    alt: bool,
) -> (r: RenameStep)
    requires
        anchor <= text@.len(),
        cursor <= text@.len(),
        text@.len() < usize::MAX,
    ensures
        r@ == rename_step_spec(text@, anchor as int, cursor as int, key, unicode, ctrl, alt),
{
    if key == KEY_ESCAPE {
        return RenameStep::Finish(true);
    }
    if key == KEY_RETURN || key == KEY_KP_ENTER {
        return RenameStep::Finish(false);
    }
    let (start, end) = kind_edit_range(anchor, cursor);
    if key == KEY_BACKSPACE {
        let (next, pos) = if ctrl {
            (String::new(), 0)
        } else if alt {
            entry_edit_backspace_word(text, start, end)
        } else {
            entry_edit_backspace(text, start, end)
        };
        return RenameStep::SetText(next, pos);
    }
    if ctrl && key == KEY_LOWER_U {
        return RenameStep::SetText(String::new(), 0);
    }
    if key == KEY_DELETE || key == KEY_KP_DELETE {
        let (next, pos) = entry_edit_delete(text, start, end);
        return RenameStep::SetText(next, pos);
    }
    if key == KEY_LEFT {
        let pos = if alt || ctrl {
            entry_edit_move_word(text, cursor, false)
        } else {
            entry_edit_move(text, start, end, cursor as i32, -1)
        };
        return RenameStep::SetText(text.to_owned(), pos);
    }
    if key == KEY_RIGHT {
        let pos = if alt || ctrl {
            entry_edit_move_word(text, cursor, true)
        } else {
            entry_edit_move(text, start, end, cursor as i32, 1)
        };
        return RenameStep::SetText(text.to_owned(), pos);
    }
    if key == KEY_HOME {
        return RenameStep::SetText(text.to_owned(), 0);
    }
    if key == KEY_END {
        let len = chars_of(text).len();
        return RenameStep::SetText(text.to_owned(), len);
    }
    if ctrl && (key == KEY_LOWER_A || key == KEY_UPPER_A) {
        let len = chars_of(text).len();
        return RenameStep::Select(0, len);
    }
    if ctrl {
        return RenameStep::Consume;
    }
    match unicode {
        Some(ch) => {
            if !is_control_char(ch) {
                let (next, pos) = entry_edit_insert(text, start, end, ch);
                return RenameStep::SetText(next, pos);
            }
        },
        None => {},
    }
    RenameStep::Consume
}

/// The indices of the clips shown for a search `needle` (trimmed and
/// lowercased; empty shows all), in order.
pub open spec fn visible_spec(clips: Seq<ClipView>, needle: Seq<char>) -> Seq<usize>
    decreases clips.len(),
{
    if clips.len() == 0 {
        Seq::<usize>::empty()
    } else if needle.len() == 0 || clip_matches(clips.last(), needle) {
        visible_spec(clips.drop_last(), needle).push((clips.len() - 1) as usize)
    } else {
        visible_spec(clips.drop_last(), needle)
    }
}

/// A card shown for `needle`: every card when it is empty, else one that
/// matches it.
pub open spec fn shown_for(c: ClipView, needle: Seq<char>) -> bool {
    needle.len() == 0 || clip_matches(c, needle)
}

/// The cards shown for a search are exactly those that match it, each once,
/// in order: the indices rise strictly, each names a card that matches, and
/// every card that matches is named (for as many cards as a `Vec` can hold).
pub proof fn law_visible_cards_are_the_matches(clips: Seq<ClipView>, needle: Seq<char>)
    requires
        clips.len() <= usize::MAX,
    ensures
        forall|a: int, b: int|
            0 <= a < b < visible_spec(clips, needle).len() ==> #[trigger] visible_spec(
                clips,
                needle,
            )[a] < #[trigger] visible_spec(clips, needle)[b],
        forall|k: int|
            0 <= k < visible_spec(clips, needle).len() ==> (#[trigger] visible_spec(clips, needle)[k])
                < clips.len() && shown_for(clips[visible_spec(clips, needle)[k] as int], needle),
        forall|i: int|
            0 <= i < clips.len() && #[trigger] shown_for(clips[i], needle) ==> visible_spec(
                clips,
                needle,
            ).contains(i as usize),
    decreases clips.len(),
{
    if clips.len() > 0 {
        let rest = clips.drop_last();
        law_visible_cards_are_the_matches(rest, needle);
        let v0 = visible_spec(rest, needle);
        let v = visible_spec(clips, needle);
        let last = (clips.len() - 1) as usize;
        assert(clips.last() == clips[clips.len() - 1]);
        if shown_for(clips.last(), needle) {
            assert(v == v0.push(last));
        } else {
            assert(v == v0);
        }
        assert forall|a: int, b: int| 0 <= a < b < v.len() implies #[trigger] v[a] < #[trigger] v[b] by {
            if b < v0.len() {
                assert(v[a] == v0[a] && v[b] == v0[b]);
            } else {
                assert(shown_for(clips.last(), needle));
                assert(v[b] == last);
                assert(v[a] == v0[a]);
                assert(v0[a] < rest.len());
            }
        }
        assert forall|i: int| 0 <= i < clips.len() && #[trigger] shown_for(clips[i], needle) implies v.contains(
            i as usize,
        ) by {
            if i < clips.len() - 1 {
                assert(rest[i] == clips[i]);
                assert(shown_for(rest[i], needle));
                let k = choose|k: int| 0 <= k < v0.len() && v0[k] == i as usize;
                assert(v[k] == i as usize);
            } else {
                assert(clips[i] == clips.last());
                assert(v == v0.push(last));
                assert(v[v0.len() as int] == i as usize);
            }
        }
        assert forall|k: int| 0 <= k < v.len() implies (#[trigger] v[k]) < clips.len() && shown_for(
            clips[v[k] as int],
            needle,
        ) by {
            if k < v0.len() {
                assert(v[k] == v0[k]);
                assert(rest[v0[k] as int] == clips[v0[k] as int]);
            }
        }
    }
}

/// The indices of the cards shown for the search text `filter`.
pub fn visible_clip_indices(clips: &Vec<Clip>, filter: &str) -> (r: Vec<usize>)
    ensures
        r@ == visible_spec(views(clips@), query_needle(filter@)),
{
    let t = trim(filter);
    let needle = to_lowercase(t.as_str());
    let empty = needle.as_str().is_empty();
    let ghost vs = views(clips@);
    let mut out: Vec<usize> = Vec::new();
    let mut i: usize = 0;
    while i < clips.len()
        invariant
            0 <= i <= clips@.len(),
            vs == views(clips@),
            empty == (needle@.len() == 0),
            out@ == visible_spec(vs.take(i as int), needle@),
        decreases clips@.len() - i,
    {
        proof {
            assert(vs.take(i + 1).drop_last() =~= vs.take(i as int));
            assert(vs.take(i + 1).last() == clips@[i as int]@);
        }
        if empty || clip_matches_query(&clips[i], needle.as_str()) {
            out.push(i);
        }
        i = i + 1;
    }
    assert(vs.take(clips@.len() as int) =~= vs);
    out
}

/// The selection when the bar has `n` cards: `index` kept within them.
pub fn clamp_select(index: usize, n: usize) -> (r: Option<usize>)
    ensures
        n == 0 ==> r is None,
        n > 0 ==> r == Some(if index < n {
            index
        } else {
            (n - 1) as usize
        }),
{
    if n == 0 {
        None
    } else if index < n - 1 {
        Some(index)
    } else {
        Some(n - 1)
    }
}

/// The selection after the selected card of `len` cards is deleted: the
/// same position, or the one before when it was the last.
pub fn select_after_delete(selected: usize, len: usize) -> (r: usize)
    ensures
        r == if len == 0 {
            0
        } else if selected + 1 >= len {
            if selected == 0 {
                0
            } else {
                selected - 1
            }
        } else {
            selected as int
        },
{
    if len == 0 {
        0
    } else if selected >= len - 1 {
        if selected == 0 {
            0
        } else {
            selected - 1
        }
    } else {
        selected
    }
}

/// The card a move by `delta` from the selected one lands on among the
/// visible cards (from the first when the selected one is not shown), kept
/// within them; `None` when none is shown.
pub open spec fn move_target_spec(visible: Seq<usize>, selected: usize, delta: int) -> Option<usize> {
    if visible.len() == 0 {
        None
    } else {
        let pos: int = if exists|i: int| 0 <= i < visible.len() && visible[i] == selected {
            choose|i: int|
                0 <= i < visible.len() && visible[i] == selected && forall|j: int|
                    0 <= j < i ==> visible[j] != selected
        } else {
            0
        };
        let next = pos + delta;
        let clamped = if next < 0 {
            0
        } else if next > visible.len() - 1 {
            visible.len() - 1
        } else {
            next
        };
        Some(visible[clamped])
    }
}

/// Where a move by `delta` lands.
pub fn move_selection_target(visible: &Vec<usize>, selected: usize, delta: i32) -> (r: Option<usize>)
    requires
        visible@.len() <= i32::MAX,
    ensures
        r == move_target_spec(visible@, selected, delta as int),
{
    if visible.len() == 0 {
        return None;
    }
    let mut pos: usize = 0;
    while pos < visible.len() && visible[pos] != selected
        invariant
            0 <= pos <= visible@.len(),
            forall|j: int| 0 <= j < pos ==> visible@[j] != selected,
        decreases visible@.len() - pos,
    {
        pos = pos + 1;
    }
    let found = pos < visible.len();
    proof {
        if found {
            assert(visible@[pos as int] == selected);
            let c = choose|i: int|
                0 <= i < visible@.len() && visible@[i] == selected && forall|j: int|
                    0 <= j < i ==> visible@[j] != selected;
            assert(c == pos as int) by {
                if c > pos {
                    assert(visible@[pos as int] == selected);
                }
            }
        }
    }
    let base: i64 = if found {
        pos as i64
    } else {
        0
    };
    let next: i64 = base + delta as i64;
    let last: i64 = visible.len() as i64 - 1;
    let clamped: i64 = if next < 0 {
        0
    } else if next > last {
        last
    } else {
        next
    };
    Some(visible[clamped as usize])
}

/// The id of the selected clip, when the selection is to be kept across a
/// reload and points at a clip.
pub fn kept_selection(keep_selection: bool, selected: usize, clips: &Vec<Clip>) -> (r: Option<i64>)
    ensures
        r == if keep_selection && selected < clips@.len() {
            Some(clips@[selected as int].id)
        } else {
            None
        },
{
    if keep_selection && selected < clips.len() {
        Some(clips[selected].id)
    } else {
        None
    }
}

/// The selection after the cards are reloaded as `clips`: the position of
/// the kept clip (the first card when it is gone), else the old position
/// kept within the cards.
pub open spec fn reloaded_selection_spec(kept: Option<i64>, selected: int, clips: Seq<ClipView>) -> int {
    match kept {
        Some(id) => if exists|i: int| 0 <= i < clips.len() && clips[i].id == id {
            choose|i: int|
                0 <= i < clips.len() && clips[i].id == id && forall|j: int|
                    0 <= j < i ==> clips[j].id != id
        } else {
            0
        },
        None => if clips.len() > 0 {
            min_int(selected, clips.len() - 1)
        } else {
            0
        },
    }
}

/// The selection after the cards are reloaded.
pub fn reloaded_selection(kept: Option<i64>, selected: usize, clips: &Vec<Clip>) -> (r: usize)
    ensures
        r == reloaded_selection_spec(kept, selected as int, views(clips@)),
{
    let ghost vs = views(clips@);
    match kept {
        Some(id) => {
            let mut i: usize = 0;
            while i < clips.len() && clips[i].id != id
                invariant
                    0 <= i <= clips@.len(),
                    vs == views(clips@),
                    forall|j: int| 0 <= j < i ==> vs[j].id != id,
                decreases clips@.len() - i,
            {
                i = i + 1;
            }
            if i < clips.len() {
                proof {
                    assert(vs[i as int].id == id);
                    let c = choose|c: int|
                        0 <= c < vs.len() && vs[c].id == id && forall|j: int|
                            0 <= j < c ==> vs[j].id != id;
                    assert(c == i as int) by {
                        if c > i {
                            assert(vs[i as int].id == id);
                        }
                    }
                }
                i
            } else {
                0
            }
        },
        None => {
            if clips.len() > 0 {
                if selected < clips.len() - 1 {
                    selected
                } else {
                    clips.len() - 1
                }
            } else {
                0
            }
        },
    }
}

/// The selection once the search shows the cards `visible`: none shown
/// gives the first position; a reset, or a selection no longer shown, moves
/// to the first shown card; else it stays.
pub fn filtered_selection(visible: &Vec<usize>, selected: usize, reset: bool) -> (r: usize)
    ensures
        r == if visible@.len() == 0 {
            0
        } else if reset || !visible@.contains(selected) {
            visible@[0]
        } else {
            selected
        },
{
    if visible.len() == 0 {
        return 0;
    }
    if reset {
        return visible[0];
    }
    let mut i: usize = 0;
    while i < visible.len()
        invariant
            0 <= i <= visible@.len(),
            !reset,
            forall|j: int| 0 <= j < i ==> visible@[j] != selected,
        decreases visible@.len() - i,
    {
        if visible[i] == selected {
            assert(visible@.contains(selected));
            return selected;
        }
        i = i + 1;
    }
    visible[0]
}

/// The count shown in the bar's header: `1 clip`, `n clips`.
pub fn count_text(total: usize) -> (r: String)
    ensures
        r@ == crate::text::nat_digits(total as nat) + if total == 1 {
            " clip"@
        } else {
            " clips"@
        },
{
    let mut out: Vec<char> = Vec::new();
    crate::text::push_digits(&mut out, total as u64);
    if total == 1 {
        crate::text::push_str(&mut out, " clip");
    } else {
        crate::text::push_str(&mut out, " clips");
    }
    crate::text::string_from_chars(&out)
}

/// What a double click on the label of card `index` does to a rename in
/// progress.
#[derive(Debug, Clone, Copy, PartialEq, Eq, Structural)]
pub enum RenameBegin {
    /// That card is being renamed already: nothing.
    AlreadyEditing,
    /// Another card is being renamed: finish that one first, then start.
    FinishOther(usize),
    /// Nothing is being renamed: start.
    Start,
}

/// What starting to rename card `index` does while card `editing` (if any)
/// is being renamed.
pub fn rename_begin(editing: Option<usize>, index: usize) -> (r: RenameBegin)
    ensures
        r == match editing {
            Some(other) => if other == index {
                RenameBegin::AlreadyEditing
            } else {
                RenameBegin::FinishOther(other)
            },
            None => RenameBegin::Start,
        },
{
    match editing {
        Some(other) => if other == index {
            RenameBegin::AlreadyEditing
        } else {
            RenameBegin::FinishOther(other)
        },
        None => RenameBegin::Start,
    }
}

/// The rename field when it opens on `clip`: the card's label, the anchor
/// at its start and the cursor at its end (all of it selected).
pub fn rename_start_state(clip: &Clip) -> (r: (String, usize, usize))
    ensures
        r.0@ == crate::clip::display_label_spec(clip@),
        r.1 == 0,
        r.2 == r.0@.len(),
{
    let text = clip.display_label();
    let n = chars_of(text.as_str()).len();
    (text, 0, n)
}


/// Backspace removes the highlighted clip unless the search has text: on the
/// bar it deletes, and in the search field it deletes when the search is
/// empty and edits the search otherwise.
pub proof fn law_backspace_removes_unless_search_has_text(
    t: Seq<char>,
    anchor: int,
    cursor: int,
    unicode: Option<char>,
    ctrl: bool,
    alt: bool,
    shortcuts_open: bool,
    visible: Seq<usize>,
)
    ensures
        bar_action_spec(key_intent_spec(KEY_BACKSPACE, unicode, ctrl, false), shortcuts_open, visible)
            == BarAction::Delete,
        t.len() == 0 ==> search_step_spec(
            t,
            anchor,
            cursor,
            KEY_BACKSPACE,
            unicode,
            ctrl,
            alt,
            key_intent_spec(KEY_BACKSPACE, unicode, ctrl, true),
        ) == SearchStepView::Delete,
        t.len() > 0 ==> !(search_step_spec(
            t,
            anchor,
            cursor,
            KEY_BACKSPACE,
            unicode,
            ctrl,
            alt,
            key_intent_spec(KEY_BACKSPACE, unicode, ctrl, true),
        ) is Delete),
{
}

/// Ctrl+C copies the highlighted clip and closes the bar, but not while
/// searching: there the key is left to others.
pub proof fn law_ctrl_c_copies_and_closes_unless_searching(
    key: u32,
    unicode: Option<char>,
    t: Seq<char>,
    anchor: int,
    cursor: int,
    alt: bool,
    shortcuts_open: bool,
    visible: Seq<usize>,
)
    requires
        key == KEY_LOWER_C || key == KEY_UPPER_C,
    ensures
        bar_action_spec(key_intent_spec(key, unicode, true, false), shortcuts_open, visible)
            == BarAction::CopyClose,
        search_step_spec(
            t,
            anchor,
            cursor,
            key,
            unicode,
            true,
            alt,
            key_intent_spec(key, unicode, true, true),
        ) == SearchStepView::Proceed,
{
}

/// Ctrl+A selects all of the text, in the search field and in the rename
/// field.
pub proof fn law_ctrl_a_selects_all(
    key: u32,
    unicode: Option<char>,
    t: Seq<char>,
    anchor: int,
    cursor: int,
    alt: bool,
)
    requires
        key == KEY_LOWER_A || key == KEY_UPPER_A,
    ensures
        search_step_spec(
            t,
            anchor,
            cursor,
            key,
            unicode,
            true,
            alt,
            key_intent_spec(key, unicode, true, true),
        ) == SearchStepView::Select(0, t.len() as int),
        rename_step_spec(t, anchor, cursor, key, unicode, true, alt) == RenameStepView::Select(
            0,
            t.len() as int,
        ),
{
}

/// The arrow keys step through the shown cards: among shown cards listed in
/// rising order, Right moves the selection from a shown card to the next one
/// and Left to the previous one; at either end the selection stays.
pub proof fn law_arrows_step_through_shown_cards(
    unicode: Option<char>,
    ctrl: bool,
    searching: bool,
    shortcuts_open: bool,
    visible: Seq<usize>,
    i: int,
)
    requires
        forall|a: int, b: int| 0 <= a < b < visible.len() ==> visible[a] < visible[b],
        0 <= i < visible.len(),
    ensures
        key_intent_spec(KEY_RIGHT, unicode, ctrl, searching) == KeyIntent::Right,
        key_intent_spec(KEY_LEFT, unicode, ctrl, searching) == KeyIntent::Left,
        bar_action_spec(KeyIntent::Right, shortcuts_open, visible) matches BarAction::Move(d)
            && move_target_spec(visible, visible[i], d as int) == Some(
            if i + 1 < visible.len() {
                visible[i + 1]
            } else {
                visible[i]
            },
        ),
        bar_action_spec(KeyIntent::Left, shortcuts_open, visible) matches BarAction::Move(d)
            && move_target_spec(visible, visible[i], d as int) == Some(
            if i > 0 {
                visible[i - 1]
            } else {
                visible[i]
            },
        ),
{
    let sel = visible[i];
    assert(exists|k: int| 0 <= k < visible.len() && visible[k] == sel);
    let c = choose|k: int|
        0 <= k < visible.len() && visible[k] == sel && forall|j: int|
            0 <= j < k ==> visible[j] != sel;
    assert(c == i) by {
        if c < i {
            assert(visible[c] < visible[i]);
        } else if c > i {
            assert(visible[i] != sel);
        }
    }
}

} // verus!
