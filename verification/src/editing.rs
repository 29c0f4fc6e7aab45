//! Editing a one-line text field by characters: the search field and the
//! rename field of a card. Positions count characters; a selection runs from
//! `start` to `end`.
use vstd::prelude::*;

use crate::text::{
    char_utf8_len, char_utf8_width, chars_of, is_space, is_space_char, lemma_encode_utf8_len,
    lemma_utf8_len_concat, string_from_chars, utf8_len,
};

verus! {

/// The first `n` characters of `t` (all of them when `n` is past the end).
pub open spec fn head(t: Seq<char>, n: int) -> Seq<char> {
    if n >= t.len() {
        t
    } else {
        t.take(n)
    }
}

/// `t` without its first `n` characters (nothing when `n` is past the end).
pub open spec fn tail(t: Seq<char>, n: int) -> Seq<char> {
    if n >= t.len() {
        Seq::<char>::empty()
    } else {
        t.skip(n)
    }
}

/// `a` capped at `b`.
pub open spec fn min_int(a: int, b: int) -> int {
    if a < b {
        a
    } else {
        b
    }
}

/// Typing `ch` over the selection `start..end`: the text and the new cursor.
pub open spec fn insert_spec(t: Seq<char>, start: int, end: int, ch: char) -> (Seq<char>, int) {
    let s = min_int(start, t.len() as int);
    (t.take(s) + seq![ch] + tail(t, end), s + 1)
}

/// Removing the selection `start..end`.
pub open spec fn cut_spec(t: Seq<char>, start: int, end: int) -> (Seq<char>, int) {
    let s = min_int(start, t.len() as int);
    (t.take(s) + tail(t, end), s)
}

/// Backspace: removes the selection, else the character before the cursor.
pub open spec fn backspace_spec(t: Seq<char>, start: int, end: int) -> (Seq<char>, int) {
    if start != end {
        cut_spec(t, start, end)
    } else if start == 0 {
        (t, 0)
    } else {
        (t.take(start - 1) + t.skip(start), start - 1)
    }
}

/// Delete: removes the selection, else the character after the cursor.
pub open spec fn delete_spec(t: Seq<char>, start: int, end: int) -> (Seq<char>, int) {
    if start != end {
        cut_spec(t, start, end)
    } else if start >= t.len() {
        (t, start)
    } else {
        (t.take(start) + t.skip(start + 1), start)
    }
}

/// Left or right: collapses a selection to its side, else moves the cursor
/// by `delta`, within the text.
pub open spec fn move_spec(len: int, start: int, end: int, cursor: int, delta: int) -> int {
    if start != end {
        if delta < 0 {
            min_int(start, len)
        } else {
            min_int(end, len)
        }
    } else {
        let c = if cursor < 0 {
            0
        } else {
            cursor
        };
        let m = c + delta;
        if m < 0 {
            0
        } else {
            min_int(m, len)
        }
    }
}

/// From `i`, the position after the run of non-space characters that starts there.
pub open spec fn skip_word_fwd(t: Seq<char>, i: int) -> int
    decreases t.len() - i,
{
    if 0 <= i < t.len() && !is_space(t[i]) {
        skip_word_fwd(t, i + 1)
    } else {
        i
    }
}

/// From `i`, the position after the run of spaces that starts there.
pub open spec fn skip_space_fwd(t: Seq<char>, i: int) -> int
    decreases t.len() - i,
{
    if 0 <= i < t.len() && is_space(t[i]) {
        skip_space_fwd(t, i + 1)
    } else {
        i
    }
}

/// From `i`, the start of the run of non-space characters that ends there.
pub open spec fn skip_word_back(t: Seq<char>, i: int) -> int
    decreases i,
{
    if 0 < i <= t.len() && !is_space(t[i - 1]) {
        skip_word_back(t, i - 1)
    } else {
        i
    }
}

/// From `i`, the start of the run of spaces that ends there.
pub open spec fn skip_space_back(t: Seq<char>, i: int) -> int
    decreases i,
{
    if 0 < i <= t.len() && is_space(t[i - 1]) {
        skip_space_back(t, i - 1)
    } else {
        i
    }
}

/// Word movement: forward to the start of the next word, backward to the
/// start of the previous one.
pub open spec fn move_word_spec(t: Seq<char>, cursor: int, forward: bool) -> int {
    let i = min_int(cursor, t.len() as int);
    if forward {
        skip_space_fwd(t, skip_word_fwd(t, i))
    } else {
        skip_word_back(t, skip_space_back(t, i))
    }
}

/// `t` without its trailing spaces, its last word, and one space before it.
pub open spec fn pop_word_spec(t: Seq<char>) -> Seq<char> {
    let b = skip_word_back(t, skip_space_back(t, t.len() as int));
    let c = if b > 0 && is_space(t[b - 1]) {
        b - 1
    } else {
        b
    };
    t.take(c)
}

/// Backspace with Alt: removes the selection, else the word before the cursor.
pub open spec fn backspace_word_spec(t: Seq<char>, start: int, end: int) -> (Seq<char>, int) {
    if start != end {
        backspace_spec(t, start, end)
    } else if start == 0 {
        (t, 0)
    } else {
        let p = pop_word_spec(head(t, start));
        (p + tail(t, start), p.len() as int)
    }
}

/// The selection between an anchor and the cursor, in order.
pub fn kind_edit_range(anchor: usize, cursor: usize) -> (r: (usize, usize))
    ensures
        r.0 == min_int(anchor as int, cursor as int),
        r.1 == if anchor < cursor {
            cursor
        } else {
            anchor
        },
{
    if anchor != cursor {
        if anchor < cursor {
            (anchor, cursor)
        } else {
            (cursor, anchor)
        }
    } else {
        (cursor, cursor)
    }
}

/// The characters `from..to` of `v`.
pub(crate) fn slice_chars(v: &Vec<char>, from: usize, to: usize) -> (out: Vec<char>)
    requires
        from <= to <= v@.len(),
    ensures
        out@ == v@.subrange(from as int, to as int),
{
    let mut out: Vec<char> = Vec::new();
    let mut i: usize = from;
    while i < to
        invariant
            from <= i <= to <= v@.len(),
            out@ == v@.subrange(from as int, i as int),
        decreases to - i,
    {
        out.push(v[i]);
        assert(out@ =~= v@.subrange(from as int, i + 1));
        i = i + 1;
    }
    out
}

/// Appends the characters `from..` of `v` (none when `from` is past the end).
fn push_tail(out: &mut Vec<char>, v: &Vec<char>, from: usize)
    ensures
        final(out)@ == old(out)@ + tail(v@, from as int),
{
    if from < v.len() {
        let rest = slice_chars(v, from, v.len());
        let mut i: usize = 0;
        while i < rest.len()
            invariant
                0 <= i <= rest@.len(),
                out@ == old(out)@ + rest@.take(i as int),
            decreases rest@.len() - i,
        {
            out.push(rest[i]);
            assert(out@ =~= old(out)@ + rest@.take(i + 1));
            i = i + 1;
        }
        assert(rest@.take(rest@.len() as int) =~= rest@);
        assert(v@.subrange(from as int, v@.len() as int) =~= v@.skip(from as int));
    } else {
        assert(old(out)@ + Seq::<char>::empty() =~= old(out)@);
    }
}

fn min_usize(a: usize, b: usize) -> (r: usize)
    ensures
        r == min_int(a as int, b as int),
{
    if a < b {
        a
    } else {
        b
    }
}

/// Types `ch` over the selection `start..end` (both clamped to the text; no
/// text holds `usize::MAX` characters).
pub fn entry_edit_insert(text: &str, start: usize, end: usize, ch: char) -> (r: (String, usize))
    requires
        text@.len() < usize::MAX,
    ensures
        (r.0@, r.1 as int) == insert_spec(text@, start as int, end as int, ch),
{
    let chars = chars_of(text);
    let s = min_usize(start, chars.len());
    let mut next = slice_chars(&chars, 0, s);
    next.push(ch);
    push_tail(&mut next, &chars, end);
    assert(chars@.subrange(0, s as int) =~= chars@.take(s as int));
    (string_from_chars(&next), s + 1)
}

/// Removes the selection `start..end`.
fn cut(chars: &Vec<char>, start: usize, end: usize) -> (r: (Vec<char>, usize))
    ensures
        (r.0@, r.1 as int) == cut_spec(chars@, start as int, end as int),
{
    let s = min_usize(start, chars.len());
    let mut next = slice_chars(chars, 0, s);
    push_tail(&mut next, chars, end);
    assert(chars@.subrange(0, s as int) =~= chars@.take(s as int));
    (next, s)
}

/// Backspace at the cursor or over the selection.
pub fn entry_edit_backspace(text: &str, start: usize, end: usize) -> (r: (String, usize))
    requires
        start == end ==> start <= text@.len(),
    ensures
        (r.0@, r.1 as int) == backspace_spec(text@, start as int, end as int),
{
    let chars = chars_of(text);
    if start != end {
        let (next, pos) = cut(&chars, start, end);
        (string_from_chars(&next), pos)
    } else if start == 0 {
        (string_from_chars(&chars), 0)
    } else {
        let mut next = slice_chars(&chars, 0, start - 1);
        push_tail(&mut next, &chars, start);
        assert(chars@.subrange(0, start - 1) =~= chars@.take(start - 1));
        if start == chars.len() {
            assert(chars@.skip(start as int) =~= Seq::<char>::empty());
        }
        (string_from_chars(&next), start - 1)
    }
}

/// Delete at the cursor or over the selection.
pub fn entry_edit_delete(text: &str, start: usize, end: usize) -> (r: (String, usize))
    ensures
        (r.0@, r.1 as int) == delete_spec(text@, start as int, end as int),
{
    let chars = chars_of(text);
    if start != end {
        let (next, pos) = cut(&chars, start, end);
        (string_from_chars(&next), pos)
    } else if start >= chars.len() {
        (string_from_chars(&chars), start)
    } else {
        let mut next = slice_chars(&chars, 0, start);
        push_tail(&mut next, &chars, start + 1);
        assert(chars@.subrange(0, start as int) =~= chars@.take(start as int));
        if start + 1 == chars.len() {
            assert(chars@.skip(start + 1) =~= Seq::<char>::empty());
        }
        (string_from_chars(&next), start)
    }
}

/// The cursor after Left (`delta` -1) or Right (`delta` 1).
pub fn entry_edit_move(text: &str, start: usize, end: usize, cursor: i32, delta: i32) -> (r: usize)
    ensures
        r == move_spec(text@.len() as int, start as int, end as int, cursor as int, delta as int),
{
    let len = chars_of(text).len();
    if start != end {
        if delta < 0 {
            min_usize(start, len)
        } else {
            min_usize(end, len)
        }
    } else {
        let c: i64 = if cursor < 0 {
            0
        } else {
            cursor as i64
        };
        let m: i64 = c + delta as i64;
        if m < 0 {
            0
        } else if (m as u64) < (len as u64) {
            m as usize
        } else {
            len
        }
    }
}

/// The cursor after a word movement from `cursor`.
pub fn entry_edit_move_word(text: &str, cursor: usize, forward: bool) -> (r: usize)
    ensures
        r == move_word_spec(text@, cursor as int, forward),
{
    let chars = chars_of(text);
    let len = chars.len();
    let mut i = min_usize(cursor, len);
    let ghost t = chars@;
    if forward {
        let ghost i0 = i as int;
        while i < len && !is_space_char(chars[i])
            invariant
                i0 <= i <= len == t.len(),
                t == chars@,
                skip_word_fwd(t, i0) == skip_word_fwd(t, i as int),
            decreases len - i,
        {
            i = i + 1;
        }
        let ghost i1 = i as int;
        while i < len && is_space_char(chars[i])
            invariant
                i1 <= i <= len == t.len(),
                t == chars@,
                skip_space_fwd(t, i1) == skip_space_fwd(t, i as int),
            decreases len - i,
        {
            i = i + 1;
        }
        i
    } else {
        let ghost i0 = i as int;
        while i > 0 && is_space_char(chars[i - 1])
            invariant
                0 <= i <= i0 <= len == t.len(),
                t == chars@,
                skip_space_back(t, i0) == skip_space_back(t, i as int),
            decreases i,
        {
            i = i - 1;
        }
        let ghost i1 = i as int;
        while i > 0 && !is_space_char(chars[i - 1])
            invariant
                0 <= i <= i1 <= len == t.len(),
                t == chars@,
                skip_word_back(t, i1) == skip_word_back(t, i as int),
            decreases i,
        {
            i = i - 1;
        }
        i
    }
}

/// `chars` without their trailing spaces, last word and the space before it.
fn pop_word_chars(chars: &Vec<char>) -> (out: Vec<char>)
    ensures
        out@ == pop_word_spec(chars@),
{
    let ghost t = chars@;
    let mut i: usize = chars.len();
    while i > 0 && is_space_char(chars[i - 1])
        invariant
            0 <= i <= t.len(),
            t == chars@,
            skip_space_back(t, t.len() as int) == skip_space_back(t, i as int),
        decreases i,
    {
        i = i - 1;
    }
    let ghost i1 = i as int;
    while i > 0 && !is_space_char(chars[i - 1])
        invariant
            0 <= i <= i1 <= t.len(),
            t == chars@,
            skip_word_back(t, i1) == skip_word_back(t, i as int),
        decreases i,
    {
        i = i - 1;
    }
    if i > 0 && is_space_char(chars[i - 1]) {
        i = i - 1;
    }
    let out = slice_chars(chars, 0, i);
    assert(out@ =~= t.take(i as int));
    out
}

/// The text without its trailing spaces, last word and the space before it.
pub fn search_text_pop_word(text: &str) -> (r: String)
    ensures
        r@ == pop_word_spec(text@),
{
    let chars = chars_of(text);
    string_from_chars(&pop_word_chars(&chars))
}

/// Backspace with Alt: the word before the cursor, or the selection.
pub fn entry_edit_backspace_word(text: &str, start: usize, end: usize) -> (r: (String, usize))
    requires
        start == end ==> start <= text@.len(),
    ensures
        (r.0@, r.1 as int) == backspace_word_spec(text@, start as int, end as int),
{
    if start != end {
        return entry_edit_backspace(text, start, end);
    }
    let chars = chars_of(text);
    if start == 0 {
        return (string_from_chars(&chars), 0);
    }
    let prefix = slice_chars(&chars, 0, min_usize(start, chars.len()));
    assert(prefix@ =~= head(chars@, start as int));
    let mut next = pop_word_chars(&prefix);
    let pos = next.len();
    push_tail(&mut next, &chars, start);
    (string_from_chars(&next), pos)
}

/// The byte offset in `text` of the character at position `cursor_chars`
/// (the text's length in bytes past the end).
pub fn char_byte_index(text: &str, cursor_chars: usize) -> (r: usize)
    ensures
        r == utf8_len(head(text@, cursor_chars as int)),
{
    let chars = chars_of(text);
    let n = min_usize(cursor_chars, chars.len());
    let bytes = text.as_bytes();
    let nbytes = bytes.len();
    proof {
        lemma_encode_utf8_len(text@);
        assert(nbytes == utf8_len(text@));
    }
    let mut total: usize = 0;
    let mut i: usize = 0;
    while i < n
        invariant
            0 <= i <= n <= chars@.len(),
            chars@ == text@,
            total == utf8_len(chars@.take(i as int)),
            utf8_len(chars@) <= usize::MAX,
        decreases n - i,
    {
        proof {
            lemma_utf8_len_concat(chars@.take(i + 1), chars@.skip(i + 1));
            assert(chars@.take(i + 1) + chars@.skip(i + 1) =~= chars@);
            lemma_utf8_len_concat(chars@.take(i as int), seq![chars@[i as int]]);
            assert(chars@.take(i as int) + seq![chars@[i as int]] =~= chars@.take(i + 1));
            assert(seq![chars@[i as int]].drop_first() =~= Seq::<char>::empty());
            assert(utf8_len(Seq::<char>::empty()) == 0);
            assert(utf8_len(seq![chars@[i as int]]) == char_utf8_len(chars@[i as int]));
        }
        total = total + char_utf8_width(chars[i]);
        i = i + 1;
    }
    if n == chars.len() {
        assert(chars@.take(n as int) =~= chars@);
    }
    total
}

/// With a selection `start..end` in the text, Delete and Backspace remove
/// exactly the selected characters and leave the cursor where the selection
/// began, and typing replaces exactly the selection with the character.
pub proof fn law_edits_replace_the_selection(t: Seq<char>, start: int, end: int, ch: char)
    requires
        0 <= start < end <= t.len(),
    ensures
        delete_spec(t, start, end) == (t.take(start) + t.skip(end), start),
        backspace_spec(t, start, end) == (t.take(start) + t.skip(end), start),
        insert_spec(t, start, end, ch) == (t.take(start).push(ch) + t.skip(end), start + 1),
        delete_spec(t, start, end).0.len() == t.len() - (end - start),
{
    assert(tail(t, end) =~= t.skip(end));
    assert(t.take(start) + seq![ch] =~= t.take(start).push(ch));
}

/// Typing a character and then backspacing leaves the text and cursor as
/// they were (with no selection and the cursor inside the text).
pub proof fn law_insert_then_backspace(t: Seq<char>, cursor: int, ch: char)
    requires
        0 <= cursor <= t.len(),
    ensures
        backspace_spec(insert_spec(t, cursor, cursor, ch).0, cursor + 1, cursor + 1) == (t, cursor),
{
    let (u, p) = insert_spec(t, cursor, cursor, ch);
    assert(u.take(cursor) =~= t.take(cursor));
    if cursor < t.len() {
        assert(u.skip(cursor + 1) =~= t.skip(cursor));
    } else {
        assert(u.skip(cursor + 1) =~= Seq::<char>::empty());
        assert(t.skip(cursor) =~= Seq::<char>::empty());
    }
    assert(t.take(cursor) + t.skip(cursor) =~= t);
}

/// Cursor movement never leaves the text.
pub proof fn law_moves_stay_in_text(t: Seq<char>, start: int, end: int, cursor: int, delta: int, forward: bool)
    requires
        0 <= start,
        0 <= end,
        0 <= cursor,
    ensures
        0 <= move_spec(t.len() as int, start, end, cursor, delta) <= t.len(),
        0 <= move_word_spec(t, cursor, forward) <= t.len(),
{
    lemma_skips_in_range(t, min_int(cursor, t.len() as int));
}

proof fn lemma_skips_in_range(t: Seq<char>, i: int)
    requires
        0 <= i <= t.len(),
    ensures
        i <= skip_word_fwd(t, i) <= t.len(),
        i <= skip_space_fwd(t, i) <= t.len(),
        0 <= skip_word_back(t, i) <= i,
        0 <= skip_space_back(t, i) <= i,
        skip_word_fwd(t, i) <= skip_space_fwd(t, skip_word_fwd(t, i)) <= t.len(),
        0 <= skip_word_back(t, skip_space_back(t, i)) <= skip_space_back(t, i),
    decreases t.len() - i,
{
    lemma_fwd_range(t, i);
    lemma_back_range(t, i);
    lemma_fwd_range(t, skip_word_fwd(t, i));
    lemma_back_range(t, skip_space_back(t, i));
}

proof fn lemma_fwd_range(t: Seq<char>, i: int)
    requires
        0 <= i <= t.len(),
    ensures
        i <= skip_word_fwd(t, i) <= t.len(),
        i <= skip_space_fwd(t, i) <= t.len(),
    decreases t.len() - i,
{
    if i < t.len() {
        lemma_fwd_range(t, i + 1);
    }
}

proof fn lemma_back_range(t: Seq<char>, i: int)
    requires
        0 <= i <= t.len(),
    ensures
        0 <= skip_word_back(t, i) <= i,
        0 <= skip_space_back(t, i) <= i,
    decreases i,
{
    if i > 0 {
        lemma_back_range(t, i - 1);
    }
}

} // verus!
