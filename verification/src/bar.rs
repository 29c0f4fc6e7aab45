//! The bar's layout and what its cards say: sizes, ages, card texts, the
//! shortcut list and what a dragged card carries.
use vstd::prelude::*;

use chrono::TimeZone;

use crate::clip::{display_label_spec, format_chars_spec, Clip};
use crate::hash::{clip_digest, content_hash};
use crate::text::{
    make_preview, nat_digits, preview_of, push_digits, push_str, str_eq, string_from_chars,
};
use vstd::utf8::encode_utf8;

verus! {

/// Height of the bar, in pixels.
pub const BAR_HEIGHT: i32 = 356;

/// Size of a card, in pixels.
pub const CARD_WIDTH: i32 = 210;

pub const CARD_HEIGHT: i32 = 280;

/// Border and horizontal padding of a card's body, in pixels.
pub const CARD_BORDER: i32 = 1;

pub const CARD_BODY_PAD_X: i32 = 12;

/// Width of one character of the preview font, in pixels.
pub const PREVIEW_CELL_PX: i32 = 8;

/// Width inside a card's body, in pixels.
pub const PREVIEW_INNER_WIDTH: i32 = CARD_WIDTH - 2 * CARD_BORDER - 2 * CARD_BODY_PAD_X;

/// Characters that fit on a preview line (the inner width over the cell
/// width), and preview lines per card.
pub const PREVIEW_MAX_CHARS: i32 = 23;

pub const PREVIEW_LINES: i32 = 7;

/// Gap kept between the bar and each side of the output, in pixels.
pub const SIDE_MARGIN: i32 = 18;

/// Distance a card must be dragged before a drag starts, in pixels.
pub const CARD_DRAG_THRESHOLD_PX: i32 = 24;

/// Width of the bar on an output `output_px` wide: the output less the side
/// margins, at least 800.
pub fn bar_width_for(output_px: i32) -> (r: i32)
    requires
        output_px >= i32::MIN + 2 * SIDE_MARGIN,
    ensures
        r == if output_px - 2 * SIDE_MARGIN < 800 {
            800
        } else {
            output_px - 2 * SIDE_MARGIN
        },
{
    let w = output_px - 2 * SIDE_MARGIN;
    if w < 800 {
        800
    } else {
        w
    }
}

/// How long ago, in words, something happened `delta` seconds ago, for
/// less than a week; `None` from a week on.
pub open spec fn age_label(delta: int) -> Option<Seq<char>> {
    if delta < 12 {
        Some("just now"@)
    } else if delta < 60 {
        Some(nat_digits(delta as nat) + "s ago"@)
    } else if delta < 3600 {
        Some(nat_digits((delta / 60) as nat) + "m ago"@)
    } else if delta < 86400 {
        Some(nat_digits((delta / 3600) as nat) + "h ago"@)
    } else if delta / 86400 == 1 {
        Some("yesterday"@)
    } else if delta / 86400 < 7 {
        Some(nat_digits((delta / 86400) as nat) + "d ago"@)
    } else {
        None
    }
}

/// Seconds from `ts` to `now`, and 0 for a time in the future.
pub open spec fn age_delta(ts: int, now: int) -> int {
    if now - ts < 0 {
        0
    } else {
        now - ts
    }
}

/// The age of a card from `ts` at `now`: in words under a week; from a week
/// on, the local date `local` when there is one, else the days.
pub open spec fn age_text(ts: int, now: int, local: Option<Seq<char>>) -> Seq<char> {
    let d = age_delta(ts, now);
    match age_label(d) {
        Some(l) => l,
        None => match local {
            Some(s) => s,
            None => nat_digits((d / 86400) as nat) + "d ago"@,
        },
    }
}

/// The age of a card, given the local date for a week or older.
pub fn format_age_with(ts: i64, now: i64, local: Option<String>) -> (r: String)
    ensures
        r@ == age_text(ts as int, now as int, crate::clip::opt_view(local)),
{
    let diff: i128 = now as i128 - ts as i128;
    let delta: u64 = if diff < 0 {
        0
    } else {
        diff as u64
    };
    let mut out: Vec<char> = Vec::new();
    if delta < 12 {
        push_str(&mut out, "just now");
    } else if delta < 60 {
        push_digits(&mut out, delta);
        push_str(&mut out, "s ago");
    } else if delta < 3600 {
        push_digits(&mut out, delta / 60);
        push_str(&mut out, "m ago");
    } else if delta < 86400 {
        push_digits(&mut out, delta / 3600);
        push_str(&mut out, "h ago");
    } else {
        let days = delta / 86400;
        if days == 1 {
            push_str(&mut out, "yesterday");
        } else if days < 7 {
            push_digits(&mut out, days);
            push_str(&mut out, "d ago");
        } else {
            match local {
                Some(s) => {
                    return s;
                },
                None => {
                    push_digits(&mut out, days);
                    push_str(&mut out, "d ago");
                },
            }
        }
    }
    string_from_chars(&out)
}

/// The English abbreviation of month `m` (0 for January).
pub open spec fn short_month(m: int) -> Seq<char> {
    if m == 0 {
        "Jan"@
    } else if m == 1 {
        "Feb"@
    } else if m == 2 {
        "Mar"@
    } else if m == 3 {
        "Apr"@
    } else if m == 4 {
        "May"@
    } else if m == 5 {
        "Jun"@
    } else if m == 6 {
        "Jul"@
    } else if m == 7 {
        "Aug"@
    } else if m == 8 {
        "Sep"@
    } else if m == 9 {
        "Oct"@
    } else if m == 10 {
        "Nov"@
    } else {
        "Dec"@
    }
}

/// `s` reads as a month and day, as in `Nov 18`.
pub open spec fn is_month_day(s: Seq<char>) -> bool {
    exists|m: int, d: nat|
        0 <= m < 12 && 1 <= d <= 31 && s == #[trigger] month_day_text(m, d)
}

/// Month `m` (0 for January) and day `d`, as in `Nov 18`.
pub open spec fn month_day_text(m: int, d: nat) -> Seq<char> {
    short_month(m) + " "@ + nat_digits(d)
}

/// Formats `ts` as the local month and day (`%b %-d`, as in `Nov 18`)
/// through `chrono::Local`; `None` when the local time is ambiguous or does
/// not exist. Which date that is depends on the machine's time zone, so only
/// the form is stated: chrono (without its locale feature) writes `%b` as the
/// English three-letter month and `%-d` as the day of the month, 1 to 31,
/// without padding.
#[verifier::external_body]
fn local_month_day(ts: i64) -> (r: Option<String>)
    ensures
        r matches Some(s) ==> is_month_day(s@),
{
    chrono::Local.timestamp_opt(ts, 0).single().map(|t| t.format("%b %-d").to_string())
}

/// `r` is how the age of a card from `ts` reads at `now`, for some local
/// date (which only shows from a week on).
pub open spec fn is_age_text(ts: int, now: int, r: Seq<char>) -> bool {
    exists|local: Option<Seq<char>>|
        (local matches Some(l) ==> is_month_day(l)) && r == #[trigger] age_text(ts, now, local)
}

/// The age of a card from `ts` at `now`: exact under a week, a local date (or
/// the days) from a week on.
pub fn format_age_at(ts: i64, now: i64) -> (r: String)
    ensures
        age_label(age_delta(ts as int, now as int)) matches Some(l) ==> r@ == l,
        is_age_text(ts as int, now as int, r@),
{
    let diff: i128 = now as i128 - ts as i128;
    let local = if diff >= 604800 {
        local_month_day(ts)
    } else {
        None
    };
    let ghost lv = crate::clip::opt_view(local);
    let r = format_age_with(ts, now, local);
    assert(age_text(ts as int, now as int, lv) == r@);
    r
}

/// The age of a card from `ts`, now: how it reads at the clock's time (which
/// is unknown here, so `format_age_at` states the result for a given time).
pub fn format_age(ts: i64) -> (r: String)
    ensures
        exists|now: i64| #[trigger] is_age_text(ts as int, now as int, r@),
{
    let now = crate::store::now_secs();
    let r = format_age_at(ts, now);
    assert(is_age_text(ts as int, now as int, r@));
    r
}

/// Number of entries of the shortcut list.
pub const SHORTCUT_COUNT: usize = 8;

/// Entry `i` of the shortcut list: the keys and what they do.
pub open spec fn shortcut(i: int) -> (Seq<char>, Seq<char>) {
    if i == 0 {
        ("\u{2190} \u{2192}"@, "Select"@)
    } else if i == 1 {
        ("Enter"@, "Paste"@)
    } else if i == 2 {
        ("Click"@, "Copy"@)
    } else if i == 3 {
        ("Drag"@, "Drop to paste"@)
    } else if i == 4 {
        ("Del"@, "Delete"@)
    } else if i == 5 {
        ("Ctrl+K"@, "Keep"@)
    } else if i == 6 {
        ("Type"@, "Search"@)
    } else {
        ("Esc"@, "Close"@)
    }
}

/// Entry `i` of the shortcut list.
pub fn shortcut_at(i: usize) -> (r: (&'static str, &'static str))
    requires
        i < SHORTCUT_COUNT,
    ensures
        (r.0@, r.1@) == shortcut(i as int),
{
    if i == 0 {
        ("\u{2190} \u{2192}", "Select")
    } else if i == 1 {
        ("Enter", "Paste")
    } else if i == 2 {
        ("Click", "Copy")
    } else if i == 3 {
        ("Drag", "Drop to paste")
    } else if i == 4 {
        ("Del", "Delete")
    } else if i == 5 {
        ("Ctrl+K", "Keep")
    } else if i == 6 {
        ("Type", "Search")
    } else {
        ("Esc", "Close")
    }
}

/// What the body of a card shows.
pub enum CardBody {
    /// The preview of the text.
    Text(String),
    /// The image in this file.
    Image(String),
    /// Nothing (an image clip without a file).
    Empty,
}

/// The texts of a card: its label, its age, its body and its size line.
pub struct CardText {
    pub label: String,
    pub age: String,
    pub body: CardBody,
    pub footer: String,
}

/// The preview a card shows for a text clip: its text (else its stored
/// preview), cut to the lines of the card.
pub open spec fn card_preview(c: crate::clip::ClipView) -> Seq<char> {
    let raw = match c.text {
        Some(t) => t,
        None => c.preview,
    };
    preview_of(raw, (PREVIEW_MAX_CHARS * PREVIEW_LINES) as nat)
}

/// The texts of the card of `clip` at `now`.
pub fn card_text(clip: &Clip, now: i64) -> (r: CardText)
    ensures
        r.label@ == display_label_spec(clip@),
        age_label(age_delta(clip.last_used_at as int, now as int)) matches Some(l) ==> r.age@ == l,
        is_age_text(clip.last_used_at as int, now as int, r.age@),
        r.footer@ == format_chars_spec(clip@),
        clip@.kind == "image"@ ==> match clip@.image_path {
            Some(p) => r.body matches CardBody::Image(q) && q@ == p,
            None => r.body is Empty,
        },
        clip@.kind != "image"@ ==> (r.body matches CardBody::Text(t) && t@ == card_preview(clip@)),
{
    let label = clip.display_label();
    let age = format_age_at(clip.last_used_at, now);
    let body = if str_eq(clip.kind.as_str(), "image") {
        match &clip.image_path {
            Some(p) => CardBody::Image(p.clone()),
            None => CardBody::Empty,
        }
    } else {
        let raw: &str = match &clip.text {
            Some(t) => t.as_str(),
            None => clip.preview.as_str(),
        };
        CardBody::Text(make_preview(raw, (PREVIEW_MAX_CHARS * PREVIEW_LINES) as usize))
    };
    let footer = clip.format_chars();
    CardText { label, age, body, footer }
}

/// What a dragged card carries.
pub struct DragPayload {
    pub mime: String,
    pub bytes: Vec<u8>,
    pub is_text: bool,
}

/// The MIME type a dragged text is offered as first.
pub open spec fn text_drag_mime() -> Seq<char> {
    "text/plain;charset=utf-8"@
}

/// What dragging the card of `clip` carries: an image clip its file's bytes
/// (`image`, read from its path) as its MIME type; a text clip its text as
/// UTF-8 text; nothing for an image without a path or bytes, or a text clip
/// without text.
pub fn clip_drag_payload(clip: &Clip, image: Option<Vec<u8>>) -> (r: Option<DragPayload>)
    ensures
        clip@.kind == "image"@ ==> match (clip@.image_path, image) {
            (Some(_), Some(b)) => r matches Some(d) && d.mime@ == clip@.mime && d.bytes@ == b@
                && !d.is_text,
            _ => r is None,
        },
        clip@.kind != "image"@ ==> match clip@.text {
            Some(t) => r matches Some(d) && d.mime@ == text_drag_mime() && d.bytes@ == encode_utf8(
                t,
            ) && d.is_text,
            None => r is None,
        },
{
    if str_eq(clip.kind.as_str(), "image") {
        if clip.image_path.is_none() {
            return None;
        }
        match image {
            Some(bytes) => Some(DragPayload { mime: clip.mime.clone(), bytes, is_text: false }),
            None => None,
        }
    } else {
        match &clip.text {
            Some(t) => {
                let bytes = t.as_str().as_bytes_vec();
                Some(DragPayload { mime: "text/plain;charset=utf-8".to_owned(), bytes, is_text: true })
            },
            None => None,
        }
    }
}

/// The name of the temporary file a dragged image is offered from:
/// `omapaste-drag-`, its content hash, `.png`.
pub fn drag_file_name(payload: &DragPayload) -> (r: String)
    ensures
        r@ == "omapaste-drag-"@ + clip_digest("image"@, payload.mime@, payload.bytes@) + ".png"@,
{
    let digest = content_hash("image", payload.mime.as_str(), payload.bytes.as_slice());
    let mut out: Vec<char> = Vec::new();
    push_str(&mut out, "omapaste-drag-");
    push_str(&mut out, digest.as_str());
    push_str(&mut out, ".png");
    string_from_chars(&out)
}

/// The MIME types a dragged text is offered as, besides the text itself.
pub fn text_drag_mime_types() -> (r: Vec<&'static str>)
    ensures
        r@.len() == 2,
        r@[0]@ == "text/plain;charset=utf-8"@,
        r@[1]@ == "text/plain"@,
{
    let mut r: Vec<&'static str> = Vec::new();
    r.push("text/plain;charset=utf-8");
    r.push("text/plain");
    r
}

/// After a drag, the bar opens again only when the drag was cancelled and
/// the bar had been hidden for it.
pub fn should_reopen_after_drag(cancelled: bool, panel_hidden: bool) -> (r: bool)
    ensures
        r == (cancelled && panel_hidden),
{
    cancelled && panel_hidden
}

/// A preview line fits inside a card: the characters of a line are the
/// inner width over the cell width.
pub proof fn law_preview_line_fits_card()
    ensures
        PREVIEW_MAX_CHARS == PREVIEW_INNER_WIDTH / PREVIEW_CELL_PX,
        PREVIEW_MAX_CHARS * PREVIEW_CELL_PX <= PREVIEW_INNER_WIDTH,
{
}

/// A card's preview fits its lines: at most the characters of its lines.
pub proof fn law_card_preview_fits(c: crate::clip::ClipView)
    ensures
        card_preview(c).len() <= PREVIEW_MAX_CHARS * PREVIEW_LINES,
{
    let raw = match c.text {
        Some(t) => t,
        None => c.preview,
    };
    crate::text::lemma_preview_len(raw, (PREVIEW_MAX_CHARS * PREVIEW_LINES) as nat);
}

/// A window `s..e` of a text of `n` characters that holds the cursor `c`.
pub open spec fn in_window(n: int, c: int, s: int, e: int) -> bool {
    0 <= s <= c && c <= e <= n
}

/// How far the middle of `s..e` lies from the cursor `c`, in half characters.
pub open spec fn win_dist(c: int, s: int, e: int) -> int {
    if 2 * c >= s + e {
        2 * c - (s + e)
    } else {
        (s + e) - 2 * c
    }
}

/// `s..e` is a better window than `s2..e2`: longer, or as long and closer
/// to centred on the cursor.
pub open spec fn beats(c: int, s: int, e: int, s2: int, e2: int) -> bool {
    e - s > e2 - s2 || (e - s == e2 - s2 && win_dist(c, s, e) < win_dist(c, s2, e2))
}

/// `s..e` comes before `s2..e2`: it starts earlier, or ends earlier.
pub open spec fn lex_before(s: int, e: int, s2: int, e2: int) -> bool {
    s < s2 || (s == s2 && e < e2)
}

/// The width measured for the window `s..e` is at most `max`.
pub open spec fn fits(w: Map<(int, int), i32>, s: int, e: int, max: int) -> bool {
    w[(s, e)] <= max
}

/// `s..e` is the window shown: non-empty, within `max`, no fitting
/// non-empty window beats it, and it is the first of the equally good ones.
pub open spec fn is_best_window(w: Map<(int, int), i32>, n: int, c: int, max: int, s: int, e: int) -> bool {
    &&& in_window(n, c, s, e)
    &&& s < e
    &&& fits(w, s, e, max)
    &&& forall|s2: int, e2: int|
        #![trigger fits(w, s2, e2, max)]
        in_window(n, c, s2, e2) && s2 < e2 && fits(w, s2, e2, max) ==> !beats(c, s2, e2, s, e) && (
        beats(c, s, e, s2, e2) || !lex_before(s2, e2, s, e))
}

/// The window the rename field shows, given the measured widths: the best
/// one, or the character at the cursor when no window fits.
pub open spec fn viewport_window(w: Map<(int, int), i32>, n: int, c: int, max: int) -> (int, int) {
    if exists|s: int, e: int| is_best_window(w, n, c, max, s, e) {
        choose|s: int, e: int| is_best_window(w, n, c, max, s, e)
    } else {
        (c, if c + 1 < n {
            c + 1
        } else {
            n
        })
    }
}

/// `w` holds, for every window around the cursor, a width `measure` gave
/// for its text.
pub open spec fn measured<F: Fn(&str) -> i32>(measure: F, t: Seq<char>, c: int, w: Map<(int, int), i32>) -> bool {
    forall|s: int, e: int|
        in_window(t.len() as int, c, s, e) ==> #[trigger] measured_at(measure, t, w, s, e)
}

/// `w` holds a width `measure` gave for the text of the window `s..e`.
pub open spec fn measured_at<F: Fn(&str) -> i32>(
    measure: F,
    t: Seq<char>,
    w: Map<(int, int), i32>,
    s: int,
    e: int,
) -> bool {
    w.contains_key((s, e)) && exists|x: &str|
        x@ == t.subrange(s, e) && measure.ensures((x,), w[(s, e)])
}

/// The cursor, kept within a text of `n` characters.
pub open spec fn clamp_cursor(cursor: int, n: int) -> int {
    if cursor < n {
        cursor
    } else {
        n
    }
}

/// What the rename field shows of `t` for the measured widths `w`: the text
/// of the chosen window, and where it starts.
pub open spec fn viewport_shown(w: Map<(int, int), i32>, t: Seq<char>, cursor: int, max: int) -> (Seq<char>, int) {
    let win = viewport_window(w, t.len() as int, clamp_cursor(cursor, t.len() as int), max);
    (t.subrange(win.0, win.1), win.0)
}

/// Windows visited before `start..end` in the scan.
pub open spec fn visited(n: int, c: int, s: int, e: int, start: int, end: int) -> bool {
    in_window(n, c, s, e) && (s < start || (s == start && e < end))
}

/// What the scan keeps: the best window among those visited.
pub open spec fn scan_best(
    w: Map<(int, int), i32>,
    n: int,
    c: int,
    max: int,
    bs: int,
    be: int,
    bl: int,
    bd: int,
    start: int,
    end: int,
) -> bool {
    &&& bl == 0 ==> bs == c && forall|s2: int, e2: int|
        #![trigger fits(w, s2, e2, max)]
        visited(n, c, s2, e2, start, end) && s2 < e2 ==> !fits(w, s2, e2, max)
    &&& bl > 0 ==> {
        &&& bl == be - bs
        &&& bd == win_dist(c, bs, be)
        &&& visited(n, c, bs, be, start, end)
        &&& bs < be
        &&& fits(w, bs, be, max)
        &&& forall|s2: int, e2: int|
            #![trigger fits(w, s2, e2, max)]
            visited(n, c, s2, e2, start, end) && s2 < e2 && fits(w, s2, e2, max) ==> !beats(
                c,
                s2,
                e2,
                bs,
                be,
            ) && (beats(c, bs, be, s2, e2) || !lex_before(s2, e2, bs, be))
    }
}

proof fn lemma_best_unique(w: Map<(int, int), i32>, n: int, c: int, max: int, s: int, e: int, s2: int, e2: int)
    requires
        is_best_window(w, n, c, max, s, e),
        is_best_window(w, n, c, max, s2, e2),
    ensures
        s == s2 && e == e2,
{
    assert(fits(w, s2, e2, max));
    assert(fits(w, s, e, max));
}

/// The part of the rename field's text that is shown, and where it starts:
/// among the windows of the text that hold the cursor and whose `measure`d
/// width is at most `max_width`, the longest, then the one most centred on
/// the cursor, then the first; the character at the cursor when none does.
pub fn kind_edit_viewport<F: Fn(&str) -> i32>(measure: F, text: &str, cursor: usize, max_width: i32) -> (r: (String, usize))
    requires
        forall|s: &str| measure.requires((s,)),
        text@.len() < usize::MAX,
    ensures
        text@.len() == 0 ==> r.0@.len() == 0 && r.1 == 0,
        text@.len() > 0 ==> exists|w: Map<(int, int), i32>|
            #[trigger] measured(measure, text@, clamp_cursor(cursor as int, text@.len() as int), w)
                && (r.0@, r.1 as int) == viewport_shown(w, text@, cursor as int, max_width as int),
{
    let chars = crate::text::chars_of(text);
    let n = chars.len();
    if n == 0 {
        return (String::new(), 0);
    }
    let c: usize = if cursor < n {
        cursor
    } else {
        n
    };
    let ghost t = chars@;
    let ghost nn = n as int;
    let ghost cc = c as int;
    let ghost mx = max_width as int;
    let mut bs: usize = c;
    let mut be: usize = c;
    let mut bl: usize = 0;
    let mut bd: u128 = u128::MAX;
    let ghost mut w: Map<(int, int), i32> = Map::empty();
    let mut start: usize = 0;
    while start <= c
        invariant
            0 <= start <= c + 1,
            c <= n < usize::MAX,
            t == chars@,
            t.len() == n,
            nn == n,
            cc == c,
            mx == max_width,
            bl == 0 || bl as int == be - bs,
            bl > 0 ==> bd == win_dist(cc, bs as int, be as int),
            bs <= c <= be <= n,
            forall|s2: int, e2: int|
                visited(nn, cc, s2, e2, start as int, 0) ==> #[trigger] measured_at(
                    measure,
                    t,
                    w,
                    s2,
                    e2,
                ),
            scan_best(w, nn, cc, mx, bs as int, be as int, bl as int, bd as int, start as int, 0),
            forall|s: &str| measure.requires((s,)),
        decreases c + 1 - start,
    {
        let mut end: usize = c;
        proof {
            assert forall|s2: int, e2: int|
                visited(nn, cc, s2, e2, start as int, c as int) implies #[trigger] measured_at(
                measure,
                t,
                w,
                s2,
                e2,
            ) by {
                assert(visited(nn, cc, s2, e2, start as int, 0));
            }
            assert forall|s2: int, e2: int| visited(nn, cc, s2, e2, start as int, c as int) <==> visited(
                nn,
                cc,
                s2,
                e2,
                start as int,
                0,
            ) by {}
        }
        while end <= n
            invariant
                0 <= start <= c,
                c <= end <= n + 1,
                c <= n < usize::MAX,
                t == chars@,
                t.len() == n,
                nn == n,
                cc == c,
                mx == max_width,
                bl == 0 || bl as int == be - bs,
                bl > 0 ==> bd == win_dist(cc, bs as int, be as int),
                bs <= c <= be <= n,
                forall|s2: int, e2: int|
                    visited(nn, cc, s2, e2, start as int, end as int) ==> #[trigger] measured_at(
                        measure,
                        t,
                        w,
                        s2,
                        e2,
                    ),
                scan_best(w, nn, cc, mx, bs as int, be as int, bl as int, bd as int, start as int, end as int),
                forall|s: &str| measure.requires((s,)),
            decreases n + 1 - end,
        {
            let piece = crate::editing::slice_chars(&chars, start, end);
            let slice = string_from_chars(&piece);
            let sref: &str = slice.as_str();
            let width = measure(sref);
            let ghost old_w = w;
            proof {
                w = w.insert((start as int, end as int), width);
                assert forall|s2: int, e2: int|
                    visited(nn, cc, s2, e2, start as int, end + 1) implies #[trigger] measured_at(
                    measure,
                    t,
                    w,
                    s2,
                    e2,
                ) by {
                    if s2 == start && e2 == end {
                        assert(sref@ == t.subrange(s2, e2));
                        assert(measure.ensures((sref,), w[(s2, e2)]));
                    } else {
                        assert(measured_at(measure, t, old_w, s2, e2));
                        assert(old_w[(s2, e2)] == w[(s2, e2)]);
                    }
                }
            }
            let len: usize = end - start;
            let two_c: u128 = 2 * (c as u128);
            let sum: u128 = (start as u128) + (end as u128);
            let dist: u128 = if two_c >= sum {
                two_c - sum
            } else {
                sum - two_c
            };
            let ghost (obs, obe, obl, obd) = (bs as int, be as int, bl as int, bd as int);
            if width <= max_width && (len > bl || (len == bl && dist < bd)) {
                bs = start;
                be = end;
                bl = len;
                bd = dist;
            }
            proof {
                let s0 = start as int;
                let e0 = end as int;
                assert(fits(w, s0, e0, mx) == (width <= max_width));
                assert forall|s2: int, e2: int|
                    #![trigger fits(w, s2, e2, mx)]
                    visited(nn, cc, s2, e2, s0, e0) implies fits(w, s2, e2, mx) == fits(
                        old_w,
                        s2,
                        e2,
                        mx,
                    ) by {
                    assert(w[(s2, e2)] == old_w[(s2, e2)]);
                }
                assert(scan_best(w, nn, cc, mx, bs as int, be as int, bl as int, bd as int, s0, e0 + 1)) by {
                    if bl > 0 {
                        assert forall|s2: int, e2: int|
                            #![trigger fits(w, s2, e2, mx)]
                            visited(nn, cc, s2, e2, s0, e0 + 1) && s2 < e2 && fits(w, s2, e2, mx)
                            implies !beats(cc, s2, e2, bs as int, be as int) && (beats(
                            cc,
                            bs as int,
                            be as int,
                            s2,
                            e2,
                        ) || !lex_before(s2, e2, bs as int, be as int)) by {
                            if s2 == s0 && e2 == e0 {
                            } else {
                                assert(visited(nn, cc, s2, e2, s0, e0));
                                assert(fits(old_w, s2, e2, mx));
                            }
                        }
                    }
                }
            }
            end = end + 1;
        }
        proof {
            assert forall|s2: int, e2: int|
                visited(nn, cc, s2, e2, start + 1, 0) implies #[trigger] measured_at(
                measure,
                t,
                w,
                s2,
                e2,
            ) by {
                assert(visited(nn, cc, s2, e2, start as int, end as int));
            }
            assert forall|s2: int, e2: int| visited(nn, cc, s2, e2, start as int, end as int) <==> visited(
                nn,
                cc,
                s2,
                e2,
                start + 1,
                0,
            ) by {}
        }
        start = start + 1;
    }
    if bl == 0 {
        be = if bs + 1 < n {
            bs + 1
        } else {
            n
        };
    }
    let piece = crate::editing::slice_chars(&chars, bs, be);
    let visible = string_from_chars(&piece);
    let ghost win = (bs as int, be as int);
    proof {
        assert forall|s2: int, e2: int| in_window(nn, cc, s2, e2) <==> visited(
            nn,
            cc,
            s2,
            e2,
            cc + 1,
            0,
        ) by {}
        assert forall|s: int, e: int| in_window(nn, cc, s, e) implies #[trigger] measured_at(
            measure,
            t,
            w,
            s,
            e,
        ) by {
            assert(visited(nn, cc, s, e, cc + 1, 0));
        }
        assert(measured(measure, t, cc, w));
        if bl > 0 {
            assert(is_best_window(w, nn, cc, mx, bs as int, be as int));
            let (s1, e1) = choose|s: int, e: int| is_best_window(w, nn, cc, mx, s, e);
            lemma_best_unique(w, nn, cc, mx, s1, e1, bs as int, be as int);
        } else {
            assert forall|s: int, e: int| !is_best_window(w, nn, cc, mx, s, e) by {
                if is_best_window(w, nn, cc, mx, s, e) {
                    assert(fits(w, s, e, mx));
                    assert(visited(nn, cc, s, e, cc + 1, 0));
                }
            }
        }
        assert(viewport_window(w, nn, cc, mx) == win);
        assert(clamp_cursor(cursor as int, nn) == cc);
        assert(visible@ =~= t.subrange(win.0, win.1));
        assert((visible@, bs as int) == viewport_shown(w, text@, cursor as int, mx));
        assert(measured(measure, text@, clamp_cursor(cursor as int, text@.len() as int), w));
    }
    (visible, bs)
}

} // verus!
