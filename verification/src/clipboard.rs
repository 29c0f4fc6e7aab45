//! What the clipboard watcher keeps: secret and oversized copies are
//! skipped, as are copies the bar itself just made.
use vstd::prelude::*;

use crate::config::Config;
use crate::hash::{clip_digest, content_hash};
use crate::text::{
    chars_of, contains_seq, lowercase, make_preview, preview_of, push_str, str_contains,
    str_eq, str_starts_with, starts_with_seq, string_from_chars, to_lowercase, trim, trimmed,
};

verus! {

/// Number of MIME-type hints that mark a copy as secret.
pub const SECRET_HINT_COUNT: usize = 4;

/// Secret hint `i`.
pub open spec fn secret_hint(i: int) -> Seq<char> {
    if i == 0 {
        "x-kde-passwordmanagerhint"@
    } else if i == 1 {
        "x-nm-origin"@
    } else if i == 2 {
        "text/secret"@
    } else {
        "application/x-keepassxc"@
    }
}

/// Secret hint `i`.
pub fn secret_hint_at(i: usize) -> (r: &'static str)
    requires
        i < SECRET_HINT_COUNT,
    ensures
        r@ == secret_hint(i as int),
{
    if i == 0 {
        "x-kde-passwordmanagerhint"
    } else if i == 1 {
        "x-nm-origin"
    } else if i == 2 {
        "text/secret"
    } else {
        "application/x-keepassxc"
    }
}

/// Whether one of the offered MIME types, in lowercase, contains a secret hint.
pub open spec fn looks_secret_spec(types: Seq<Seq<char>>) -> bool {
    exists|i: int, j: int|
        0 <= i < types.len() && 0 <= j < SECRET_HINT_COUNT && contains_seq(
            lowercase(#[trigger] types[i]),
            #[trigger] secret_hint(j),
        )
}

/// The views of a sequence of strings.
pub open spec fn string_seq(s: Seq<String>) -> Seq<Seq<char>> {
    s.map_values(|x: String| x@)
}

/// Whether the offered MIME types mark the copy as secret.
pub fn looks_secret(types: &Vec<String>) -> (r: bool)
    ensures
        r == looks_secret_spec(string_seq(types@)),
{
    let ghost ts = string_seq(types@);
    let mut i: usize = 0;
    while i < types.len()
        invariant
            0 <= i <= types@.len(),
            ts == string_seq(types@),
            forall|a: int, b: int|
                0 <= a < i && 0 <= b < SECRET_HINT_COUNT ==> !contains_seq(
                    lowercase(#[trigger] ts[a]),
                    #[trigger] secret_hint(b),
                ),
        decreases types@.len() - i,
    {
        let lower = to_lowercase(types[i].as_str());
        let mut j: usize = 0;
        while j < SECRET_HINT_COUNT
            invariant
                0 <= i < types@.len(),
                0 <= j <= SECRET_HINT_COUNT,
                ts == string_seq(types@),
                lower@ == lowercase(ts[i as int]),
                forall|b: int| 0 <= b < j ==> !contains_seq(lower@, #[trigger] secret_hint(b)),
            decreases SECRET_HINT_COUNT - j,
        {
            if str_contains(lower.as_str(), secret_hint_at(j)) {
                assert(contains_seq(lowercase(ts[i as int]), secret_hint(j as int)));
                return true;
            }
            j = j + 1;
        }
        i = i + 1;
    }
    false
}

/// The first offered type that is an image type, if any.
pub open spec fn first_image_spec(types: Seq<Seq<char>>) -> Option<int> {
    if exists|i: int| 0 <= i < types.len() && starts_with_seq(#[trigger] types[i], "image/"@) {
        Some(
            choose|i: int|
                0 <= i < types.len() && starts_with_seq(#[trigger] types[i], "image/"@) && forall|
                    j: int,
                |
                    0 <= j < i ==> !starts_with_seq(#[trigger] types[j], "image/"@),
        )
    } else {
        None
    }
}

/// The first offered MIME type that starts with `image/`.
pub fn first_image_mime(types: &Vec<String>) -> (r: Option<&str>)
    ensures
        match first_image_spec(string_seq(types@)) {
            Some(i) => r matches Some(s) && s@ == types@[i]@,
            None => r is None,
        },
{
    let ghost ts = string_seq(types@);
    let mut i: usize = 0;
    while i < types.len()
        invariant
            0 <= i <= types@.len(),
            ts == string_seq(types@),
            forall|j: int| 0 <= j < i ==> !starts_with_seq(#[trigger] ts[j], "image/"@),
        decreases types@.len() - i,
    {
        if str_starts_with(types[i].as_str(), "image/") {
            proof {
                assert(starts_with_seq(ts[i as int], "image/"@));
                let c = choose|c: int|
                    0 <= c < ts.len() && starts_with_seq(#[trigger] ts[c], "image/"@) && forall|
                        j: int,
                    |
                        0 <= j < c ==> !starts_with_seq(#[trigger] ts[j], "image/"@);
                assert(c == i) by {
                    if c > i {
                        assert(starts_with_seq(ts[i as int], "image/"@));
                    }
                }
            }
            return Some(types[i].as_str());
        }
        i = i + 1;
    }
    None
}

/// The pieces of `s` between newlines (a trailing piece counts, even empty).
pub open spec fn split_lines(s: Seq<char>) -> Seq<Seq<char>>
    decreases s.len(),
{
    if s.len() == 0 {
        seq![Seq::<char>::empty()]
    } else {
        let p = split_lines(s.drop_last());
        if s.last() == '\n' {
            p.push(Seq::<char>::empty())
        } else {
            p.update(p.len() - 1, p.last().push(s.last()))
        }
    }
}

/// The trimmed pieces that are not blank, in order.
pub open spec fn nonblank_trimmed(pieces: Seq<Seq<char>>) -> Seq<Seq<char>>
    decreases pieces.len(),
{
    if pieces.len() == 0 {
        Seq::<Seq<char>>::empty()
    } else if trimmed(pieces.last()).len() > 0 {
        nonblank_trimmed(pieces.drop_last()).push(trimmed(pieces.last()))
    } else {
        nonblank_trimmed(pieces.drop_last())
    }
}

proof fn lemma_split_lines_nonempty(s: Seq<char>)
    ensures
        split_lines(s).len() >= 1,
    decreases s.len(),
{
    if s.len() > 0 {
        lemma_split_lines_nonempty(s.drop_last());
    }
}

/// The MIME types `wl-paste --list-types` printed: each line trimmed, blank
/// lines dropped.
pub fn parse_mime_list(stdout: &str) -> (r: Vec<String>)
    ensures
        string_seq(r@) == nonblank_trimmed(split_lines(stdout@)),
{
    let chars = chars_of(stdout);
    let ghost s = chars@;
    let mut out: Vec<String> = Vec::new();
    let mut cur: Vec<char> = Vec::new();
    let mut i: usize = 0;
    while i < chars.len()
        invariant
            0 <= i <= s.len(),
            s == chars@,
            split_lines(s.take(i as int)).len() >= 1,
            cur@ == split_lines(s.take(i as int)).last(),
            string_seq(out@) == nonblank_trimmed(split_lines(s.take(i as int)).drop_last()),
        decreases s.len() - i,
    {
        let ghost p = split_lines(s.take(i as int));
        proof {
            assert(s.take(i + 1).drop_last() =~= s.take(i as int));
            assert(s.take(i + 1).last() == s[i as int]);
        }
        if chars[i] == '\n' {
            let piece = trim(string_from_chars(&cur).as_str());
            let ghost old_out = string_seq(out@);
            if !piece.as_str().is_empty() {
                out.push(piece);
                assert(string_seq(out@) =~= old_out.push(trimmed(cur@)));
            }
            cur = Vec::new();
            proof {
                assert(p.push(Seq::<char>::empty()).drop_last() =~= p);
                assert(p.drop_last().push(p.last()) =~= p);
            }
        } else {
            cur.push(chars[i]);
            proof {
                let q = p.update(p.len() - 1, p.last().push(s[i as int]));
                assert(q.drop_last() =~= p.drop_last());
            }
        }
        i = i + 1;
    }
    let piece = trim(string_from_chars(&cur).as_str());
    let ghost old_out = string_seq(out@);
    let ghost p = split_lines(s);
    proof {
        assert(s.take(s.len() as int) =~= s);
        assert(p.drop_last().push(p.last()) =~= p);
    }
    if !piece.as_str().is_empty() {
        out.push(piece);
        assert(string_seq(out@) =~= old_out.push(trimmed(cur@)));
    }
    out
}

/// A copy the bar itself made: its hash, and until when (in monotonic
/// microseconds) copies with that hash are ignored.
pub open spec fn ignored(digest: Seq<char>, ignore: Option<(Seq<char>, i64)>, now: int) -> bool {
    ignore matches Some(p) && p.0 == digest && now < p.1
}

/// The ignore slot as values.
pub open spec fn ignore_view(ignore: Option<(String, i64)>) -> Option<(Seq<char>, i64)> {
    match ignore {
        Some(p) => Some((p.0@, p.1)),
        None => None,
    }
}

/// Whether a clipboard change seen at `now` falls in the hold after the bar
/// set the clipboard itself (`until`: when the hold ends); such a change is
/// not captured at all.
pub fn capture_held(now: i64, until: i64) -> (r: bool)
    ensures
        r == (now < until),
{
    now < until
}

/// Whether a copy with hash `digest` is one the bar itself just made.
pub fn should_ignore(digest: &str, ignore: &Option<(String, i64)>, now: i64) -> (r: bool)
    ensures
        r == ignored(digest@, ignore_view(*ignore), now as int),
{
    match ignore {
        Some((h, until)) => str_eq(h.as_str(), digest) && now < *until,
        None => false,
    }
}

/// What `String::from_utf8_lossy` makes of `bytes`.
pub uninterp spec fn lossy_utf8(bytes: Seq<u8>) -> Seq<char>;

/// Calls `String::from_utf8_lossy` (invalid sequences become U+FFFD); the
/// result is named by `lossy_utf8`.
#[verifier::external_body]
fn decode_lossy(bytes: &[u8]) -> (r: String)
    ensures
        r@ == lossy_utf8(bytes@),
{
    String::from_utf8_lossy(bytes).into_owned()
}

/// What the watcher does with a copy.
#[derive(Debug)]
pub enum Capture {
    /// Nothing: secret, empty, too large, blank text, or the bar's own copy.
    Skip,
    /// Store the image, its bytes in the file of this name.
    Image(String),
    /// Store the text, with this preview.
    Text(String, String),
}

/// A capture as values.
pub enum CaptureView {
    Skip,
    Image(Seq<char>),
    Text(Seq<char>, Seq<char>),
}

impl View for Capture {
    type V = CaptureView;

    open spec fn view(&self) -> CaptureView {
        match self {
            Capture::Skip => CaptureView::Skip,
            Capture::Image(n) => CaptureView::Image(n@),
            Capture::Text(t, p) => CaptureView::Text(t@, p@),
        }
    }
}

/// What the watcher does with a copy of `payload` as `mime`, seen by the
/// watcher labelled `label`, offered with `types`, at monotonic time `now`.
pub open spec fn capture_spec(
    ignore_secrets: bool,
    max_bytes: int,
    label: Seq<char>,
    types: Seq<Seq<char>>,
    mime: Seq<char>,
    payload: Seq<u8>,
    ignore: Option<(Seq<char>, i64)>,
    now: int,
) -> CaptureView {
    if ignore_secrets && looks_secret_spec(types) {
        CaptureView::Skip
    } else if payload.len() == 0 || payload.len() > max_bytes {
        CaptureView::Skip
    } else if starts_with_seq(label, "image"@) {
        let d = clip_digest("image"@, mime, payload);
        if ignored(d, ignore, now) {
            CaptureView::Skip
        } else {
            CaptureView::Image(d + ".bin"@)
        }
    } else {
        let text = lossy_utf8(payload);
        let d = clip_digest("text"@, "text/plain"@, payload);
        if trimmed(text).len() == 0 || ignored(d, ignore, now) {
            CaptureView::Skip
        } else {
            CaptureView::Text(text, preview_of(text, 280))
        }
    }
}

/// What the watcher does with a copy.
pub fn capture_decision(
    config: &Config,
    label: &str,
    types: &Vec<String>,
    mime: &str,
    payload: &[u8],
    ignore: &Option<(String, i64)>,
    now: i64,
) -> (r: Capture)
    ensures
        r@ == capture_spec(
            config.ignore_secrets,
            config.max_bytes as int,
            label@,
            string_seq(types@),
            mime@,
            payload@,
            ignore_view(*ignore),
            now as int,
        ),
{
    if config.ignore_secrets && looks_secret(types) {
        return Capture::Skip;
    }
    if payload.len() == 0 || (payload.len() as i128) > (config.max_bytes as i128) {
        return Capture::Skip;
    }
    if str_starts_with(label, "image") {
        let digest = content_hash("image", mime, payload);
        if should_ignore(digest.as_str(), ignore, now) {
            return Capture::Skip;
        }
        let mut name: Vec<char> = Vec::new();
        push_str(&mut name, digest.as_str());
        push_str(&mut name, ".bin");
        return Capture::Image(string_from_chars(&name));
    }
    let text = decode_lossy(payload);
    if trim(text.as_str()).as_str().is_empty() {
        return Capture::Skip;
    }
    let digest = content_hash("text", "text/plain", payload);
    if should_ignore(digest.as_str(), ignore, now) {
        return Capture::Skip;
    }
    let preview = make_preview(text.as_str(), 280);
    Capture::Text(text, preview)
}

/// Secret copies are never kept while secrets are ignored, and nothing
/// larger than the byte cap or empty is ever kept.
pub proof fn law_secrets_and_oversize_are_skipped(
    ignore_secrets: bool,
    max_bytes: int,
    label: Seq<char>,
    types: Seq<Seq<char>>,
    mime: Seq<char>,
    payload: Seq<u8>,
    ignore: Option<(Seq<char>, i64)>,
    now: int,
)
    requires
        (ignore_secrets && looks_secret_spec(types)) || payload.len() == 0 || payload.len()
            > max_bytes,
    ensures
        capture_spec(ignore_secrets, max_bytes, label, types, mime, payload, ignore, now) is Skip,
{
}

/// The hash the bar hands to the watcher when it copies a clip of `kind`
/// (its bytes `payload`, its MIME type `mime`): the hash under which the
/// watcher will see that copy come back.
pub open spec fn copy_digest_spec(kind: Seq<char>, mime: Seq<char>, payload: Seq<u8>) -> Seq<char> {
    if kind == "image"@ {
        clip_digest("image"@, mime, payload)
    } else {
        clip_digest("text"@, "text/plain"@, payload)
    }
}

/// The hash of the bar's own copy of a clip of `kind`, to be ignored when
/// the watcher sees it.
pub fn copy_digest(kind: &str, mime: &str, payload: &[u8]) -> (r: String)
    ensures
        r@ == copy_digest_spec(kind@, mime@, payload@),
{
    if str_eq(kind, "image") {
        content_hash("image", mime, payload)
    } else {
        content_hash("text", "text/plain", payload)
    }
}

/// The bar's own copy is not captured again: while its hash is held (before
/// `until`), the watcher that sees the copy (an image watcher for an image,
/// the text watcher for text; the image under the same MIME type) skips it.
pub proof fn law_own_copy_is_ignored(
    ignore_secrets: bool,
    max_bytes: int,
    kind: Seq<char>,
    label: Seq<char>,
    types: Seq<Seq<char>>,
    mime: Seq<char>,
    payload: Seq<u8>,
    until: i64,
    now: int,
)
    requires
        kind == "image"@ <==> starts_with_seq(label, "image"@),
        now < until,
    ensures
        capture_spec(
            ignore_secrets,
            max_bytes,
            label,
            types,
            mime,
            payload,
            Some((copy_digest_spec(kind, mime, payload), until)),
            now,
        ) is Skip,
{
}

} // verus!
