//! Character-level text helpers used by the history, search and editing code.
//!
//! Strings are reasoned about through their views, sequences of `char`s.
//! Whitespace follows Unicode's `White_Space` property, the same set that
//! `char::is_whitespace`, `str::trim` and `str::split_whitespace` use.
use vstd::prelude::*;
use vstd::utf8::encode_utf8;

verus! {

/// Unicode `White_Space`.
pub open spec fn is_space(c: char) -> bool {
    let u = c as u32;
    ||| 0x9 <= u <= 0xD
    ||| u == 0x20
    ||| u == 0x85
    ||| u == 0xA0
    ||| u == 0x1680
    ||| 0x2000 <= u <= 0x200A
    ||| u == 0x2028
    ||| u == 0x2029
    ||| u == 0x202F
    ||| u == 0x205F
    ||| u == 0x3000
}

/// Unicode general category `Cc` (control characters).
pub open spec fn is_control(c: char) -> bool {
    let u = c as u32;
    u <= 0x1F || (0x7F <= u <= 0x9F)
}

/// Whether `c` is whitespace, as `char::is_whitespace` decides it.
pub fn is_space_char(c: char) -> (b: bool)
    ensures
        b == is_space(c),
{
    let u = c as u32;
    (0x9 <= u && u <= 0xD) || u == 0x20 || u == 0x85 || u == 0xA0 || u == 0x1680 || (0x2000 <= u
        && u <= 0x200A) || u == 0x2028 || u == 0x2029 || u == 0x202F || u == 0x205F || u == 0x3000
}

/// Whether `c` is a control character, as `char::is_control` decides it.
pub fn is_control_char(c: char) -> (b: bool)
    ensures
        b == is_control(c),
{
    let u = c as u32;
    u <= 0x1F || (0x7F <= u && u <= 0x9F)
}

/// The characters of `s`, in order.
pub fn chars_of(s: &str) -> (out: Vec<char>)
    ensures
        out@ == s@,
{
    let mut out: Vec<char> = Vec::new();
    for c in it: s.chars()
        invariant
            out@ == it.seq().take(it.index() as int),
            it.seq() == s@,
    {
        out.push(c);
    }
    out
}

/// Collects characters into a `String` (std's `FromIterator<char>` for `String`).
#[verifier::external_body]
pub(crate) fn string_from_chars(chars: &[char]) -> (s: String)
    ensures
        s@ == chars@,
{
    chars.iter().collect()
}

/// What `str::to_lowercase` returns for a string with the given characters.
pub uninterp spec fn lowercase(s: Seq<char>) -> Seq<char>;

/// Calls `str::to_lowercase`; the result is named by `lowercase`.
#[verifier::external_body]
pub(crate) fn to_lowercase(s: &str) -> (r: String)
    ensures
        r@ == lowercase(s@),
{
    s.to_lowercase()
}

/// Equality of two strings by their characters.
pub fn str_eq(a: &str, b: &str) -> (r: bool)
    ensures
        r == (a@ == b@),
{
    let x = chars_of(a);
    let y = chars_of(b);
    chars_eq(&x, &y)
}

/// Equality of two character sequences.
pub fn chars_eq(x: &[char], y: &[char]) -> (r: bool)
    ensures
        r == (x@ == y@),
{
    if x.len() != y.len() {
        return false;
    }
    let mut i: usize = 0;
    while i < x.len()
        invariant
            x@.len() == y@.len(),
            0 <= i <= x@.len(),
            forall|k: int| 0 <= k < i ==> x@[k] == y@[k],
        decreases x@.len() - i,
    {
        if x[i] != y[i] {
            return false;
        }
        i = i + 1;
    }
    assert(x@ =~= y@);
    true
}

/// Whether `needle` occurs in `hay` starting at index `i`.
pub open spec fn occurs_at(hay: Seq<char>, needle: Seq<char>, i: int) -> bool {
    0 <= i && i + needle.len() <= hay.len() && hay.subrange(i, i + needle.len()) == needle
}

/// Whether `needle` occurs anywhere in `hay` (the empty needle occurs everywhere).
pub open spec fn contains_seq(hay: Seq<char>, needle: Seq<char>) -> bool {
    exists|i: int| #[trigger] occurs_at(hay, needle, i)
}

/// Whether `needle` is a prefix of `hay`.
pub open spec fn starts_with_seq(hay: Seq<char>, needle: Seq<char>) -> bool {
    needle.len() <= hay.len() && hay.subrange(0, needle.len() as int) == needle
}

fn occurs_at_exec(hay: &[char], needle: &[char], i: usize) -> (r: bool)
    requires
        i + needle@.len() <= hay@.len(),
    ensures
        r == occurs_at(hay@, needle@, i as int),
{
    let n = hay.len();
    let mut k: usize = 0;
    while k < needle.len()
        invariant
            n == hay@.len(),
            i + needle@.len() <= hay@.len(),
            0 <= k <= needle@.len(),
            forall|m: int| 0 <= m < k ==> hay@[i + m] == needle@[m],
        decreases needle@.len() - k,
    {
        if hay[i + k] != needle[k] {
            assert(hay@.subrange(i as int, i + needle@.len())[k as int] != needle@[k as int]);
            return false;
        }
        k = k + 1;
    }
    assert(hay@.subrange(i as int, i + needle@.len()) =~= needle@);
    true
}

/// Whether `needle` occurs in `hay`, as `str::contains` decides it.
pub fn contains_chars(hay: &[char], needle: &[char]) -> (r: bool)
    ensures
        r == contains_seq(hay@, needle@),
{
    if needle.len() > hay.len() {
        assert forall|i: int| !occurs_at(hay@, needle@, i) by {}
        return false;
    }
    let last = hay.len() - needle.len();
    let mut i: usize = 0;
    loop
        invariant
            last + needle@.len() == hay@.len(),
            0 <= i <= last,
            forall|j: int| 0 <= j < i ==> !occurs_at(hay@, needle@, j),
        ensures
            forall|j: int| 0 <= j <= last ==> !occurs_at(hay@, needle@, j),
        decreases last - i,
    {
        if occurs_at_exec(hay, needle, i) {
            return true;
        }
        if i == last {
            break;
        }
        i = i + 1;
    }
    assert forall|j: int| !occurs_at(hay@, needle@, j) by {
        if 0 <= j <= last {
        }
    }
    false
}

/// Whether `prefix` starts `s`, as `str::starts_with` decides it.
pub fn starts_with_chars(s: &[char], prefix: &[char]) -> (r: bool)
    ensures
        r == starts_with_seq(s@, prefix@),
{
    if prefix.len() > s.len() {
        return false;
    }
    let r = occurs_at_exec(s, prefix, 0);
    assert(r == occurs_at(s@, prefix@, 0));
    r
}

/// Whether `needle` occurs in `hay`.
pub fn str_contains(hay: &str, needle: &str) -> (r: bool)
    ensures
        r == contains_seq(hay@, needle@),
{
    let h = chars_of(hay);
    let n = chars_of(needle);
    contains_chars(&h, &n)
}

/// Whether `s` starts with `prefix`.
pub fn str_starts_with(s: &str, prefix: &str) -> (r: bool)
    ensures
        r == starts_with_seq(s@, prefix@),
{
    let a = chars_of(s);
    let p = chars_of(prefix);
    starts_with_chars(&a, &p)
}

/// Where the text of `s` begins once leading whitespace is skipped.
pub open spec fn is_trim_start(s: Seq<char>, i: int) -> bool {
    &&& 0 <= i <= s.len()
    &&& forall|k: int| 0 <= k < i ==> is_space(#[trigger] s[k])
    &&& (i == s.len() || !is_space(s[i]))
}

/// Where the text of `s` ends once trailing whitespace is dropped, given its start `i`.
pub open spec fn is_trim_end(s: Seq<char>, i: int, j: int) -> bool {
    &&& i <= j <= s.len()
    &&& forall|k: int| j <= k < s.len() ==> is_space(#[trigger] s[k])
    &&& (j == i || !is_space(s[j - 1]))
}

pub open spec fn trim_start_index(s: Seq<char>) -> int {
    choose|i: int| is_trim_start(s, i)
}

pub open spec fn trim_end_index(s: Seq<char>) -> int {
    choose|j: int| is_trim_end(s, trim_start_index(s), j)
}

/// `s` without leading and trailing whitespace (`str::trim`).
pub open spec fn trimmed(s: Seq<char>) -> Seq<char> {
    s.subrange(trim_start_index(s), trim_end_index(s))
}

proof fn lemma_trim_start_unique(s: Seq<char>, i: int)
    requires
        is_trim_start(s, i),
    ensures
        trim_start_index(s) == i,
{
    let c = trim_start_index(s);
    assert(is_trim_start(s, c));
    if c < i {
        assert(is_space(s[c]));
    } else if c > i {
        assert(is_space(s[i]));
    }
}

proof fn lemma_trim_end_unique(s: Seq<char>, i: int, j: int)
    requires
        is_trim_start(s, i),
        is_trim_end(s, i, j),
    ensures
        trim_start_index(s) == i,
        trim_end_index(s) == j,
{
    lemma_trim_start_unique(s, i);
    let c = trim_end_index(s);
    assert(is_trim_end(s, i, c));
    if c < j {
        assert(is_space(s[j - 1]));
    } else if c > j {
        assert(is_space(s[c - 1]));
    }
}

/// The characters of `s` without leading and trailing whitespace.
pub fn trim_chars(s: &[char]) -> (out: Vec<char>)
    ensures
        out@ == trimmed(s@),
{
    let mut i: usize = 0;
    while i < s.len() && is_space_char(s[i])
        invariant
            0 <= i <= s@.len(),
            forall|k: int| 0 <= k < i ==> is_space(#[trigger] s@[k]),
        decreases s@.len() - i,
    {
        i = i + 1;
    }
    let mut j: usize = s.len();
    while j > i && is_space_char(s[j - 1])
        invariant
            i <= j <= s@.len(),
            forall|k: int| j <= k < s@.len() ==> is_space(#[trigger] s@[k]),
        decreases j,
    {
        j = j - 1;
    }
    proof {
        lemma_trim_end_unique(s@, i as int, j as int);
    }
    let mut out: Vec<char> = Vec::new();
    let mut k: usize = i;
    while k < j
        invariant
            i <= k <= j <= s@.len(),
            out@ == s@.subrange(i as int, k as int),
        decreases j - k,
    {
        out.push(s[k]);
        assert(out@ =~= s@.subrange(i as int, k + 1));
        k = k + 1;
    }
    out
}

/// `s` without leading and trailing whitespace (`str::trim`).
pub fn trim(s: &str) -> (out: String)
    ensures
        out@ == trimmed(s@),
{
    let v = chars_of(s);
    let t = trim_chars(&v);
    string_from_chars(&t)
}

/// Reads `s` left to right, keeping its non-whitespace runs and one space
/// between consecutive runs; the flag says whether a space is owed before the
/// next run.
pub open spec fn collapse_scan(s: Seq<char>) -> (Seq<char>, bool)
    decreases s.len(),
{
    if s.len() == 0 {
        (Seq::<char>::empty(), false)
    } else {
        let prev = collapse_scan(s.drop_last());
        let c = s.last();
        if is_space(c) {
            (prev.0, prev.0.len() > 0)
        } else if prev.1 {
            (prev.0.push(' ').push(c), false)
        } else {
            (prev.0.push(c), false)
        }
    }
}

/// `s.split_whitespace()` joined with single spaces.
pub open spec fn collapse_ws(s: Seq<char>) -> Seq<char> {
    collapse_scan(s).0
}

/// The whitespace-separated words of `s` joined by single spaces.
pub fn collapse_whitespace(s: &[char]) -> (out: Vec<char>)
    ensures
        out@ == collapse_ws(s@),
{
    let mut out: Vec<char> = Vec::new();
    let mut gap = false;
    let mut i: usize = 0;
    while i < s.len()
        invariant
            0 <= i <= s@.len(),
            (out@, gap) == collapse_scan(s@.take(i as int)),
        decreases s@.len() - i,
    {
        let c = s[i];
        assert(s@.take(i + 1).drop_last() =~= s@.take(i as int));
        if is_space_char(c) {
            gap = out.len() > 0;
        } else {
            if gap {
                out.push(' ');
            }
            out.push(c);
            gap = false;
        }
        i = i + 1;
    }
    assert(s@.take(s@.len() as int) =~= s@);
    out
}

/// The ellipsis that ends a shortened preview.
pub open spec fn ellipsis() -> char {
    '\u{2026}'
}

/// The preview of `text` for a byte budget of `limit`: the collapsed text when
/// its UTF-8 encoding fits, else its first `limit - 1` characters (saturating)
/// followed by an ellipsis.
pub open spec fn preview_of(text: Seq<char>, limit: nat) -> Seq<char> {
    let c = collapse_ws(text);
    if encode_utf8(c).len() <= limit {
        c
    } else {
        let keep: int = if limit == 0 {
            0
        } else {
            limit - 1
        };
        let n: int = if keep < c.len() {
            keep
        } else {
            c.len() as int
        };
        c.take(n).push(ellipsis())
    }
}

/// A preview holds at most `limit` characters (one, the ellipsis, for a
/// limit of 0).
pub proof fn lemma_preview_len(text: Seq<char>, limit: nat)
    ensures
        preview_of(text, limit).len() <= if limit == 0 {
            1
        } else {
            limit as int
        },
{
    lemma_encode_utf8_len(collapse_ws(text));
}

/// Bytes that UTF-8 spends on `c`.
pub open spec fn char_utf8_len(c: char) -> nat {
    let u = c as u32;
    if u <= 0x7F {
        1
    } else if u <= 0x7FF {
        2
    } else if u <= 0xFFFF {
        3
    } else {
        4
    }
}

/// Bytes that UTF-8 spends on `s`.
pub open spec fn utf8_len(s: Seq<char>) -> nat
    decreases s.len(),
{
    if s.len() == 0 {
        0
    } else {
        char_utf8_len(s[0]) + utf8_len(s.drop_first())
    }
}

pub proof fn lemma_encode_utf8_len(s: Seq<char>)
    ensures
        encode_utf8(s).len() == utf8_len(s),
        utf8_len(s) >= s.len(),
    decreases s.len(),
{
    if s.len() > 0 {
        lemma_encode_utf8_len(s.drop_first());
        vstd::utf8::char_is_scalar(s[0]);
    }
}

pub proof fn lemma_utf8_len_concat(a: Seq<char>, b: Seq<char>)
    ensures
        utf8_len(a + b) == utf8_len(a) + utf8_len(b),
    decreases a.len(),
{
    if a.len() > 0 {
        assert((a + b).drop_first() =~= a.drop_first() + b);
        lemma_utf8_len_concat(a.drop_first(), b);
    } else {
        assert(a + b =~= b);
    }
}

pub fn char_utf8_width(c: char) -> (w: usize)
    ensures
        w == char_utf8_len(c),
{
    let u = c as u32;
    if u <= 0x7F {
        1
    } else if u <= 0x7FF {
        2
    } else if u <= 0xFFFF {
        3
    } else {
        4
    }
}

/// Whether the UTF-8 encoding of `s` takes at most `limit` bytes.
pub fn fits_utf8_budget(s: &[char], limit: usize) -> (b: bool)
    ensures
        b == (encode_utf8(s@).len() <= limit),
{
    proof {
        lemma_encode_utf8_len(s@);
    }
    let mut acc: usize = 0;
    let mut i: usize = 0;
    while i < s.len()
        invariant
            0 <= i <= s@.len(),
            acc == utf8_len(s@.take(i as int)),
            acc <= limit,
            encode_utf8(s@).len() == utf8_len(s@),
        decreases s@.len() - i,
    {
        let w = char_utf8_width(s[i]);
        proof {
            assert(s@.take(i + 1) =~= s@.take(i as int) + seq![s@[i as int]]);
            lemma_utf8_len_concat(s@.take(i as int), seq![s@[i as int]]);
            assert(seq![s@[i as int]].drop_first() =~= Seq::<char>::empty());
            assert(utf8_len(seq![s@[i as int]]) == char_utf8_len(s@[i as int]) + utf8_len(
                Seq::<char>::empty(),
            ));
            assert(utf8_len(s@.take(i + 1)) == acc + w);
            assert(s@ =~= s@.take(i + 1) + s@.skip(i + 1));
            lemma_utf8_len_concat(s@.take(i + 1), s@.skip(i + 1));
            assert(utf8_len(s@) >= utf8_len(s@.take(i + 1)));
        }
        if w > limit - acc {
            return false;
        }
        acc = acc + w;
        i = i + 1;
    }
    assert(s@.take(s@.len() as int) =~= s@);
    true
}

/// Shortens `text` for a card or a list row: whitespace runs collapse to one
/// space, and a text whose UTF-8 encoding exceeds `limit` bytes is cut to
/// `limit - 1` characters plus an ellipsis.
pub fn make_preview(text: &str, limit: usize) -> (out: String)
    ensures
        out@ == preview_of(text@, limit as nat),
        out@.len() <= if limit == 0 {
            1
        } else {
            limit as int
        },
{
    let chars = chars_of(text);
    let collapsed = collapse_whitespace(&chars);
    proof {
        lemma_encode_utf8_len(collapsed@);
    }
    if fits_utf8_budget(&collapsed, limit) {
        return string_from_chars(&collapsed);
    }
    let keep: usize = if limit == 0 {
        0
    } else {
        limit - 1
    };
    let n: usize = if keep < collapsed.len() {
        keep
    } else {
        collapsed.len()
    };
    let mut cut: Vec<char> = Vec::new();
    let mut i: usize = 0;
    while i < n
        invariant
            n <= collapsed@.len(),
            0 <= i <= n,
            cut@ == collapsed@.take(i as int),
        decreases n - i,
    {
        cut.push(collapsed[i]);
        assert(cut@ =~= collapsed@.take(i + 1));
        i = i + 1;
    }
    cut.push('\u{2026}');
    string_from_chars(&cut)
}

/// The decimal digit for `d`.
pub open spec fn digit_char(d: nat) -> char {
    if d == 0 {
        '0'
    } else if d == 1 {
        '1'
    } else if d == 2 {
        '2'
    } else if d == 3 {
        '3'
    } else if d == 4 {
        '4'
    } else if d == 5 {
        '5'
    } else if d == 6 {
        '6'
    } else if d == 7 {
        '7'
    } else if d == 8 {
        '8'
    } else {
        '9'
    }
}

/// Decimal digits of `n`, most significant first, without leading zeros.
pub open spec fn nat_digits(n: nat) -> Seq<char>
    decreases n,
{
    if n < 10 {
        seq![digit_char(n)]
    } else {
        nat_digits(n / 10).push(digit_char(n % 10))
    }
}

/// `n` written in decimal, as `Display` writes integers.
pub open spec fn int_decimal(n: int) -> Seq<char> {
    if n < 0 {
        seq!['-'] + nat_digits((-n) as nat)
    } else {
        nat_digits(n as nat)
    }
}

fn digit_of(d: u64) -> (c: char)
    requires
        d < 10,
    ensures
        c == digit_char(d as nat),
{
    if d == 0 {
        '0'
    } else if d == 1 {
        '1'
    } else if d == 2 {
        '2'
    } else if d == 3 {
        '3'
    } else if d == 4 {
        '4'
    } else if d == 5 {
        '5'
    } else if d == 6 {
        '6'
    } else if d == 7 {
        '7'
    } else if d == 8 {
        '8'
    } else {
        '9'
    }
}

/// Appends the decimal digits of `n`.
pub fn push_digits(out: &mut Vec<char>, n: u64)
    ensures
        final(out)@ == old(out)@ + nat_digits(n as nat),
    decreases n,
{
    if n < 10 {
        out.push(digit_of(n));
    } else {
        push_digits(out, n / 10);
        out.push(digit_of(n % 10));
    }
    assert(final(out)@ =~= old(out)@ + nat_digits(n as nat));
}

/// Appends `n` in decimal.
pub fn push_decimal(out: &mut Vec<char>, n: i64)
    ensures
        final(out)@ == old(out)@ + int_decimal(n as int),
{
    if n < 0 {
        out.push('-');
        let m: u64 = if n == i64::MIN {
            9223372036854775808u64
        } else {
            (-n) as u64
        };
        push_digits(out, m);
        assert(final(out)@ =~= old(out)@ + int_decimal(n as int));
    } else {
        push_digits(out, n as u64);
    }
}

/// Appends the characters of `s`.
pub fn push_str(out: &mut Vec<char>, s: &str)
    ensures
        final(out)@ == old(out)@ + s@,
{
    let c = chars_of(s);
    let mut i: usize = 0;
    while i < c.len()
        invariant
            0 <= i <= c@.len(),
            c@ == s@,
            out@ == old(out)@ + c@.take(i as int),
        decreases c@.len() - i,
    {
        out.push(c[i]);
        assert(out@ =~= old(out)@ + c@.take(i + 1));
        i = i + 1;
    }
    assert(c@.take(c@.len() as int) =~= c@);
}

} // verus!
