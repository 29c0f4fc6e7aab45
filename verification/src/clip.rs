//! A clip of the history and how a card shows it.
use vstd::prelude::*;

use crate::keep::{keep_by_key, preset_index, preset_label};
use crate::text::{
    chars_of, contains_seq, int_decimal, lowercase, nat_digits, push_decimal, push_digits,
    push_str, str_contains, str_eq, string_from_chars, to_lowercase,
};

verus! {

/// One entry of the clipboard history, as stored.
#[derive(Clone, Debug)]
pub struct Clip {
    pub id: i64,
    pub created_at: i64,
    pub last_used_at: i64,
    pub keep_preset: String,
    pub keep_until: Option<i64>,
    pub mime: String,
    pub kind: String,
    pub text: Option<String>,
    pub preview: String,
    pub hash: String,
    pub image_path: Option<String>,
    pub byte_size: i64,
    pub custom_label: Option<String>,
}

/// The mathematical value of a clip: its strings as character sequences.
#[verifier::ext_equal]
pub struct ClipView {
    pub id: i64,
    pub created_at: i64,
    pub last_used_at: i64,
    pub keep_preset: Seq<char>,
    pub keep_until: Option<i64>,
    pub mime: Seq<char>,
    pub kind: Seq<char>,
    pub text: Option<Seq<char>>,
    pub preview: Seq<char>,
    pub hash: Seq<char>,
    pub image_path: Option<Seq<char>>,
    pub byte_size: i64,
    pub custom_label: Option<Seq<char>>,
}

/// View of an optional string.
pub open spec fn opt_view(o: Option<String>) -> Option<Seq<char>> {
    match o {
        Some(s) => Some(s@),
        None => None,
    }
}

/// View of an optional string slice.
pub open spec fn opt_str_view(o: Option<&str>) -> Option<Seq<char>> {
    match o {
        Some(s) => Some(s@),
        None => None,
    }
}

impl View for Clip {
    type V = ClipView;

    open spec fn view(&self) -> ClipView {
        ClipView {
            id: self.id,
            created_at: self.created_at,
            last_used_at: self.last_used_at,
            keep_preset: self.keep_preset@,
            keep_until: self.keep_until,
            mime: self.mime@,
            kind: self.kind@,
            text: opt_view(self.text),
            preview: self.preview@,
            hash: self.hash@,
            image_path: opt_view(self.image_path),
            byte_size: self.byte_size,
            custom_label: opt_view(self.custom_label),
        }
    }
}

/// Copies an optional string.
pub fn clone_opt(o: &Option<String>) -> (r: Option<String>)
    ensures
        opt_view(r) == opt_view(*o),
{
    match o {
        Some(s) => Some(s.clone()),
        None => None,
    }
}

/// The label shown for a keep preset key: the preset's own label, or the key
/// itself when it names no preset.
pub open spec fn keep_label_spec(key: Seq<char>) -> Seq<char> {
    match preset_index(key) {
        Some(i) => preset_label(i),
        None => key,
    }
}

/// The short form of a keep preset on a card: `∞` for forever, else the key.
pub open spec fn keep_short_spec(key: Seq<char>) -> Seq<char> {
    if key == "forever"@ {
        "\u{221e}"@
    } else {
        key
    }
}

/// `s` with every `_` replaced by a space.
pub open spec fn underscores_to_spaces(s: Seq<char>) -> Seq<char> {
    s.map_values(|c: char| if c == '_' { ' ' } else { c })
}

/// The label for a clip kind: `Image`, `Text`, or the kind with underscores
/// shown as spaces.
pub open spec fn kind_label_spec(kind: Seq<char>) -> Seq<char> {
    if kind == "image"@ {
        "Image"@
    } else if kind == "text"@ {
        "Text"@
    } else {
        underscores_to_spaces(kind)
    }
}

/// The label shown on a clip's card: its custom label when it has a non-empty
/// one, else its kind label.
pub open spec fn display_label_spec(c: ClipView) -> Seq<char> {
    match c.custom_label {
        Some(l) => if l.len() > 0 {
            l
        } else {
            kind_label_spec(c.kind)
        },
        None => kind_label_spec(c.kind),
    }
}

/// `num / den` rounded to the nearest integer, ties to even.
pub open spec fn round_half_even(num: int, den: int) -> int {
    let q = num / den;
    let r = num % den;
    if 2 * r > den || (2 * r == den && q % 2 == 1) {
        q + 1
    } else {
        q
    }
}

/// Spacing between neighbouring `f64` values around `v` (for `v < 2^64`):
/// 1 below 2^53, doubling at each further power of two.
pub open spec fn f64_spacing(v: nat) -> nat {
    if v < 0x20000000000000 {
        1
    } else if v < 0x40000000000000 {
        2
    } else if v < 0x80000000000000 {
        4
    } else if v < 0x100000000000000 {
        8
    } else if v < 0x200000000000000 {
        16
    } else if v < 0x400000000000000 {
        32
    } else if v < 0x800000000000000 {
        64
    } else if v < 0x1000000000000000 {
        128
    } else if v < 0x2000000000000000 {
        256
    } else if v < 0x4000000000000000 {
        512
    } else if v < 0x8000000000000000 {
        1024
    } else {
        2048
    }
}

/// The value `v as f64` holds: `v` rounded to the nearest `f64`, ties to even.
pub open spec fn as_f64_value(v: nat) -> int {
    let u = f64_spacing(v) as int;
    u * round_half_even(v as int, u)
}

/// `t / 10` written with one decimal.
pub open spec fn tenths_text(t: nat) -> Seq<char> {
    nat_digits(t / 10) + seq!['.'] + nat_digits(t % 10)
}

/// How a card states the size of an image of `size` bytes: bytes below 1 KiB,
/// KB with one decimal below 10 KiB and without decimals below 1 MiB, MB with
/// one decimal above (decimals rounded half to even).
pub open spec fn size_text(size: int) -> Seq<char> {
    if size < 1024 {
        int_decimal(size) + seq![' ', 'B']
    } else if size < 1048576 {
        if size < 10240 {
            tenths_text(round_half_even(size * 10, 1024) as nat) + seq![' ', 'K', 'B']
        } else {
            nat_digits(round_half_even(size, 1024) as nat) + seq![' ', 'K', 'B']
        }
    } else {
        tenths_text(round_half_even(as_f64_value(size as nat) * 10, 1048576) as nat) + seq![
            ' ',
            'M',
            'B',
        ]
    }
}

/// How a card states the length of a text of `n` characters.
pub open spec fn char_count_text(n: nat) -> Seq<char> {
    if n == 1 {
        seq!['1', ' ', 'c', 'h', 'a', 'r']
    } else {
        nat_digits(n) + seq![' ', 'c', 'h', 'a', 'r', 's']
    }
}

/// Characters in the clip's text (0 when it has none).
pub open spec fn text_len(c: ClipView) -> nat {
    match c.text {
        Some(t) => t.len(),
        None => 0,
    }
}

/// The size line of a card: the image size for images, else the character count.
pub open spec fn format_chars_spec(c: ClipView) -> Seq<char> {
    if c.kind == "image"@ {
        size_text(c.byte_size as int)
    } else {
        char_count_text(text_len(c))
    }
}

/// Whether the lowercase form of `s` contains `needle`.
pub open spec fn lower_contains(s: Seq<char>, needle: Seq<char>) -> bool {
    contains_seq(lowercase(s), needle)
}

/// Whether a search needle (already lowercased) matches a clip: its preview,
/// its text or its custom label contains it, compared in lowercase. The kind is
/// not searched.
pub open spec fn clip_matches(c: ClipView, needle: Seq<char>) -> bool {
    ||| lower_contains(c.preview, needle)
    ||| (c.text matches Some(t) && lower_contains(t, needle))
    ||| (c.custom_label matches Some(l) && lower_contains(l, needle))
}

fn lower_contains_exec(s: &str, needle: &str) -> (r: bool)
    ensures
        r == lower_contains(s@, needle@),
{
    let lower = to_lowercase(s);
    str_contains(lower.as_str(), needle)
}

/// Whether `needle` (lowercased by the caller) matches the clip.
pub fn clip_matches_query(clip: &Clip, needle: &str) -> (r: bool)
    ensures
        r == clip_matches(clip@, needle@),
{
    if lower_contains_exec(clip.preview.as_str(), needle) {
        return true;
    }
    let in_text = match &clip.text {
        Some(t) => lower_contains_exec(t.as_str(), needle),
        None => false,
    };
    if in_text {
        return true;
    }
    match &clip.custom_label {
        Some(l) => lower_contains_exec(l.as_str(), needle),
        None => false,
    }
}

/// `num / den` rounded to the nearest integer, ties to even.
fn round_half_even_exec(num: u128, den: u128) -> (r: u128)
    requires
        den > 0,
        num < 0x1_0000_0000_0000_0000_0000,
        den < 0x1_0000_0000_0000_0000_0000,
    ensures
        r == round_half_even(num as int, den as int),
        r <= num / den + 1,
{
    let q = num / den;
    let rem = num % den;
    if 2 * rem > den || (2 * rem == den && q % 2 == 1) {
        q + 1
    } else {
        q
    }
}

fn f64_spacing_exec(v: u64) -> (u: u128)
    ensures
        u == f64_spacing(v as nat),
        1 <= u <= 2048,
{
    if v < 0x20000000000000 {
        1
    } else if v < 0x40000000000000 {
        2
    } else if v < 0x80000000000000 {
        4
    } else if v < 0x100000000000000 {
        8
    } else if v < 0x200000000000000 {
        16
    } else if v < 0x400000000000000 {
        32
    } else if v < 0x800000000000000 {
        64
    } else if v < 0x1000000000000000 {
        128
    } else if v < 0x2000000000000000 {
        256
    } else if v < 0x4000000000000000 {
        512
    } else if v < 0x8000000000000000 {
        1024
    } else {
        2048
    }
}

/// `v as f64`, held exactly as an integer.
fn as_f64_exact(v: u64) -> (r: u128)
    ensures
        r == as_f64_value(v as nat),
        r <= (v as int) + 2048,
{
    let u = f64_spacing_exec(v);
    let vv: u128 = v as u128;
    let k = round_half_even_exec(vv, u);
    proof {
        let a = vv as int;
        let b = u as int;
        let kk = k as int;
        assert(kk * b <= (a / b + 1) * b) by (nonlinear_arith)
            requires
                kk <= a / b + 1,
                b >= 1,
        ;
        assert((a / b) * b <= a) by (nonlinear_arith)
            requires
                b >= 1,
                a >= 0,
        ;
        assert((a / b + 1) * b == (a / b) * b + b) by (nonlinear_arith);
    }
    u * k
}

impl Clip {
    /// The keep preset's label, or the stored key when it names no preset.
    pub fn keep_label(&self) -> (r: String)
        ensures
            r@ == keep_label_spec(self.keep_preset@),
    {
        match keep_by_key(self.keep_preset.as_str()) {
            Some(p) => p.label.to_owned(),
            None => self.keep_preset.clone(),
        }
    }

    /// `∞` for clips kept forever, else the keep key.
    pub fn keep_short(&self) -> (r: &str)
        ensures
            r@ == keep_short_spec(self.keep_preset@),
    {
        if str_eq(self.keep_preset.as_str(), "forever") {
            "\u{221e}"
        } else {
            self.keep_preset.as_str()
        }
    }

    /// `Image`, `Text`, or the kind with underscores as spaces.
    pub fn kind_label(&self) -> (r: String)
        ensures
            r@ == kind_label_spec(self.kind@),
    {
        if str_eq(self.kind.as_str(), "image") {
            return "Image".to_owned();
        }
        if str_eq(self.kind.as_str(), "text") {
            return "Text".to_owned();
        }
        let k = chars_of(self.kind.as_str());
        let mut out: Vec<char> = Vec::new();
        let mut i: usize = 0;
        while i < k.len()
            invariant
                0 <= i <= k@.len(),
                k@ == self.kind@,
                out@ == underscores_to_spaces(k@.take(i as int)),
            decreases k@.len() - i,
        {
            let c = k[i];
            out.push(
                if c == '_' {
                    ' '
                } else {
                    c
                },
            );
            assert(out@ =~= underscores_to_spaces(k@.take(i + 1)));
            i = i + 1;
        }
        assert(k@.take(k@.len() as int) =~= k@);
        string_from_chars(&out)
    }

    /// The custom label when set and non-empty, else the kind label.
    pub fn display_label(&self) -> (r: String)
        ensures
            r@ == display_label_spec(self@),
    {
        match &self.custom_label {
            Some(l) => {
                if l.as_str().is_empty() {
                    self.kind_label()
                } else {
                    l.clone()
                }
            },
            None => self.kind_label(),
        }
    }

    /// The size line of the clip's card: `500 B`, `1.5 KB`, `20 KB`, `2.0 MB`
    /// for images, `1 char` or `n chars` for text.
    pub fn format_chars(&self) -> (r: String)
        ensures
            r@ == format_chars_spec(self@),
    {
        let mut out: Vec<char> = Vec::new();
        if str_eq(self.kind.as_str(), "image") {
            let size = self.byte_size;
            if size < 1024 {
                push_decimal(&mut out, size);
                push_str(&mut out, " B");
            } else if size < 1048576 {
                if size < 10240 {
                    let t = round_half_even_exec((size as u128) * 10, 1024);
                    push_tenths(&mut out, t);
                } else {
                    let t = round_half_even_exec(size as u128, 1024);
                    push_digits(&mut out, t as u64);
                }
                push_str(&mut out, " KB");
            } else {
                let f = as_f64_exact(size as u64);
                let t = round_half_even_exec(f * 10, 1048576);
                push_tenths(&mut out, t);
                push_str(&mut out, " MB");
            }
        } else {
            let n: usize = match &self.text {
                Some(t) => chars_of(t.as_str()).len(),
                None => 0,
            };
            if n == 1 {
                push_str(&mut out, "1 char");
            } else {
                push_digits(&mut out, n as u64);
                push_str(&mut out, " chars");
            }
        }
        proof {
            reveal_strlit(" B");
            reveal_strlit(" KB");
            reveal_strlit(" MB");
            reveal_strlit("1 char");
            reveal_strlit(" chars");
        }
        assert(out@ =~= format_chars_spec(self@));
        string_from_chars(&out)
    }
}

/// Appends `t / 10` with one decimal.
fn push_tenths(out: &mut Vec<char>, t: u128)
    requires
        t < 0x1_0000_0000_0000_0000,
    ensures
        final(out)@ == old(out)@ + tenths_text(t as nat),
{
    push_digits(out, (t / 10) as u64);
    out.push('.');
    push_digits(out, (t % 10) as u64);
    assert(final(out)@ =~= old(out)@ + tenths_text(t as nat));
}

} // verus!
