//! Pasting into the window that had focus: which window that was, and which
//! keys paste there.
use vstd::prelude::*;

use crate::clipboard::string_seq;
use crate::text::{chars_of, contains_seq, lowercase, str_contains, str_eq, to_lowercase};

verus! {

/// The window that had focus before the bar opened.
#[derive(Clone, Debug)]
pub struct TargetWindow {
    pub address: String,
    pub wm_class: String,
    pub title: String,
    pub tags: Vec<String>,
}

/// Number of window classes known to be terminals.
pub const TERMINAL_CLASS_COUNT: usize = 6;

/// Terminal class `i`, as it appears in a lowercased window class.
pub open spec fn terminal_class(i: int) -> Seq<char> {
    if i == 0 {
        "ghostty"@
    } else if i == 1 {
        "kitty"@
    } else if i == 2 {
        "alacritty"@
    } else if i == 3 {
        "foot"@
    } else if i == 4 {
        "wezterm"@
    } else {
        "rio"@
    }
}

fn terminal_class_at(i: usize) -> (r: &'static str)
    requires
        i < TERMINAL_CLASS_COUNT,
    ensures
        r@ == terminal_class(i as int),
{
    if i == 0 {
        "ghostty"
    } else if i == 1 {
        "kitty"
    } else if i == 2 {
        "alacritty"
    } else if i == 3 {
        "foot"
    } else if i == 4 {
        "wezterm"
    } else {
        "rio"
    }
}

/// `s` without its trailing `*`s.
pub open spec fn strip_stars(s: Seq<char>) -> Seq<char>
    decreases s.len(),
{
    if s.len() > 0 && s.last() == '*' {
        strip_stars(s.drop_last())
    } else {
        s
    }
}

/// A window is a terminal when Hyprland tags it `terminal` (trailing `*`s
/// aside) or its class, in lowercase, names a known terminal.
pub open spec fn is_terminal_spec(tags: Seq<Seq<char>>, wm_class: Seq<char>) -> bool {
    ||| exists|i: int| 0 <= i < tags.len() && strip_stars(#[trigger] tags[i]) == "terminal"@
    ||| exists|j: int|
        0 <= j < TERMINAL_CLASS_COUNT && contains_seq(lowercase(wm_class), #[trigger] terminal_class(j))
}

fn strip_stars_chars(s: &Vec<char>) -> (r: Vec<char>)
    ensures
        r@ == strip_stars(s@),
{
    let mut n: usize = s.len();
    assert(s@.take(n as int) =~= s@);
    while n > 0 && s[n - 1] == '*'
        invariant
            0 <= n <= s@.len(),
            strip_stars(s@) == strip_stars(s@.take(n as int)),
        decreases n,
    {
        assert(s@.take(n as int).drop_last() =~= s@.take(n - 1));
        n = n - 1;
    }
    let mut r: Vec<char> = Vec::new();
    let mut i: usize = 0;
    while i < n
        invariant
            0 <= i <= n <= s@.len(),
            r@ == s@.take(i as int),
        decreases n - i,
    {
        r.push(s[i]);
        assert(r@ =~= s@.take(i + 1));
        i = i + 1;
    }
    proof {
        if n == s@.len() {
            assert(s@.take(n as int) =~= s@);
        }
        if n > 0 {
            assert(s@.take(n as int).last() != '*');
        }
    }
    r
}

impl TargetWindow {
    /// Whether the window is a terminal.
    pub fn is_terminal(&self) -> (r: bool)
        ensures
            r == is_terminal_spec(string_seq(self.tags@), self.wm_class@),
    {
        let ghost ts = string_seq(self.tags@);
        let mut i: usize = 0;
        while i < self.tags.len()
            invariant
                0 <= i <= self.tags@.len(),
                ts == string_seq(self.tags@),
                forall|k: int| 0 <= k < i ==> strip_stars(#[trigger] ts[k]) != "terminal"@,
            decreases self.tags@.len() - i,
        {
            let chars = chars_of(self.tags[i].as_str());
            let stripped = strip_stars_chars(&chars);
            let word = crate::text::string_from_chars(&stripped);
            if str_eq(word.as_str(), "terminal") {
                assert(strip_stars(ts[i as int]) == "terminal"@);
                return true;
            }
            i = i + 1;
        }
        let lowered = to_lowercase(self.wm_class.as_str());
        let mut j: usize = 0;
        while j < TERMINAL_CLASS_COUNT
            invariant
                0 <= j <= TERMINAL_CLASS_COUNT,
                lowered@ == lowercase(self.wm_class@),
                ts == string_seq(self.tags@),
                forall|k: int| 0 <= k < ts.len() ==> strip_stars(#[trigger] ts[k]) != "terminal"@,
                forall|k: int| 0 <= k < j ==> !contains_seq(lowered@, #[trigger] terminal_class(k)),
            decreases TERMINAL_CLASS_COUNT - j,
        {
            if str_contains(lowered.as_str(), terminal_class_at(j)) {
                return true;
            }
            j = j + 1;
        }
        false
    }
}

/// Whether to paste with Shift+Insert (else Ctrl+V): always with
/// `shift-insert`, and with `auto` in terminals.
pub fn uses_shift_insert(paste_keys: &str, terminal: bool) -> (r: bool)
    ensures
        r == (paste_keys@ == "shift-insert"@ || (paste_keys@ == "auto"@ && terminal)),
{
    str_eq(paste_keys, "shift-insert") || (str_eq(paste_keys, "auto") && terminal)
}

/// An ASCII whitespace byte (space, tab, line feed, form feed, carriage return).
pub open spec fn is_ascii_space(b: u8) -> bool {
    b == 0x20 || b == 0x09 || b == 0x0a || b == 0x0c || b == 0x0d
}

/// Whether `bytes` holds only ASCII whitespace (or nothing).
pub fn is_blank(bytes: &[u8]) -> (r: bool)
    ensures
        r == forall|i: int| 0 <= i < bytes@.len() ==> is_ascii_space(#[trigger] bytes@[i]),
{
    let mut i: usize = 0;
    while i < bytes.len()
        invariant
            0 <= i <= bytes@.len(),
            forall|k: int| 0 <= k < i ==> is_ascii_space(#[trigger] bytes@[k]),
        decreases bytes@.len() - i,
    {
        let b = bytes[i];
        if !(b == 0x20 || b == 0x09 || b == 0x0a || b == 0x0c || b == 0x0d) {
            return false;
        }
        i = i + 1;
    }
    true
}

/// The focused window Hyprland reports, from the fields of its JSON: none
/// without a non-empty address; missing class, title or tags read as empty.
pub fn window_from_fields(
    address: Option<String>,
    class: Option<String>,
    title: Option<String>,
    tags: Option<Vec<String>>,
) -> (r: Option<TargetWindow>)
    ensures
        match address {
            Some(a) if a@.len() > 0 => r matches Some(w) && w.address@ == a@ && w.wm_class@ == (
            match class {
                Some(c) => c@,
                None => Seq::<char>::empty(),
            }) && w.title@ == (match title {
                Some(t) => t@,
                None => Seq::<char>::empty(),
            }) && string_seq(w.tags@) == (match tags {
                Some(v) => string_seq(v@),
                None => Seq::<Seq<char>>::empty(),
            }),
            _ => r is None,
        },
{
    let address = match address {
        Some(a) => a,
        None => return None,
    };
    if address.as_str().is_empty() {
        return None;
    }
    let wm_class = match class {
        Some(c) => c,
        None => String::new(),
    };
    let title = match title {
        Some(t) => t,
        None => String::new(),
    };
    let tags = match tags {
        Some(v) => v,
        None => {
            let v: Vec<String> = Vec::new();
            assert(string_seq(v@) =~= Seq::<Seq<char>>::empty());
            v
        },
    };
    Some(TargetWindow { address, wm_class, title, tags })
}

} // verus!
