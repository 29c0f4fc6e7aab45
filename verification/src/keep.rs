//! Keep presets: how long a clip stays in the history.
use vstd::prelude::*;

use crate::text::str_eq;

verus! {

/// The preset a new clip gets unless the configuration names another.
pub const DEFAULT_KEEP: &'static str = "1d";

/// Seconds in one hour, one day and one week.
pub const HOUR_SECS: i64 = 3600;

pub const DAY_SECS: i64 = 86400;

pub const WEEK_SECS: i64 = 604800;

/// A keep preset: its key in configuration and storage, its label, and how
/// many seconds a clip lives (`None` for forever).
#[derive(Clone, Copy, Debug, PartialEq, Eq)]
pub struct KeepPreset {
    pub key: &'static str,
    pub label: &'static str,
    pub seconds: Option<i64>,
}

/// Number of presets.
pub open spec fn preset_count() -> int {
    4
}

/// Key of the preset at position `i` of the cycle.
pub open spec fn preset_key(i: int) -> Seq<char> {
    if i == 0 {
        "1h"@
    } else if i == 1 {
        "1d"@
    } else if i == 2 {
        "7d"@
    } else {
        "forever"@
    }
}

/// Label of the preset at position `i`.
pub open spec fn preset_label(i: int) -> Seq<char> {
    if i == 0 {
        "1 hour"@
    } else if i == 1 {
        "1 day"@
    } else if i == 2 {
        "7 days"@
    } else {
        "Forever"@
    }
}

/// Lifetime in seconds of the preset at position `i` (`None`: forever).
pub open spec fn preset_seconds(i: int) -> Option<i64> {
    if i == 0 {
        Some(3600i64)
    } else if i == 1 {
        Some(86400i64)
    } else if i == 2 {
        Some(604800i64)
    } else {
        None
    }
}

/// `p` is the preset at position `i`.
pub open spec fn is_preset(p: KeepPreset, i: int) -> bool {
    &&& 0 <= i < preset_count()
    &&& p.key@ == preset_key(i)
    &&& p.label@ == preset_label(i)
    &&& p.seconds == preset_seconds(i)
}

/// Position of the preset whose key is `key`, if any.
pub open spec fn preset_index(key: Seq<char>) -> Option<int> {
    if key == preset_key(0) {
        Some(0)
    } else if key == preset_key(1) {
        Some(1)
    } else if key == preset_key(2) {
        Some(2)
    } else if key == preset_key(3) {
        Some(3)
    } else {
        None
    }
}

/// Position used for `key`: its own, or the default (`1d`) for unknown keys.
pub open spec fn effective_index(key: Seq<char>) -> int {
    match preset_index(key) {
        Some(i) => i,
        None => 1,
    }
}

/// When a clip kept under `preset` from `now` expires (`None`: never).
pub open spec fn keep_until_spec(preset: Seq<char>, now: int) -> Option<int> {
    match preset_seconds(effective_index(preset)) {
        Some(s) => Some(now + s),
        None => None,
    }
}

/// Whether `keep_until_spec(preset, now)` fits in an `i64`.
pub open spec fn keep_until_fits(preset: Seq<char>, now: int) -> bool {
    match keep_until_spec(preset, now) {
        Some(u) => u <= i64::MAX,
        None => true,
    }
}

/// The keys of the presets are pairwise distinct.
pub proof fn lemma_preset_keys_distinct()
    ensures
        forall|i: int, j: int|
            0 <= i < preset_count() && 0 <= j < preset_count() && i != j ==> preset_key(i)
                != preset_key(j),
        forall|i: int| 0 <= i < preset_count() ==> preset_index(#[trigger] preset_key(i)) == Some(i),
{
    reveal_strlit("1h");
    reveal_strlit("1d");
    reveal_strlit("7d");
    reveal_strlit("forever");
    assert("1h"@ != "1d"@) by {
        assert("1h"@[1] != "1d"@[1]);
    }
    assert("1h"@ != "7d"@) by {
        assert("1h"@[0] != "7d"@[0]);
    }
    assert("1d"@ != "7d"@) by {
        assert("1d"@[0] != "7d"@[0]);
    }
    assert("1h"@ != "forever"@) by {
        assert("1h"@.len() != "forever"@.len());
    }
    assert("1d"@ != "forever"@) by {
        assert("1d"@.len() != "forever"@.len());
    }
    assert("7d"@ != "forever"@) by {
        assert("7d"@.len() != "forever"@.len());
    }
}

/// The preset at position `i` of the cycle (1h, 1d, 7d, forever).
pub fn keep_preset_at(i: usize) -> (p: KeepPreset)
    requires
        i < 4,
    ensures
        is_preset(p, i as int),
{
    if i == 0 {
        KeepPreset { key: "1h", label: "1 hour", seconds: Some(HOUR_SECS) }
    } else if i == 1 {
        KeepPreset { key: "1d", label: "1 day", seconds: Some(DAY_SECS) }
    } else if i == 2 {
        KeepPreset { key: "7d", label: "7 days", seconds: Some(WEEK_SECS) }
    } else {
        KeepPreset { key: "forever", label: "Forever", seconds: None }
    }
}

/// Position of the preset keyed `key`, if any.
fn find_preset(key: &str) -> (r: Option<usize>)
    ensures
        match preset_index(key@) {
            Some(i) => r == Some(i as usize),
            None => r is None,
        },
{
    let mut i: usize = 0;
    while i < 4
        invariant
            0 <= i <= 4,
            forall|j: int| 0 <= j < i ==> key@ != preset_key(j),
        decreases 4 - i,
    {
        let p = keep_preset_at(i);
        if str_eq(p.key, key) {
            return Some(i);
        }
        i = i + 1;
    }
    None
}

/// The preset whose key is `key`.
pub fn keep_by_key(key: &str) -> (r: Option<KeepPreset>)
    ensures
        match preset_index(key@) {
            Some(i) => r matches Some(p) && is_preset(p, i),
            None => r is None,
        },
{
    match find_preset(key) {
        Some(i) => Some(keep_preset_at(i)),
        None => None,
    }
}

/// The preset after `current` in the cycle 1h → 1d → 7d → forever → 1h; an
/// unknown key counts as `1d`.
pub fn next_keep(current: &str) -> (p: KeepPreset)
    ensures
        is_preset(p, (effective_index(current@) + 1) % preset_count()),
{
    let index = match find_preset(current) {
        Some(i) => i,
        None => 1,
    };
    keep_preset_at((index + 1) % 4)
}

/// When a clip kept under `preset` from `now` expires; an unknown preset
/// counts as `1d`, and forever never expires.
pub fn keep_until_from(preset: &str, now: i64) -> (r: Option<i64>)
    requires
        keep_until_fits(preset@, now as int),
    ensures
        match keep_until_spec(preset@, now as int) {
            Some(u) => r == Some(u as i64),
            None => r is None,
        },
{
    let spec = match keep_by_key(preset) {
        Some(p) => p,
        None => keep_preset_at(1),
    };
    match spec.seconds {
        Some(s) => Some(now + s),
        None => None,
    }
}

/// Cycling four times through the presets comes back to the start.
pub proof fn law_keep_cycle_returns(i: int)
    requires
        0 <= i < preset_count(),
    ensures
        (((((i + 1) % preset_count()) + 1) % preset_count() + 1) % preset_count() + 1)
            % preset_count() == i,
        forall|k: int|
            0 <= k < preset_count() ==> effective_index(preset_key(k)) == k,
{
    lemma_preset_keys_distinct();
}

/// Forever never expires; every other preset expires after its own lifetime.
pub proof fn law_forever_never_expires(now: int)
    ensures
        keep_until_spec(preset_key(3), now) is None,
        keep_until_spec(preset_key(0), now) == Some(now + 3600),
        keep_until_spec(preset_key(1), now) == Some(now + 86400),
        keep_until_spec(preset_key(2), now) == Some(now + 604800),
{
    lemma_preset_keys_distinct();
}

} // verus!
