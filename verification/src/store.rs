//! The clip history kept in SQLite: every operation reads or writes the
//! `clips` table through a few primitive statements, and the rules (search,
//! order, expiry, pruning, deduplication) are decided here in verified code.
use vstd::prelude::*;

use crate::clip::{opt_str_view, opt_view, Clip, ClipView};
use crate::hash::{clip_digest, content_hash};
use crate::history::{
    appears_in, ids_increasing, in_order, is_listing, is_prune_plan, is_selected_row, prune_plan,
    selected, shown, sort_listing, string_views, views,
};
use crate::text::{lowercase, make_preview, preview_of, to_lowercase};
use vstd::utf8::encode_utf8;
use crate::keep::{keep_by_key, keep_until_fits, keep_until_from, keep_until_spec, preset_index};
use crate::text::{str_eq, trim, trimmed};

verus! {

#[verifier::external_type_specification]
#[verifier::external_body]
pub struct ExConnection(rusqlite::Connection);

#[verifier::external_type_specification]
#[verifier::external_body]
pub struct ExSqliteError(rusqlite::Error);

/// The rows of the `clips` table behind a connection, keyed by id. A database
/// without that table holds no rows, and a row read before the
/// `custom_label` column exists has no custom label. The library assumes that
/// nothing but the connection itself writes to the table while it holds it.
pub uninterp spec fn clip_table(conn: rusqlite::Connection) -> Map<i64, ClipView>;

/// `rows` are the rows of `t`, in ascending id order.
pub open spec fn rows_match(rows: Seq<ClipView>, t: Map<i64, ClipView>) -> bool {
    &&& ids_increasing(rows)
    &&& forall|i: int|
        #![trigger rows[i]]
        0 <= i < rows.len() ==> t.contains_key(rows[i].id) && t[rows[i].id] == rows[i]
    &&& forall|k: i64|
        #[trigger] t.contains_key(k) ==> exists|i: int|
            #![trigger rows[i]]
            0 <= i < rows.len() && rows[i].id == k
}

/// The row of `t` with id `id`, if any.
pub open spec fn table_get(t: Map<i64, ClipView>, id: i64) -> Option<ClipView> {
    if t.contains_key(id) {
        Some(t[id])
    } else {
        None
    }
}

/// View of an optional clip.
pub open spec fn opt_clip_view(o: Option<Clip>) -> Option<ClipView> {
    match o {
        Some(c) => Some(c@),
        None => None,
    }
}

/// Runs `SELECT … FROM clips ORDER BY id` through `rusqlite`
/// (`Connection::prepare`, `Statement::query_map`, collecting the rows): the
/// rows of the table in ascending id order (`id` is the table's integer
/// primary key). A `Vec` never holds more than `isize::MAX` bytes, so the
/// count fits in an `i64`.
#[verifier::external_body]
fn db_load(conn: &rusqlite::Connection) -> (r: Result<Vec<Clip>, rusqlite::Error>)
    ensures
        r matches Ok(rows) ==> rows_match(views(rows@), clip_table(*conn)) && rows@.len()
            <= i64::MAX,
{
    let mut stmt = conn.prepare(
        "SELECT id, created_at, last_used_at, keep_preset, keep_until, mime, kind, text, \
         preview, hash, image_path, byte_size, custom_label FROM clips ORDER BY id",
    )?;
    let rows = stmt.query_map([], |r| Ok(Clip { id: r.get(0)?, created_at: r.get(1)?,
        last_used_at: r.get(2)?, keep_preset: r.get(3)?, keep_until: r.get(4)?, mime: r.get(5)?,
        kind: r.get(6)?, text: r.get(7)?, preview: r.get(8)?, hash: r.get(9)?,
        image_path: r.get(10)?, byte_size: r.get(11)?, custom_label: r.get(12)? }))?;
    rows.collect()
}

/// `c` last used at `stamp`.
pub open spec fn with_last_used(c: ClipView, stamp: i64) -> ClipView {
    ClipView { last_used_at: stamp, ..c }
}

/// `c` kept under `preset` until `until`.
pub open spec fn with_keep(c: ClipView, preset: Seq<char>, until: Option<i64>) -> ClipView {
    ClipView { keep_preset: preset, keep_until: until, ..c }
}

/// `c` with the custom label `label`.
pub open spec fn with_label(c: ClipView, label: Option<Seq<char>>) -> ClipView {
    ClipView { custom_label: label, ..c }
}

/// `c` stored under the id `id`, without a custom label.
pub open spec fn stored_as(c: ClipView, id: i64) -> ClipView {
    ClipView { id: id, custom_label: None, ..c }
}

/// `t` with the row `id`, if there is one, last used at `stamp`.
pub open spec fn touched(t: Map<i64, ClipView>, id: i64, stamp: i64) -> Map<i64, ClipView> {
    if t.contains_key(id) {
        t.insert(id, with_last_used(t[id], stamp))
    } else {
        t
    }
}

/// `t` with the row `id`, if there is one, kept under `preset` until `until`.
pub open spec fn rekept(
    t: Map<i64, ClipView>,
    id: i64,
    preset: Seq<char>,
    until: Option<i64>,
) -> Map<i64, ClipView> {
    if t.contains_key(id) {
        t.insert(id, with_keep(t[id], preset, until))
    } else {
        t
    }
}

/// `t` with the row `id`, if there is one, labelled `label`.
pub open spec fn relabeled(t: Map<i64, ClipView>, id: i64, label: Option<Seq<char>>) -> Map<
    i64,
    ClipView,
> {
    if t.contains_key(id) {
        t.insert(id, with_label(t[id], label))
    } else {
        t
    }
}

/// Runs the schema batch through `Connection::execute_batch`: write-ahead
/// logging, foreign keys, and `CREATE TABLE`/`CREATE INDEX … IF NOT EXISTS` for
/// the clips table and its indexes. None of these statements adds, changes or
/// removes a row.
#[verifier::external_body]
fn db_create_schema(conn: &mut rusqlite::Connection) -> (r: Result<(), rusqlite::Error>)
    ensures
        r is Ok ==> clip_table(*final(conn)) == clip_table(*old(conn)),
{
    conn.execute_batch(
        "PRAGMA journal_mode=WAL; PRAGMA foreign_keys=ON; CREATE TABLE IF NOT EXISTS clips (\
         id INTEGER PRIMARY KEY, created_at INTEGER NOT NULL, last_used_at INTEGER NOT NULL, \
         keep_preset TEXT NOT NULL, keep_until INTEGER, mime TEXT NOT NULL, kind TEXT NOT NULL, \
         text TEXT, preview TEXT NOT NULL, hash TEXT NOT NULL UNIQUE, image_path TEXT, \
         byte_size INTEGER NOT NULL); \
         CREATE INDEX IF NOT EXISTS idx_clips_last_used ON clips(last_used_at DESC); \
         CREATE INDEX IF NOT EXISTS idx_clips_keep_until ON clips(keep_until);",
    )
}

/// Whether the `clips` table behind a connection has a column named exactly
/// `custom_label`. Nothing else of the schema is modelled.
pub uninterp spec fn label_column(conn: rusqlite::Connection) -> bool;

/// Runs `PRAGMA table_info(clips)` through `Connection::prepare` and
/// `Statement::query_map`: one entry per column of the table, its name where
/// it reads as text (SQLite reports every column name as text). So one entry
/// reads `custom_label` exactly when the table has that column.
#[verifier::external_body]
fn db_column_names(conn: &rusqlite::Connection) -> (r: Result<
    Vec<Option<String>>,
    rusqlite::Error,
>)
    ensures
        r matches Ok(names) ==> (label_column(*conn) <==> exists|i: int|
            0 <= i < names@.len() && is_label_column(#[trigger] names@[i])),
{
    let mut stmt = conn.prepare("PRAGMA table_info(clips)")?;
    let names = stmt.query_map([], |r| r.get::<_, String>(1))?;
    Ok(names.map(|n| n.ok()).collect())
}

/// Runs `ALTER TABLE clips ADD COLUMN custom_label TEXT` through
/// `Connection::execute`. Once it succeeds the table has the column; the new
/// column is empty in every row, which reads as no custom label, so the rows
/// stay as they were.
#[verifier::external_body]
fn db_add_label_column(conn: &mut rusqlite::Connection) -> (r: Result<usize, rusqlite::Error>)
    ensures
        r is Ok ==> clip_table(*final(conn)) == clip_table(*old(conn)) && label_column(
            *final(conn),
        ),
{
    conn.execute("ALTER TABLE clips ADD COLUMN custom_label TEXT", [])
}

/// Runs `INSERT INTO clips (…) VALUES (…) RETURNING id` through
/// `Connection::query_row` with every field of `row` but its id and custom
/// label. SQLite gives the new row an integer primary key that no row of the
/// table holds, and returns it; the row has no custom label.
#[verifier::external_body]
fn db_insert(conn: &mut rusqlite::Connection, row: &Clip) -> (r: Result<i64, rusqlite::Error>)
    ensures
        r matches Ok(id) ==> !clip_table(*old(conn)).contains_key(id) && clip_table(*final(conn))
            == clip_table(*old(conn)).insert(id, stored_as(row@, id)),
{
    conn.query_row(
        "INSERT INTO clips (created_at, last_used_at, keep_preset, keep_until, mime, kind, \
         text, preview, hash, image_path, byte_size) VALUES (?, ?, ?, ?, ?, ?, ?, ?, ?, ?, ?) \
         RETURNING id",
        (row.created_at, row.last_used_at, &row.keep_preset, row.keep_until, &row.mime,
         &row.kind, &row.text, &row.preview, &row.hash, &row.image_path, row.byte_size),
        |r| r.get(0),
    )
}

/// Runs `UPDATE clips SET last_used_at = ? WHERE id = ?` through
/// `Connection::execute`.
#[verifier::external_body]
fn db_set_last_used(conn: &mut rusqlite::Connection, id: i64, stamp: i64) -> (r: Result<
    usize,
    rusqlite::Error,
>)
    ensures
        r is Ok ==> clip_table(*final(conn)) == touched(clip_table(*old(conn)), id, stamp),
{
    conn.execute("UPDATE clips SET last_used_at = ? WHERE id = ?", (stamp, id))
}

/// Runs `UPDATE clips SET keep_preset = ?, keep_until = ? WHERE id = ?` through
/// `Connection::execute`.
#[verifier::external_body]
fn db_set_keep(
    conn: &mut rusqlite::Connection,
    id: i64,
    preset: &str,
    until: Option<i64>,
) -> (r: Result<usize, rusqlite::Error>)
    ensures
        r is Ok ==> clip_table(*final(conn)) == rekept(clip_table(*old(conn)), id, preset@, until),
{
    conn.execute("UPDATE clips SET keep_preset = ?, keep_until = ? WHERE id = ?", (preset, until, id))
}

/// Runs `UPDATE clips SET custom_label = ? WHERE id = ?` through
/// `Connection::execute` (`None` stores SQL `NULL`).
#[verifier::external_body]
fn db_set_label(conn: &mut rusqlite::Connection, id: i64, label: Option<&str>) -> (r: Result<
    usize,
    rusqlite::Error,
>)
    ensures
        r is Ok ==> clip_table(*final(conn)) == relabeled(
            clip_table(*old(conn)),
            id,
            crate::clip::opt_str_view(label),
        ),
{
    conn.execute("UPDATE clips SET custom_label = ? WHERE id = ?", (label, id))
}

/// Runs `DELETE FROM clips WHERE id = ?` through `Connection::execute`.
#[verifier::external_body]
fn db_delete(conn: &mut rusqlite::Connection, id: i64) -> (r: Result<usize, rusqlite::Error>)
    ensures
        r is Ok ==> clip_table(*final(conn)) == clip_table(*old(conn)).remove(id),
{
    conn.execute("DELETE FROM clips WHERE id = ?", [id])
}

/// Seconds since the Unix epoch by the system clock (`SystemTime::now` and
/// `duration_since`), 0 for a clock set before the epoch. Nothing is known of
/// the value.
#[verifier::external_body]
pub(crate) fn now_secs() -> (r: i64) {
    std::time::SystemTime::now().duration_since(std::time::UNIX_EPOCH).map(|d| d.as_secs() as i64)
        .unwrap_or(0)
}

/// Why a store operation failed.
#[derive(Debug)]
pub enum StoreError {
    /// SQLite reported an error.
    Database(rusqlite::Error),
    /// The clock reads a time too far in the future to compute an expiry.
    TimeOutOfRange,
}

/// The clip history.
pub struct Store {
    conn: rusqlite::Connection,
}

impl View for Store {
    type V = Map<i64, ClipView>;

    closed spec fn view(&self) -> Map<i64, ClipView> {
        clip_table(self.conn)
    }
}

/// Takes the row with id `id` out of `rows`, the rows of `t`.
fn take_row(rows: Vec<Clip>, id: i64, Ghost(t): Ghost<Map<i64, ClipView>>) -> (r: Option<Clip>)
    requires
        rows_match(views(rows@), t),
    ensures
        opt_clip_view(r) == table_get(t, id),
{
    let ghost vs = views(rows@);
    let mut rows = rows;
    let mut i: usize = 0;
    while i < rows.len()
        invariant
            0 <= i <= rows@.len(),
            vs == views(rows@),
            rows_match(vs, t),
            forall|k: int| 0 <= k < i ==> #[trigger] rows@[k].id != id,
        decreases rows@.len() - i,
    {
        if rows[i].id == id {
            assert(vs[i as int] == rows@[i as int]@);
            assert(t.contains_key(vs[i as int].id) && t[vs[i as int].id] == vs[i as int]);
            let ghost before = rows@;
            let c = rows.remove(i);
            assert(c == before[i as int]);
            return Some(c);
        }
        i = i + 1;
    }
    proof {
        if t.contains_key(id) {
            let j = choose|j: int| #![trigger vs[j]] 0 <= j < vs.len() && vs[j].id == id;
            assert(vs[j] == rows@[j]@);
        }
    }
    None
}

/// A column name that reads `custom_label`.
pub open spec fn is_label_column(name: Option<String>) -> bool {
    name matches Some(n) && n@ == "custom_label"@
}

/// Whether one of the column names reads `custom_label`.
fn has_label_column(names: &Vec<Option<String>>) -> (r: bool)
    ensures
        r == exists|i: int| 0 <= i < names@.len() && is_label_column(#[trigger] names@[i]),
{
    let mut i: usize = 0;
    while i < names.len()
        invariant
            0 <= i <= names@.len(),
            forall|k: int|
                0 <= k < i ==> !is_label_column(#[trigger] names@[k]),
        decreases names@.len() - i,
    {
        match &names[i] {
            Some(n) => {
                if str_eq(n.as_str(), "custom_label") {
                    return true;
                }
            },
            None => {},
        }
        i = i + 1;
    }
    false
}

/// Adds the `custom_label` column to a table that lacks it: afterwards the
/// table has the column, and its rows are unchanged.
fn migrate(conn: &mut rusqlite::Connection) -> (r: Result<(), rusqlite::Error>)
    ensures
        r is Ok ==> clip_table(*final(conn)) == clip_table(*old(conn)) && label_column(
            *final(conn),
        ),
{
    let names = match db_column_names(conn) {
        Ok(names) => names,
        Err(e) => return Err(e),
    };
    if !has_label_column(&names) {
        match db_add_label_column(conn) {
            Ok(_) => {},
            Err(e) => return Err(e),
        }
    }
    Ok(())
}

/// Whether the expiry of `preset` from `stamp` fits in an `i64`.
fn keep_fits(preset: &str, stamp: i64) -> (r: bool)
    ensures
        r == keep_until_fits(preset@, stamp as int),
{
    match keep_by_key(preset) {
        Some(p) => match p.seconds {
            Some(s) => stamp <= 0 || s <= i64::MAX - stamp,
            None => true,
        },
        None => stamp <= i64::MAX - crate::keep::DAY_SECS,
    }
}

/// The stamp an operation uses: `now` when given, else the system clock.
fn stamp_of(now: Option<i64>) -> (r: i64)
    ensures
        now matches Some(n) ==> r == n,
{
    match now {
        Some(n) => n,
        None => now_secs(),
    }
}

/// Whether the stamp used for `now` was `stamp`.
pub open spec fn stamp_for(now: Option<i64>, stamp: i64) -> bool {
    now matches Some(n) ==> stamp == n
}

/// When a clip kept under `preset` from `stamp` expires, as stored.
pub open spec fn until_for(preset: Seq<char>, stamp: int) -> Option<i64> {
    match keep_until_spec(preset, stamp) {
        Some(u) => Some(u as i64),
        None => None,
    }
}

/// The custom label stored for `label`: trimmed, and none when that leaves
/// nothing.
pub open spec fn label_value(label: Option<Seq<char>>) -> Option<Seq<char>> {
    match label {
        Some(l) => if trimmed(l).len() > 0 {
            Some(trimmed(l))
        } else {
            None
        },
        None => None,
    }
}

proof fn lemma_rows_count(rows: Seq<ClipView>, t: Map<i64, ClipView>)
    requires
        rows_match(rows, t),
    ensures
        t.dom().finite(),
        t.len() == rows.len(),
{
    let ids = rows.map_values(|c: ClipView| c.id);
    assert(t.dom() =~= ids.to_set()) by {
        assert forall|k: i64| t.dom().contains(k) implies ids.to_set().contains(k) by {
            let i = choose|i: int| #![trigger rows[i]] 0 <= i < rows.len() && rows[i].id == k;
            assert(ids[i] == k);
        }
        assert forall|k: i64| ids.to_set().contains(k) implies t.dom().contains(k) by {
            let i = choose|i: int| 0 <= i < ids.len() && ids[i] == k;
            assert(rows[i].id == k);
        }
    }
    assert(ids.no_duplicates()) by {
        assert forall|i: int, j: int|
            0 <= i < ids.len() && 0 <= j < ids.len() && i != j implies ids[i] != ids[j] by {
            if i < j {
                assert(rows[i].id < rows[j].id);
            } else {
                assert(rows[j].id < rows[i].id);
            }
        }
    }
    ids.unique_seq_to_set();
    vstd::seq_lib::seq_to_set_is_finite(ids);
}

/// The search needle for a query: trimmed, then lowercased.
pub open spec fn query_needle(query: Seq<char>) -> Seq<char> {
    lowercase(trimmed(query))
}

/// `out` lists exactly the clips of `t` shown at `stamp` for `needle`, most
/// recently used first (newer id first on ties).
pub open spec fn table_listing(
    t: Map<i64, ClipView>,
    stamp: int,
    needle: Seq<char>,
    out: Seq<ClipView>,
) -> bool {
    &&& forall|i: int|
        #![trigger out[i]]
        0 <= i < out.len() ==> t.contains_key(out[i].id) && t[out[i].id] == out[i] && shown(
            out[i],
            stamp,
            needle,
        )
    &&& forall|k: i64|
        t.contains_key(k) && shown(#[trigger] t[k], stamp, needle) ==> appears_in(out, t[k])
    &&& in_order(out, true)
}

/// `t` after a prune at `stamp` under the cap `max_items` is `after`, and
/// `paths` are the image paths of the removed clips, in removal order.
pub open spec fn prune_outcome(
    t: Map<i64, ClipView>,
    max_items: int,
    stamp: int,
    after: Map<i64, ClipView>,
    paths: Seq<Seq<char>>,
) -> bool {
    exists|rows: Seq<ClipView>, remove: Seq<i64>|
        #![trigger rows_match(rows, t), is_prune_plan(rows, max_items, stamp, remove, paths)]
        {
            &&& rows_match(rows, t)
            &&& is_prune_plan(rows, max_items, stamp, remove, paths)
            &&& after == t.remove_keys(remove.to_set())
        }
}

/// `id` is the smallest id of a row of `t` whose hash is `digest`.
pub open spec fn is_hash_owner(t: Map<i64, ClipView>, digest: Seq<char>, id: i64) -> bool {
    &&& t.contains_key(id)
    &&& t[id].hash == digest
    &&& forall|k: i64| #[trigger] t.contains_key(k) && t[k].hash == digest ==> id <= k
}

/// The clip of `t` that already holds content with hash `digest`, if any.
pub open spec fn hash_owner(t: Map<i64, ClipView>, digest: Seq<char>) -> Option<i64> {
    if exists|id: i64| is_hash_owner(t, digest, id) {
        Some(choose|id: i64| is_hash_owner(t, digest, id))
    } else {
        None
    }
}

/// The row a new clip gets (before the table gives it an id).
pub open spec fn new_clip(
    kind: Seq<char>,
    mime: Seq<char>,
    payload: Seq<u8>,
    text: Option<Seq<char>>,
    preview: Seq<char>,
    image_path: Option<Seq<char>>,
    keep_preset: Seq<char>,
    stamp: i64,
) -> ClipView {
    ClipView {
        id: 0,
        created_at: stamp,
        last_used_at: stamp,
        keep_preset: keep_preset,
        keep_until: until_for(keep_preset, stamp as int),
        mime: mime,
        kind: kind,
        text: text,
        preview: preview,
        hash: clip_digest(kind, mime, payload),
        image_path: image_path,
        byte_size: payload.len() as i64,
        custom_label: None,
    }
}

/// What adding `new` at `stamp` under the cap `max_items` does to `t`: content
/// already held is marked as used at `stamp`; new content is inserted under a
/// fresh id and the history is pruned. `r` is the clip as stored afterwards.
pub open spec fn add_outcome(
    t: Map<i64, ClipView>,
    new: ClipView,
    max_items: int,
    stamp: i64,
    after: Map<i64, ClipView>,
    r: Option<ClipView>,
) -> bool {
    match hash_owner(t, new.hash) {
        Some(id) => after == touched(t, id, stamp) && r == table_get(after, id),
        None => exists|id: i64, paths: Seq<Seq<char>>|
            #![trigger prune_outcome(t.insert(id, stored_as(new, id)), max_items, stamp as int, after, paths)]
            {
                &&& !t.contains_key(id)
                &&& prune_outcome(t.insert(id, stored_as(new, id)), max_items, stamp as int, after, paths)
                &&& r == table_get(after, id)
            },
    }
}

proof fn lemma_listing_table(
    rows: Seq<ClipView>,
    t: Map<i64, ClipView>,
    stamp: int,
    needle: Seq<char>,
    out: Seq<ClipView>,
)
    requires
        rows_match(rows, t),
        is_listing(rows, stamp, needle, out),
    ensures
        table_listing(t, stamp, needle, out),
{
    assert forall|i: int| 0 <= i < out.len() implies t.contains_key(#[trigger] out[i].id) && t[out[i].id]
        == out[i] && shown(out[i], stamp, needle) by {
        assert(is_selected_row(rows, stamp, needle, true, out[i]));
        let j = choose|j: int|
            #![trigger rows[j]]
            0 <= j < rows.len() && rows[j] == out[i] && selected(rows[j], stamp, needle, true);
        assert(t.contains_key(rows[j].id) && t[rows[j].id] == rows[j]);
    }
    assert forall|k: i64| t.contains_key(k) && shown(#[trigger] t[k], stamp, needle) implies appears_in(
        out,
        t[k],
    ) by {
        let i = choose|i: int| #![trigger rows[i]] 0 <= i < rows.len() && rows[i].id == k;
        assert(t[rows[i].id] == rows[i]);
        assert(selected(rows[i], stamp, needle, true));
    }
}

/// The first row of `rows`, the rows of `t`, whose hash is `digest`.
fn find_hash(rows: &Vec<Clip>, digest: &str, Ghost(t): Ghost<Map<i64, ClipView>>) -> (r: Option<
    i64,
>)
    requires
        rows_match(views(rows@), t),
    ensures
        r == hash_owner(t, digest@),
{
    let ghost vs = views(rows@);
    let mut i: usize = 0;
    while i < rows.len()
        invariant
            0 <= i <= rows@.len(),
            vs == views(rows@),
            rows_match(vs, t),
            forall|k: int| 0 <= k < i ==> (#[trigger] vs[k]).hash != digest@,
        decreases rows@.len() - i,
    {
        if str_eq(rows[i].hash.as_str(), digest) {
            let id = rows[i].id;
            proof {
                assert(vs[i as int] == rows@[i as int]@);
                assert(t.contains_key(vs[i as int].id) && t[vs[i as int].id] == vs[i as int]);
                assert forall|k: i64| #[trigger] t.contains_key(k) && t[k].hash == digest@ implies id
                    <= k by {
                    let j = choose|j: int| #![trigger vs[j]] 0 <= j < vs.len() && vs[j].id == k;
                    assert(t[vs[j].id] == vs[j]);
                    if j < i {
                        assert(vs[j].hash != digest@);
                    } else if j > i {
                        assert(vs[i as int].id < vs[j].id);
                    }
                }
                assert(is_hash_owner(t, digest@, id));
                let c = choose|c: i64| is_hash_owner(t, digest@, c);
                assert(c <= id && id <= c);
            }
            return Some(id);
        }
        i = i + 1;
    }
    proof {
        if exists|id: i64| is_hash_owner(t, digest@, id) {
            let id = choose|id: i64| is_hash_owner(t, digest@, id);
            let j = choose|j: int| #![trigger vs[j]] 0 <= j < vs.len() && vs[j].id == id;
            assert(t[vs[j].id] == vs[j]);
        }
    }
    None
}

/// Number of sample text clips a new history is seeded with.
pub const SEED_TEXT_COUNT: usize = 5;

/// The text of sample clip `i`.
pub open spec fn seed_text_spec(i: int) -> Seq<char> {
    if i == 0 {
        "fn greet(name: &str)\n  -> String {\n  format\u{21}(\"hi {name}\")\n}"@
    } else if i == 1 {
        "\u{2190} \u{2192} select a clip.\nEnter pastes it.\nEsc closes the bar."@
    } else if i == 2 {
        "https://omarchy.org"@
    } else if i == 3 {
        "Type to search.\nCtrl+K cycles keep\ntime."@
    } else {
        "https://github.com/pkayokay/omapaste/issues"@
    }
}

/// The keep preset of sample clip `i`.
pub open spec fn seed_keep_spec(i: int) -> Seq<char> {
    if i == 0 || i == 2 {
        "7d"@
    } else {
        "forever"@
    }
}

/// Sample clip `i`: its text and keep preset.
pub fn seed_clip(i: usize) -> (r: (&'static str, &'static str))
    requires
        i < SEED_TEXT_COUNT,
    ensures
        r.0@ == seed_text_spec(i as int),
        r.1@ == seed_keep_spec(i as int),
{
    if i == 0 {
        ("fn greet(name: &str)\n  -> String {\n  format\u{21}(\"hi {name}\")\n}", "7d")
    } else if i == 1 {
        ("\u{2190} \u{2192} select a clip.\nEnter pastes it.\nEsc closes the bar.", "forever")
    } else if i == 2 {
        ("https://omarchy.org", "7d")
    } else if i == 3 {
        ("Type to search.\nCtrl+K cycles keep\ntime.", "forever")
    } else {
        (crate::paths::ISSUES_URL, "forever")
    }
}

/// The name of the file a sample image is kept in: its content hash and
/// `.bin`.
pub fn seed_image_name(payload: &[u8]) -> (r: String)
    ensures
        r@ == clip_digest("image"@, "image/png"@, payload@) + ".bin"@,
{
    let digest = content_hash("image", "image/png", payload);
    let mut out: Vec<char> = Vec::new();
    crate::text::push_str(&mut out, digest.as_str());
    crate::text::push_str(&mut out, ".bin");
    crate::text::string_from_chars(&out)
}

/// A sample image to seed: its keep preset, its PNG bytes, and the path of
/// the file that holds them.
pub struct SeedImage {
    pub keep: String,
    pub payload: Vec<u8>,
    pub path: String,
}

/// The clip that seeding step `i` adds at `stamp`: the sample texts first,
/// then the images.
pub open spec fn seed_new(images: Seq<SeedImage>, i: int, stamp: i64) -> ClipView {
    if i < SEED_TEXT_COUNT {
        let t = seed_text_spec(i);
        new_clip(
            "text"@,
            "text/plain"@,
            encode_utf8(t),
            Some(t),
            preview_of(t, 280),
            None,
            seed_keep_spec(i),
            stamp,
        )
    } else {
        let im = images[i - SEED_TEXT_COUNT];
        new_clip(
            "image"@,
            "image/png"@,
            im.payload@,
            None,
            "Image"@,
            Some(im.path@),
            im.keep@,
            stamp,
        )
    }
}

/// Whether seeding step `i` has an empty payload (and so changes nothing).
pub open spec fn seed_payload_empty(images: Seq<SeedImage>, i: int) -> bool {
    if i < SEED_TEXT_COUNT {
        encode_utf8(seed_text_spec(i)).len() == 0
    } else {
        images[i - SEED_TEXT_COUNT].payload@.len() == 0
    }
}

/// One `add` with cap `max_items` at `stamp` takes `t` to `after`.
pub open spec fn add_step(
    t: Map<i64, ClipView>,
    new: ClipView,
    empty: bool,
    max_items: int,
    stamp: i64,
    after: Map<i64, ClipView>,
) -> bool {
    if empty {
        after == t
    } else {
        exists|r: Option<ClipView>| #[trigger] add_outcome(t, new, max_items, stamp, after, r)
    }
}

/// The keep preset of seeding step `i`.
pub open spec fn seed_keep(images: Seq<SeedImage>, i: int) -> Seq<char> {
    if i < SEED_TEXT_COUNT {
        seed_keep_spec(i)
    } else {
        images[i - SEED_TEXT_COUNT].keep@
    }
}

/// Whether seeding step `i` from `stamp0` can be carried out: the number of
/// samples fits in a `usize`, the step's stamp `stamp0 - i` fits in an `i64`,
/// and so does the expiry of its keep preset from that stamp.
pub open spec fn seed_step_fits(images: Seq<SeedImage>, i: int, stamp0: i64) -> bool {
    &&& SEED_TEXT_COUNT + images.len() <= usize::MAX
    &&& i < i64::MAX
    &&& stamp0 - i >= i64::MIN
    &&& keep_until_fits(seed_keep(images, i), stamp0 - i)
}

/// Seeding from `stamp0` takes `t` through `states` to its last state: step
/// `i` adds sample `i` with the stamp `stamp0 - i` and the cap 200.
pub open spec fn seed_run(
    t: Map<i64, ClipView>,
    images: Seq<SeedImage>,
    stamp0: i64,
    states: Seq<Map<i64, ClipView>>,
) -> bool {
    &&& states.len() >= 1
    &&& states[0] == t
    &&& forall|i: int|
        0 <= i < states.len() - 1 ==> add_step(
            #[trigger] states[i],
            seed_new(images, i, (stamp0 - i) as i64),
            seed_payload_empty(images, i),
            200,
            (stamp0 - i) as i64,
            states[i + 1],
        )
}

impl Store {
    /// The clip with id `clip_id`, if the history holds one.
    pub fn get(&self, clip_id: i64) -> (r: Result<Option<Clip>, StoreError>)
        ensures
            r matches Ok(c) ==> opt_clip_view(c) == table_get(self@, clip_id),
            r matches Err(e) ==> e is Database,
    {
        let rows = match db_load(&self.conn) {
            Ok(rows) => rows,
            Err(e) => return Err(StoreError::Database(e)),
        };
        Ok(take_row(rows, clip_id, Ghost(self@)))
    }

    /// Opens the history on `conn`: creates the clips table and its indexes
    /// when missing and adds the `custom_label` column to an older table. The
    /// rows stay as they were.
    pub fn open(conn: rusqlite::Connection) -> (r: Result<Store, StoreError>)
        ensures
            r matches Ok(s) ==> s@ == clip_table(conn),
            r matches Err(e) ==> e is Database,
    {
        let mut conn = conn;
        match db_create_schema(&mut conn) {
            Ok(()) => {},
            Err(e) => return Err(StoreError::Database(e)),
        }
        match migrate(&mut conn) {
            Ok(()) => {},
            Err(e) => return Err(StoreError::Database(e)),
        }
        Ok(Store { conn })
    }

    /// How many clips the history holds.
    pub fn count(&self) -> (r: Result<i64, StoreError>)
        ensures
            r matches Ok(n) ==> self@.dom().finite() && n == self@.len(),
            r matches Err(e) ==> e is Database,
    {
        let rows = match db_load(&self.conn) {
            Ok(rows) => rows,
            Err(e) => return Err(StoreError::Database(e)),
        };
        proof {
            lemma_rows_count(views(rows@), self@);
        }
        Ok(rows.len() as i64)
    }

    /// Deletes the clip with id `clip_id`, if there is one, and returns its
    /// image path so that the caller can remove the file.
    pub fn delete(&mut self, clip_id: i64) -> (r: Result<Option<String>, StoreError>)
        ensures
            r matches Ok(p) ==> {
                &&& final(self)@ == old(self)@.remove(clip_id)
                &&& opt_view(p) == match table_get(old(self)@, clip_id) {
                    Some(c) => c.image_path,
                    None => None,
                }
            },
            r matches Err(e) ==> e is Database,
    {
        let image = match self.get(clip_id) {
            Ok(Some(c)) => c.image_path,
            Ok(None) => None,
            Err(e) => return Err(e),
        };
        match db_delete(&mut self.conn, clip_id) {
            Ok(_) => Ok(image),
            Err(e) => Err(StoreError::Database(e)),
        }
    }

    /// Marks the clip with id `clip_id` as used at `now` (the clock when `None`).
    pub fn touch(&mut self, clip_id: i64, now: Option<i64>) -> (r: Result<(), StoreError>)
        ensures
            r is Ok ==> exists|stamp: i64|
                stamp_for(now, stamp) && final(self)@ == #[trigger] touched(
                    old(self)@,
                    clip_id,
                    stamp,
                ),
            r matches Err(e) ==> e is Database,
    {
        let stamp = stamp_of(now);
        match db_set_last_used(&mut self.conn, clip_id, stamp) {
            Ok(_) => {
                assert(stamp_for(now, stamp) && self@ == touched(old(self)@, clip_id, stamp));
                Ok(())
            },
            Err(e) => Err(StoreError::Database(e)),
        }
    }

    /// The clips shown at `now` (the clock when `None`) for `query`, most
    /// recently used first: those not expired whose preview, text or custom
    /// label contains the trimmed, lowercased query in lowercase; a blank query
    /// shows them all.
    pub fn list(&self, query: &str, now: Option<i64>) -> (r: Result<Vec<Clip>, StoreError>)
        ensures
            r matches Ok(out) ==> exists|stamp: i64|
                stamp_for(now, stamp) && #[trigger] table_listing(
                    self@,
                    stamp as int,
                    query_needle(query@),
                    views(out@),
                ),
            r matches Err(e) ==> e is Database,
    {
        let stamp = stamp_of(now);
        let rows = match db_load(&self.conn) {
            Ok(rows) => rows,
            Err(e) => return Err(StoreError::Database(e)),
        };
        let ghost vs = views(rows@);
        let trimmed_query = trim(query);
        let needle = to_lowercase(trimmed_query.as_str());
        let out = sort_listing(rows, stamp, Some(needle.as_str()));
        proof {
            lemma_listing_table(vs, self@, stamp as int, needle@, views(out@));
            assert(stamp_for(now, stamp) && table_listing(
                self@,
                stamp as int,
                query_needle(query@),
                views(out@),
            ));
        }
        let r: Result<Vec<Clip>, StoreError> = Ok(out);
        assert(views(r->Ok_0@) == views(out@));
        assert(table_listing(self@, stamp as int, query_needle(query@), views(r->Ok_0@)));
        r
    }

    /// Removes the clips expired at `now` (the clock when `None`), then, while
    /// more than `max_items` remain, the ones that go first: not kept forever,
    /// least recently used, oldest. Returns the image paths of the removed
    /// clips.
    pub fn prune(&mut self, max_items: i64, now: Option<i64>) -> (r: Result<Vec<String>, StoreError>)
        ensures
            r matches Ok(paths) ==> exists|stamp: i64|
                stamp_for(now, stamp) && #[trigger] prune_outcome(
                    old(self)@,
                    max_items as int,
                    stamp as int,
                    final(self)@,
                    string_views(paths@),
                ),
            r matches Err(e) ==> e is Database,
    {
        let stamp = stamp_of(now);
        let rows = match db_load(&self.conn) {
            Ok(rows) => rows,
            Err(e) => return Err(StoreError::Database(e)),
        };
        let ghost vs = views(rows@);
        let ghost t0 = self@;
        let plan = prune_plan(rows, max_items, stamp);
        let mut i: usize = 0;
        while i < plan.remove.len()
            invariant
                0 <= i <= plan.remove@.len(),
                self@ == t0.remove_keys(plan.remove@.take(i as int).to_set()),
            decreases plan.remove@.len() - i,
        {
            let ghost before = self@;
            match db_delete(&mut self.conn, plan.remove[i]) {
                Ok(_) => {},
                Err(e) => return Err(StoreError::Database(e)),
            }
            proof {
                assert(plan.remove@.take(i + 1).to_set() =~= plan.remove@.take(i as int).to_set().insert(
                    plan.remove@[i as int],
                )) by {
                    assert forall|x: i64| plan.remove@.take(i + 1).to_set().contains(x) implies plan.remove@.take(
                        i as int,
                    ).to_set().insert(plan.remove@[i as int]).contains(x) by {
                        let j = choose|j: int| #![trigger plan.remove@.take(i + 1)[j]] 0 <= j < i + 1 && plan.remove@.take(i + 1)[j] == x;
                        if j < i {
                            assert(plan.remove@.take(i as int)[j] == x);
                        }
                    }
                    assert forall|x: i64| plan.remove@.take(i as int).to_set().insert(
                        plan.remove@[i as int],
                    ).contains(x) implies plan.remove@.take(i + 1).to_set().contains(x) by {
                        if x == plan.remove@[i as int] {
                            assert(plan.remove@.take(i + 1)[i as int] == x);
                        } else {
                            let j = choose|j: int| #![trigger plan.remove@.take(i as int)[j]] 0 <= j < i && plan.remove@.take(i as int)[j] == x;
                            assert(plan.remove@.take(i + 1)[j] == x);
                        }
                    }
                }
                assert(self@ =~= t0.remove_keys(plan.remove@.take(i + 1).to_set()));
            }
            i = i + 1;
        }
        proof {
            assert(plan.remove@.take(plan.remove@.len() as int) =~= plan.remove@);
            assert(rows_match(vs, t0));
            assert(is_prune_plan(vs, max_items as int, stamp as int, plan.remove@, string_views(plan.paths@)));
            assert(self@ == t0.remove_keys(plan.remove@.to_set()));
            assert(stamp_for(now, stamp) && prune_outcome(
                t0,
                max_items as int,
                stamp as int,
                self@,
                string_views(plan.paths@),
            ));
        }
        let ghost paths_view = string_views(plan.paths@);
        let r: Result<Vec<String>, StoreError> = Ok(plan.paths);
        assert(string_views(r->Ok_0@) == paths_view);
        assert(prune_outcome(t0, max_items as int, stamp as int, self@, string_views(r->Ok_0@)));
        r
    }

    /// Records a copied payload at `now` (the clock when `None`): an empty
    /// payload is ignored; content already in the history (same kind, MIME
    /// type and payload) is only marked as used, keeping its keep time;
    /// otherwise a new clip kept under `keep_preset` is stored and the
    /// history pruned to `max_items`. Returns the clip as stored.
    pub fn add(
        &mut self,
        kind: &str,
        mime: &str,
        payload: &[u8],
        text: Option<&str>,
        preview: &str,
        image_path: Option<&str>,
        keep_preset: &str,
        max_items: i64,
        now: Option<i64>,
    ) -> (r: Result<Option<Clip>, StoreError>)
        requires
            payload@.len() > 0 ==> (now matches Some(n) ==> keep_until_fits(keep_preset@, n as int)),
        ensures
            payload@.len() == 0 ==> (r matches Ok(c) && c is None) && final(self)@ == old(self)@,
            r matches Ok(c) ==> payload@.len() > 0 ==> exists|stamp: i64|
                stamp_for(now, stamp) && #[trigger] add_outcome(
                    old(self)@,
                    new_clip(
                        kind@,
                        mime@,
                        payload@,
                        opt_str_view(text),
                        preview@,
                        opt_str_view(image_path),
                        keep_preset@,
                        stamp,
                    ),
                    max_items as int,
                    stamp,
                    final(self)@,
                    opt_clip_view(c),
                ),
            r matches Err(StoreError::TimeOutOfRange) ==> now is None && final(self)@ == old(
                self,
            )@ && exists|stamp: i64| !#[trigger] keep_until_fits(keep_preset@, stamp as int),
    {
        if payload.len() == 0 {
            return Ok(None);
        }
        let stamp = stamp_of(now);
        if !keep_fits(keep_preset, stamp) {
            return Err(StoreError::TimeOutOfRange);
        }
        let digest = content_hash(kind, mime, payload);
        let until = keep_until_from(keep_preset, stamp);
        let ghost new = new_clip(
            kind@,
            mime@,
            payload@,
            opt_str_view(text),
            preview@,
            opt_str_view(image_path),
            keep_preset@,
            stamp,
        );
        let ghost t0 = self@;
        let rows = match db_load(&self.conn) {
            Ok(rows) => rows,
            Err(e) => return Err(StoreError::Database(e)),
        };
        match find_hash(&rows, digest.as_str(), Ghost(self@)) {
            Some(id) => {
                match db_set_last_used(&mut self.conn, id, stamp) {
                    Ok(_) => {},
                    Err(e) => return Err(StoreError::Database(e)),
                }
                let r = self.get(id);
                proof {
                    if r is Ok {
                        assert(add_outcome(t0, new, max_items as int, stamp, self@, opt_clip_view(r->Ok_0)));
                    }
                }
                return r;
            },
            None => {},
        }
        let row = Clip {
            id: 0,
            created_at: stamp,
            last_used_at: stamp,
            keep_preset: keep_preset.to_owned(),
            keep_until: until,
            mime: mime.to_owned(),
            kind: kind.to_owned(),
            text: match text {
                Some(t) => Some(t.to_owned()),
                None => None,
            },
            preview: preview.to_owned(),
            hash: digest,
            image_path: match image_path {
                Some(p) => Some(p.to_owned()),
                None => None,
            },
            byte_size: payload.len() as i64,
            custom_label: None,
        };
        assert(row@ == new);
        let id = match db_insert(&mut self.conn, &row) {
            Ok(id) => id,
            Err(e) => return Err(StoreError::Database(e)),
        };
        let ghost t1 = self@;
        match self.prune(max_items, Some(stamp)) {
            Ok(_) => {},
            Err(e) => return Err(e),
        }
        let r = self.get(id);
        proof {
            if r is Ok {
                assert(add_outcome(t0, new, max_items as int, stamp, self@, opt_clip_view(r->Ok_0)));
            }
        }
        r
    }

    /// Seeds a history with the sample clips: the sample texts, then `images`,
    /// each added at the clock's time minus its position so that the first
    /// sample shows first, with the cap 200.
    pub fn seed(&mut self, images: &Vec<SeedImage>) -> (r: Result<(), StoreError>)
        ensures
            r is Ok ==> exists|stamp0: i64, states: Seq<Map<i64, ClipView>>|
                #[trigger] seed_run(old(self)@, images@, stamp0, states) && states.len()
                    == SEED_TEXT_COUNT + images@.len() + 1 && states.last() == final(self)@
                    && forall|i: int|
                    0 <= i < SEED_TEXT_COUNT + images@.len() ==> #[trigger] seed_step_fits(
                        images@,
                        i,
                        stamp0,
                    ),
            r matches Err(StoreError::TimeOutOfRange) ==> exists|
                stamp0: i64,
                states: Seq<Map<i64, ClipView>>,
            |
                #[trigger] seed_run(old(self)@, images@, stamp0, states) && states.len()
                    <= SEED_TEXT_COUNT + images@.len() && states.last() == final(self)@
                    && !seed_step_fits(images@, states.len() - 1, stamp0),
    {
        let stamp0 = now_secs();
        let ghost mut states: Seq<Map<i64, ClipView>> = seq![self@];
        let total: usize = if images.len() <= usize::MAX - SEED_TEXT_COUNT {
            SEED_TEXT_COUNT + images.len()
        } else {
            proof {
                assert(seed_run(old(self)@, images@, stamp0, states));
                assert(!seed_step_fits(images@, states.len() - 1, stamp0));
            }
            return Err(StoreError::TimeOutOfRange);
        };
        let mut i: usize = 0;
        let mut order: i64 = 0;
        while i < total
            invariant
                0 <= i <= total,
                total == SEED_TEXT_COUNT + images@.len(),
                order == i,
                states.len() == i + 1,
                states.last() == self@,
                seed_run(old(self)@, images@, stamp0, states),
                forall|k: int| 0 <= k < i ==> #[trigger] seed_step_fits(images@, k, stamp0),
            decreases total - i,
        {
            if order == i64::MAX || stamp0 < i64::MIN + order {
                assert(!seed_step_fits(images@, states.len() - 1, stamp0));
                return Err(StoreError::TimeOutOfRange);
            }
            let stamp = stamp0 - order;
            let ghost before = self@;
            let r = if i < SEED_TEXT_COUNT {
                let (text, keep) = seed_clip(i);
                if !keep_fits(keep, stamp) {
                    assert(!seed_step_fits(images@, states.len() - 1, stamp0));
                    return Err(StoreError::TimeOutOfRange);
                }
                let preview = make_preview(text, 280);
                self.add(
                    "text",
                    "text/plain",
                    text.as_bytes(),
                    Some(text),
                    preview.as_str(),
                    None,
                    keep,
                    200,
                    Some(stamp),
                )
            } else {
                let im = &images[i - SEED_TEXT_COUNT];
                if !keep_fits(im.keep.as_str(), stamp) {
                    assert(im.keep@ == seed_keep(images@, i as int));
                    assert(!seed_step_fits(images@, states.len() - 1, stamp0));
                    return Err(StoreError::TimeOutOfRange);
                }
                self.add(
                    "image",
                    "image/png",
                    im.payload.as_slice(),
                    None,
                    "Image",
                    Some(im.path.as_str()),
                    im.keep.as_str(),
                    200,
                    Some(stamp),
                )
            };
            match r {
                Ok(c) => {
                    proof {
                        reveal_strlit("text");
                        reveal_strlit("text/plain");
                        reveal_strlit("image");
                        reveal_strlit("image/png");
                        reveal_strlit("Image");
                        let new = seed_new(images@, i as int, stamp);
                        let empty = seed_payload_empty(images@, i as int);
                        if !empty {
                            assert(add_outcome(before, new, 200, stamp, self@, opt_clip_view(c)));
                        }
                        assert(add_step(before, new, empty, 200, stamp, self@));
                        let next = states.push(self@);
                        assert forall|j: int| 0 <= j < next.len() - 1 implies add_step(
                            #[trigger] next[j],
                            seed_new(images@, j, (stamp0 - j) as i64),
                            seed_payload_empty(images@, j),
                            200,
                            (stamp0 - j) as i64,
                            next[j + 1],
                        ) by {
                            if j < i {
                                assert(next[j] == states[j] && next[j + 1] == states[j + 1]);
                            } else {
                                assert(next[j] == before && next[j + 1] == self@);
                            }
                        }
                        states = next;
                    }
                },
                Err(e) => return Err(e),
            }
            i = i + 1;
            order = order + 1;
        }
        Ok(())
    }

    /// Keeps the clip with id `clip_id` under `preset` from `now` (the clock
    /// when `None`) and returns it as stored; an unknown preset changes
    /// nothing.
    pub fn set_keep(&mut self, clip_id: i64, preset: &str, now: Option<i64>) -> (r: Result<
        Option<Clip>,
        StoreError,
    >)
        requires
            preset_index(preset@) is Some ==> (now matches Some(n) ==> keep_until_fits(
                preset@,
                n as int,
            )),
        ensures
            r matches Ok(c) ==> {
                &&& preset_index(preset@) is None ==> final(self)@ == old(self)@
                &&& preset_index(preset@) is Some ==> exists|stamp: i64|
                    stamp_for(now, stamp) && final(self)@ == #[trigger] rekept(
                        old(self)@,
                        clip_id,
                        preset@,
                        until_for(preset@, stamp as int),
                    )
                &&& opt_clip_view(c) == table_get(final(self)@, clip_id)
            },
            r matches Err(StoreError::TimeOutOfRange) ==> now is None && final(self)@ == old(
                self,
            )@ && exists|stamp: i64| !#[trigger] keep_until_fits(preset@, stamp as int),
    {
        if keep_by_key(preset).is_none() {
            return self.get(clip_id);
        }
        let stamp = stamp_of(now);
        if !keep_fits(preset, stamp) {
            return Err(StoreError::TimeOutOfRange);
        }
        let until = keep_until_from(preset, stamp);
        match db_set_keep(&mut self.conn, clip_id, preset, until) {
            Ok(_) => {},
            Err(e) => return Err(StoreError::Database(e)),
        }
        proof {
            assert(rekept(old(self)@, clip_id, preset@, until_for(preset@, stamp as int))
                == self@);
        }
        self.get(clip_id)
    }

    /// Sets the custom label of the clip with id `clip_id` (trimmed; blank or
    /// `None` clears it) and returns the clip as stored.
    pub fn set_custom_label(&mut self, clip_id: i64, label: Option<&str>) -> (r: Result<
        Option<Clip>,
        StoreError,
    >)
        ensures
            r matches Ok(c) ==> {
                &&& final(self)@ == relabeled(old(self)@, clip_id, label_value(opt_str_view(label)))
                &&& opt_clip_view(c) == table_get(final(self)@, clip_id)
            },
            r matches Err(e) ==> e is Database,
    {
        let value: Option<String> = match label {
            Some(l) => {
                let t = trim(l);
                if t.as_str().is_empty() {
                    None
                } else {
                    Some(t)
                }
            },
            None => None,
        };
        let stored: Option<&str> = match &value {
            Some(v) => Some(v.as_str()),
            None => None,
        };
        match db_set_label(&mut self.conn, clip_id, stored) {
            Ok(_) => {},
            Err(e) => return Err(StoreError::Database(e)),
        }
        self.get(clip_id)
    }
}

} // verus!
