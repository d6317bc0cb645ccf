//! Rows of the table of cursors: how far each stream has been processed.

use vstd::prelude::*;

verus! {

/// The kind of stream a cursor belongs to.
#[derive(Clone, Copy, Debug, PartialEq, Eq, Structural)]
pub enum EntityKind {
    /// The welcomes sent to an installation.
    Welcome,
    /// The messages of a group.
    Group,
    /// The identity updates of an inbox.
    IdentityUpdate,
}

/// The cursor of one stream.
#[derive(Debug, PartialEq, Eq)]
pub struct RefreshState {
    pub entity_id: Vec<u8>,
    pub entity_kind: EntityKind,
    pub cursor: u64,
}

/// The mathematical value of a cursor row.
pub struct CursorRow {
    pub entity_id: Seq<u8>,
    pub entity_kind: EntityKind,
    pub cursor: u64,
}

impl View for RefreshState {
    type V = CursorRow;

    open spec fn view(&self) -> CursorRow {
        CursorRow { entity_id: self.entity_id@, entity_kind: self.entity_kind, cursor: self.cursor }
    }
}

/// The cursor that the rows hold for a stream: that of the last row for the
/// stream, and 0 where there is none.
pub open spec fn cursor_of(rows: Seq<CursorRow>, entity_id: Seq<u8>, entity_kind: EntityKind) -> u64
    decreases rows.len(),
{
    if rows.len() == 0 {
        0
    } else if rows.last().entity_id == entity_id && rows.last().entity_kind == entity_kind {
        rows.last().cursor
    } else {
        cursor_of(rows.drop_last(), entity_id, entity_kind)
    }
}

/// Whether a row is the row of the stream.
pub open spec fn is_cursor_of(row: CursorRow, entity_id: Seq<u8>, entity_kind: EntityKind) -> bool {
    row.entity_id == entity_id && row.entity_kind == entity_kind
}

/// A new last row decides the cursor of its stream and of no other.
pub proof fn lemma_cursor_after_push(
    rows: Seq<CursorRow>,
    row: CursorRow,
    entity_id: Seq<u8>,
    entity_kind: EntityKind,
)
    ensures
        cursor_of(rows.push(row), entity_id, entity_kind) == if is_cursor_of(
            row,
            entity_id,
            entity_kind,
        ) {
            row.cursor
        } else {
            cursor_of(rows, entity_id, entity_kind)
        },
{
    assert(rows.push(row).drop_last() =~= rows);
}

/// Where no row is of the stream, its cursor is 0.
pub proof fn lemma_cursor_of_absent(rows: Seq<CursorRow>, entity_id: Seq<u8>, entity_kind: EntityKind)
    requires
        forall|k: int| 0 <= k < rows.len() ==> !is_cursor_of(#[trigger] rows[k], entity_id, entity_kind),
    ensures
        cursor_of(rows, entity_id, entity_kind) == 0,
    decreases rows.len(),
{
    if rows.len() > 0 {
        assert(!is_cursor_of(rows[rows.len() - 1], entity_id, entity_kind));
        lemma_cursor_of_absent(rows.drop_last(), entity_id, entity_kind);
    }
}

/// The cursor of a stream is that of its last row.
pub proof fn lemma_cursor_of_last_row(
    rows: Seq<CursorRow>,
    at: int,
    entity_id: Seq<u8>,
    entity_kind: EntityKind,
)
    requires
        0 <= at < rows.len(),
        is_cursor_of(rows[at], entity_id, entity_kind),
        forall|k: int| at < k < rows.len() ==> !is_cursor_of(#[trigger] rows[k], entity_id, entity_kind),
    ensures
        cursor_of(rows, entity_id, entity_kind) == rows[at].cursor,
    decreases rows.len(),
{
    if at < rows.len() - 1 {
        assert(!is_cursor_of(rows[rows.len() - 1], entity_id, entity_kind));
        lemma_cursor_of_last_row(rows.drop_last(), at, entity_id, entity_kind);
    }
}

/// Writing a cursor into the last row of a stream changes the cursor of that
/// stream and of no other.
pub proof fn lemma_cursor_after_update(
    rows: Seq<CursorRow>,
    at: int,
    cursor: u64,
    entity_id: Seq<u8>,
    entity_kind: EntityKind,
    other_id: Seq<u8>,
    other_kind: EntityKind,
)
    requires
        0 <= at < rows.len(),
        is_cursor_of(rows[at], entity_id, entity_kind),
        forall|k: int| at < k < rows.len() ==> !is_cursor_of(#[trigger] rows[k], entity_id, entity_kind),
    ensures
        cursor_of(rows.update(at, CursorRow { cursor, ..rows[at] }), other_id, other_kind) == if other_id
            == entity_id && other_kind == entity_kind {
            cursor
        } else {
            cursor_of(rows, other_id, other_kind)
        },
    decreases rows.len(),
{
    let changed = rows.update(at, CursorRow { cursor, ..rows[at] });
    if at == rows.len() - 1 {
        assert(changed.drop_last() =~= rows.drop_last());
    } else {
        assert(!is_cursor_of(rows[rows.len() - 1], entity_id, entity_kind));
        assert(changed.drop_last() =~= rows.drop_last().update(at, CursorRow { cursor, ..rows[at] }));
        lemma_cursor_after_update(
            rows.drop_last(),
            at,
            cursor,
            entity_id,
            entity_kind,
            other_id,
            other_kind,
        );
    }
}

} // verus!
