//! The messages that windows, the registry and the persistence gateway
//! exchange.

use vstd::prelude::*;
use crate::row::{OpenWindow, OpenWindowView};

verus! {

/// A lifecycle or persistence event. Events are handled one at a time, in
/// the order in which they were sent.
#[derive(Debug)]
pub enum GlobalAppMsg {
    /// Open a window with default contents under a fresh id.
    OpenEmptyWindow,
    /// Open a window from a stored row, under the row's id.
    Restore(OpenWindow),
    /// Store the row, in place of any row with its id.
    SaveWindowState(OpenWindow),
    /// Close the window with this id and delete its row.
    CloseWindow(usize),
    /// Close every window; the last event of a session.
    CloseApp,
}

/// What the durable store has to do for one event.
#[derive(Debug)]
pub enum DbCommand {
    /// Nothing.
    Nothing,
    /// Insert the row, or replace the row with its id.
    Upsert(OpenWindow),
    /// Delete the row with this id, if there is one.
    Delete(usize),
}

/// The mathematical value of a `DbCommand`.
pub enum DbCommandView {
    Nothing,
    Upsert(OpenWindowView),
    Delete(nat),
}

impl View for DbCommand {
    type V = DbCommandView;

    open spec fn view(&self) -> DbCommandView {
        match self {
            DbCommand::Nothing => DbCommandView::Nothing,
            DbCommand::Upsert(row) => DbCommandView::Upsert(row@),
            DbCommand::Delete(id) => DbCommandView::Delete(*id as nat),
        }
    }
}

/// The command that an event asks of the durable store: a save upserts its
/// row, a close of a window deletes that window's row, and the other events
/// ask nothing.
pub open spec fn command_of(msg: GlobalAppMsg) -> DbCommandView {
    match msg {
        GlobalAppMsg::SaveWindowState(row) => DbCommandView::Upsert(row@),
        GlobalAppMsg::CloseWindow(id) => DbCommandView::Delete(id as nat),
        _ => DbCommandView::Nothing,
    }
}

/// The stored rows after a command.
pub open spec fn rows_after(rows: Map<nat, OpenWindowView>, command: DbCommandView) -> Map<
    nat,
    OpenWindowView,
> {
    match command {
        DbCommandView::Nothing => rows,
        DbCommandView::Upsert(row) => rows.insert(row.id, row),
        DbCommandView::Delete(id) => rows.remove(id),
    }
}

/// Upserting the same row a second time changes nothing, and deleting an id
/// that has no row changes nothing.
pub proof fn lemma_upsert_idempotent(rows: Map<nat, OpenWindowView>, row: OpenWindowView, id: nat)
    ensures
        rows_after(rows_after(rows, DbCommandView::Upsert(row)), DbCommandView::Upsert(row))
            == rows_after(rows, DbCommandView::Upsert(row)),
        !rows.contains_key(id) ==> rows_after(rows, DbCommandView::Delete(id)) == rows,
{
    let once = rows_after(rows, DbCommandView::Upsert(row));
    assert(once.insert(row.id, row) =~= once);
    if !rows.contains_key(id) {
        assert(rows.remove(id) =~= rows);
    }
}

} // verus!
