//! The row set of the persistence gateway: one row per open window, keyed by
//! the window's id.

use vstd::prelude::*;
use crate::ids::{counter_step, AllocStep, IdAllocator};
use crate::messages::{command_of, rows_after, DbCommand, DbCommandView, GlobalAppMsg};
use crate::row::{OpenWindow, OpenWindowView};

verus! {

/// The rows of the open-window relation. No two rows share an id.
pub struct OpenWindowStore {
    rows: Vec<OpenWindow>,
}

/// Whether some row of `rows` has the id `id`.
pub open spec fn has_id(rows: Seq<OpenWindow>, id: nat) -> bool {
    exists|i: int| 0 <= i < rows.len() && #[trigger] rows[i].id == id
}

/// The position of the row with the id `id`.
pub open spec fn position_of(rows: Seq<OpenWindow>, id: nat) -> int {
    choose|i: int| 0 <= i < rows.len() && #[trigger] rows[i].id == id
}

/// No two rows share an id.
pub open spec fn ids_unique(rows: Seq<OpenWindow>) -> bool {
    forall|i: int, j: int|
        0 <= i < rows.len() && 0 <= j < rows.len() && #[trigger] rows[i].id == #[trigger] rows[j].id
            ==> i == j
}

/// The rows as a map from id to row.
pub open spec fn rows_as_map(rows: Seq<OpenWindow>) -> Map<nat, OpenWindowView> {
    Map::new(|id: nat| has_id(rows, id), |id: nat| rows[position_of(rows, id)]@)
}

/// The greatest id among `rows`, or `None` where there is no row.
pub open spec fn max_id(rows: Seq<OpenWindow>) -> Option<nat>
    decreases rows.len(),
{
    if rows.len() == 0 {
        None
    } else {
        match max_id(rows.drop_last()) {
            Some(m) => if rows.last().id > m {
                Some(rows.last().id as nat)
            } else {
                Some(m)
            },
            None => Some(rows.last().id as nat),
        }
    }
}

impl OpenWindowStore {
    /// The store's invariant: ids are unique.
    pub closed spec fn wf(&self) -> bool {
        ids_unique(self.rows@)
    }

    /// An empty store.
    pub fn new() -> (store: Self)
        ensures
            store.wf(),
            store@ == Map::<nat, OpenWindowView>::empty(),
            store.greatest_id() is None,
    {
        let store = OpenWindowStore { rows: Vec::new() };
        assert(store@ =~= Map::<nat, OpenWindowView>::empty());
        store
    }

    fn find(&self, id: usize) -> (found: Option<usize>)
        requires
            self.wf(),
        ensures
            match found {
                Some(k) => k < self.rows@.len() && self.rows@[k as int].id == id,
                None => !has_id(self.rows@, id as nat),
            },
    {
        let mut i: usize = 0;
        while i < self.rows.len()
            invariant
                i <= self.rows@.len(),
                forall|k: int| 0 <= k < i ==> self.rows@[k].id != id,
            decreases self.rows@.len() - i,
        {
            if self.rows[i].id == id {
                return Some(i);
            }
            i += 1;
        }
        None
    }

    /// Inserts `row`, or replaces the row that has its id.
    pub fn upsert(&mut self, row: OpenWindow)
        requires
            old(self).wf(),
        ensures
            final(self).wf(),
            final(self)@ == old(self)@.insert(row@.id, row@),
    {
        let ghost before = self.rows@;
        match self.find(row.id) {
            Some(k) => {
                self.rows[k] = row;
                proof {
                    let after = self.rows@;
                    assert forall|id: nat| has_id(after, id) == (has_id(before, id) || id == row@.id) by {
                        if has_id(before, id) {
                            let p = position_of(before, id);
                            assert(after[p].id == id);
                        }
                        if id == row@.id {
                            assert(after[k as int].id == id);
                        }
                        if has_id(after, id) {
                            let p = position_of(after, id);
                            if p != k {
                                assert(before[p].id == id);
                            }
                        }
                    }
                    assert forall|id: nat| has_id(after, id) implies rows_as_map(after)[id] == (
                    if id == row@.id {
                        row@
                    } else {
                        rows_as_map(before)[id]
                    }) by {
                        let p = position_of(after, id);
                        if id != row@.id {
                            assert(before[p].id == id);
                            let q = position_of(before, id);
                            assert(before[q].id == before[p].id);
                        } else {
                            assert(after[p].id == after[k as int].id);
                        }
                    }
                    assert(rows_as_map(after) =~= rows_as_map(before).insert(row@.id, row@));
                }
            },
            None => {
                self.rows.push(row);
                proof {
                    let after = self.rows@;
                    let last = after.len() - 1;
                    assert forall|id: nat| has_id(after, id) == (has_id(before, id) || id == row@.id) by {
                        if has_id(before, id) {
                            let p = position_of(before, id);
                            assert(after[p].id == id);
                        }
                        if id == row@.id {
                            assert(after[last].id == id);
                        }
                        if has_id(after, id) {
                            let p = position_of(after, id);
                            if p != last {
                                assert(before[p].id == id);
                            }
                        }
                    }
                    assert forall|id: nat| has_id(after, id) implies rows_as_map(after)[id] == (
                    if id == row@.id {
                        row@
                    } else {
                        rows_as_map(before)[id]
                    }) by {
                        let p = position_of(after, id);
                        if id != row@.id {
                            assert(before[p].id == id);
                            let q = position_of(before, id);
                            assert(before[q].id == before[p].id);
                        } else {
                            assert(after[p].id == after[last].id);
                        }
                    }
                    assert(rows_as_map(after) =~= rows_as_map(before).insert(row@.id, row@));
                }
            },
        }
    }

    /// Removes the row with the id `id`; a store without such a row stays
    /// as it is.
    pub fn delete(&mut self, id: usize)
        requires
            old(self).wf(),
        ensures
            final(self).wf(),
            final(self)@ == old(self)@.remove(id as nat),
    {
        let ghost before = self.rows@;
        match self.find(id) {
            Some(k) => {
                self.rows.remove(k);
                proof {
                    let after = self.rows@;
                    assert(after =~= before.remove(k as int));
                    assert forall|i: int| 0 <= i < after.len() implies after[i] == before[if i < k {
                        i
                    } else {
                        i + 1
                    }] by {}
                    assert forall|nid: nat| has_id(after, nid) == (has_id(before, nid) && nid != id) by {
                        if has_id(before, nid) && nid != id {
                            let p = position_of(before, nid);
                            if p < k {
                                assert(after[p].id == nid);
                            } else {
                                assert(after[p - 1].id == nid);
                            }
                        }
                        if has_id(after, nid) {
                            let p = position_of(after, nid);
                            let q = if p < k { p } else { p + 1 };
                            assert(before[q].id == nid);
                        }
                    }
                    assert forall|nid: nat| has_id(after, nid) implies rows_as_map(after)[nid]
                        == rows_as_map(before)[nid] by {
                        let p = position_of(after, nid);
                        let q = if p < k { p } else { p + 1 };
                        assert(before[q].id == nid);
                        let r = position_of(before, nid);
                        assert(before[r].id == before[q].id);
                    }
                    assert(rows_as_map(after) =~= rows_as_map(before).remove(id as nat));
                }
            },
            None => {
                assert(self@ =~= self@.remove(id as nat));
            },
        }
    }

    /// Every stored row: one row for each id of the store, equal to the row
    /// stored under it.
    pub fn fetch_all(&self) -> (rows: Vec<OpenWindow>)
        requires
            self.wf(),
        ensures
            ids_unique(rows@),
            rows_as_map(rows@) == self@,
            max_id(rows@) == self.greatest_id(),
    {
        let mut out: Vec<OpenWindow> = Vec::new();
        let mut i: usize = 0;
        while i < self.rows.len()
            invariant
                i <= self.rows@.len(),
                out@.len() == i,
                forall|k: int| 0 <= k < i ==> out@[k]@ == self.rows@[k]@,
            decreases self.rows@.len() - i,
        {
            out.push(self.rows[i].duplicate());
            i += 1;
        }
        proof {
            lemma_same_views_same_map(out@, self.rows@);
            lemma_same_ids_same_max(out@, self.rows@);
        }
        out
    }

    /// The greatest id of the store, or `None` where it holds no row.
    pub closed spec fn greatest_id(&self) -> Option<nat> {
        max_id(self.rows@)
    }

    /// The greatest id of the store is the greatest key of its map.
    pub proof fn lemma_greatest_id(&self)
        ensures
            self.greatest_id() == greatest_key(self@),
    {
        lemma_max_id_is_greatest_key(self.rows@);
    }
}

impl View for OpenWindowStore {
    type V = Map<nat, OpenWindowView>;

    closed spec fn view(&self) -> Map<nat, OpenWindowView> {
        rows_as_map(self.rows@)
    }
}

/// Two row sequences that agree row by row have the same ids and stand for
/// the same map.
pub proof fn lemma_same_views_same_map(a: Seq<OpenWindow>, b: Seq<OpenWindow>)
    requires
        a.len() == b.len(),
        forall|k: int| 0 <= k < a.len() ==> a[k]@ == b[k]@,
        ids_unique(b),
    ensures
        ids_unique(a),
        rows_as_map(a) == rows_as_map(b),
{
    assert forall|k: int| 0 <= k < a.len() implies a[k].id == b[k].id by {
        assert(a[k]@.id == b[k]@.id);
    }
    assert forall|id: nat| has_id(a, id) == has_id(b, id) by {
        if has_id(a, id) {
            let p = position_of(a, id);
            assert(b[p].id == id);
        }
        if has_id(b, id) {
            let p = position_of(b, id);
            assert(a[p].id == id);
        }
    }
    assert forall|id: nat| has_id(a, id) implies rows_as_map(a)[id] == rows_as_map(b)[id] by {
        let p = position_of(a, id);
        let q = position_of(b, id);
        assert(b[p].id == b[q].id);
    }
    assert(rows_as_map(a) =~= rows_as_map(b));
}

/// Two row sequences that agree row by row have the same greatest id.
pub proof fn lemma_same_ids_same_max(a: Seq<OpenWindow>, b: Seq<OpenWindow>)
    requires
        a.len() == b.len(),
        forall|k: int| 0 <= k < a.len() ==> a[k]@ == b[k]@,
    ensures
        max_id(a) == max_id(b),
    decreases a.len(),
{
    if a.len() > 0 {
        assert(a.last()@.id == b.last()@.id);
        lemma_same_ids_same_max(a.drop_last(), b.drop_last());
    }
}

/// The greatest id of a row sequence is the id of one of its rows, and no
/// row has a greater one.
pub proof fn lemma_max_id_is_greatest(rows: Seq<OpenWindow>)
    ensures
        rows.len() == 0 <==> max_id(rows) is None,
        max_id(rows) is Some ==> has_id(rows, max_id(rows)->0),
        forall|i: int| 0 <= i < rows.len() ==> (#[trigger] rows[i]).id <= max_id(rows)->0,
    decreases rows.len(),
{
    if rows.len() > 0 {
        let front = rows.drop_last();
        lemma_max_id_is_greatest(front);
        let last = rows.len() - 1;
        assert(rows[last].id == rows.last().id);
        if max_id(rows)->0 == rows.last().id {
            assert(has_id(rows, max_id(rows)->0));
        } else {
            let p = position_of(front, max_id(front)->0);
            assert(rows[p].id == max_id(rows)->0);
        }
        assert forall|i: int| 0 <= i < rows.len() implies (#[trigger] rows[i]).id <= max_id(
            rows,
        )->0 by {
            if i < last {
                assert(front[i].id <= max_id(front)->0);
            }
        }
    }
}

/// After an upsert of `row`, whatever was stored before, the fetched rows
/// hold a row equal to `row`, and hold no second row with its id.
pub proof fn lemma_upserted_row_is_fetched(
    before: Map<nat, OpenWindowView>,
    row: OpenWindowView,
    fetched: Seq<OpenWindow>,
)
    requires
        ids_unique(fetched),
        rows_as_map(fetched) == rows_after(before, DbCommandView::Upsert(row)),
    ensures
        exists|i: int| 0 <= i < fetched.len() && (#[trigger] fetched[i])@ == row,
        forall|i: int, j: int|
            0 <= i < fetched.len() && 0 <= j < fetched.len() && (#[trigger] fetched[i]).id
                == row.id && (#[trigger] fetched[j]).id == row.id ==> i == j,
{
    assert(rows_as_map(fetched).contains_key(row.id));
    let p = position_of(fetched, row.id);
    assert(rows_as_map(fetched)[row.id] == fetched[p]@);
    assert(fetched[p]@ == row);
}

/// After a delete of `id`, whatever was stored before, no fetched row has
/// the id `id`.
pub proof fn lemma_deleted_row_is_not_fetched(
    before: Map<nat, OpenWindowView>,
    id: nat,
    fetched: Seq<OpenWindow>,
)
    requires
        rows_as_map(fetched) == rows_after(before, DbCommandView::Delete(id)),
    ensures
        forall|i: int| 0 <= i < fetched.len() ==> (#[trigger] fetched[i]).id != id,
{
    assert forall|i: int| 0 <= i < fetched.len() implies (#[trigger] fetched[i]).id != id by {
        if fetched[i].id == id {
            assert(has_id(fetched, id));
            assert(rows_as_map(fetched).contains_key(id));
        }
    }
}

/// Whether `k` is a key of `rows` and no key of `rows` is greater.
pub open spec fn is_greatest_key(rows: Map<nat, OpenWindowView>, k: nat) -> bool {
    rows.contains_key(k) && forall|j: nat| rows.contains_key(j) ==> j <= k
}

/// The greatest key of `rows`, or `None` where `rows` has no greatest key,
/// as where it is empty.
pub open spec fn greatest_key(rows: Map<nat, OpenWindowView>) -> Option<nat> {
    if exists|k: nat| is_greatest_key(rows, k) {
        Some(choose|k: nat| is_greatest_key(rows, k))
    } else {
        None
    }
}

/// The greatest id of a row sequence is the greatest key of its map.
pub proof fn lemma_max_id_is_greatest_key(rows: Seq<OpenWindow>)
    ensures
        max_id(rows) == greatest_key(rows_as_map(rows)),
{
    lemma_max_id_is_greatest(rows);
    let stored = rows_as_map(rows);
    if rows.len() == 0 {
        assert forall|k: nat| !is_greatest_key(stored, k) by {
            if stored.contains_key(k) {
                let p = position_of(rows, k);
                assert(0 <= p < rows.len());
            }
        }
    } else {
        let m = max_id(rows)->0;
        assert(stored.contains_key(m));
        assert forall|j: nat| stored.contains_key(j) implies j <= m by {
            let p = position_of(rows, j);
            assert(rows[p].id == j);
        }
        assert(is_greatest_key(stored, m));
        let k = choose|k: nat| is_greatest_key(stored, k);
        assert(is_greatest_key(stored, k));
        assert(k <= m && m <= k);
    }
}

/// The rows that a list of fetched rows loads: each row under its id, a
/// later row in place of an earlier one with the same id.
pub open spec fn loaded(rows: Seq<OpenWindow>) -> Map<nat, OpenWindowView>
    decreases rows.len(),
{
    if rows.len() == 0 {
        Map::empty()
    } else {
        loaded(rows.drop_last()).insert(rows.last()@.id, rows.last()@)
    }
}

/// The restore messages for fetched rows: one per row, in their order.
pub open spec fn is_restore_of(msgs: Seq<GlobalAppMsg>, rows: Seq<OpenWindow>) -> bool {
    &&& msgs.len() == rows.len()
    &&& forall|i: int|
        0 <= i < msgs.len() ==> (#[trigger] msgs[i]) is Restore && msgs[i]->Restore_0@ == rows[i]@
}

/// The allocator's counter after a restore of rows with this greatest id.
pub open spec fn counter_after_restore(counter: nat, greatest: Option<nat>) -> nat {
    match greatest {
        Some(m) => if m < usize::MAX {
            counter_step(counter, AllocStep::AdvancePast(m as usize))
        } else if counter > usize::MAX - 1 {
            counter
        } else {
            usize::MAX as nat
        },
        None => counter,
    }
}

/// The persistence gateway's rows as the session knows them. Each event
/// changes them as the command that `handle` returns changes the durable
/// store.
pub struct LeGrillonDb {
    store: OpenWindowStore,
}

impl View for LeGrillonDb {
    type V = Map<nat, OpenWindowView>;

    closed spec fn view(&self) -> Map<nat, OpenWindowView> {
        self.store@
    }
}

impl LeGrillonDb {
    /// The gateway's invariant: that of its store.
    pub closed spec fn wf(&self) -> bool {
        self.store.wf()
    }

    /// The greatest stored id, or `None` where no row is stored.
    pub closed spec fn greatest_id(&self) -> Option<nat> {
        self.store.greatest_id()
    }

    /// The greatest stored id is the greatest key of the stored rows.
    pub proof fn lemma_greatest_id(&self)
        ensures
            self.greatest_id() == greatest_key(self@),
    {
        self.store.lemma_greatest_id();
    }

    /// A gateway over the rows that the durable store held at startup.
    pub fn new(rows: Vec<OpenWindow>) -> (db: Self)
        ensures
            db.wf(),
            db@ == loaded(rows@),
    {
        let mut store = OpenWindowStore::new();
        let mut i: usize = 0;
        assert(rows@.take(0) =~= Seq::empty());
        while i < rows.len()
            invariant
                i <= rows@.len(),
                store.wf(),
                store@ == loaded(rows@.take(i as int)),
            decreases rows@.len() - i,
        {
            proof {
                assert(rows@.take(i + 1).drop_last() =~= rows@.take(i as int));
                assert(rows@.take(i + 1).last() == rows@[i as int]);
            }
            store.upsert(rows[i].duplicate());
            i += 1;
        }
        assert(rows@.take(i as int) =~= rows@);
        LeGrillonDb { store }
    }

    /// Takes one event: a save upserts its row, a close of a window deletes
    /// that window's row, every other event leaves the rows alone. Returns
    /// the same change as a command for the durable store.
    pub fn handle(&mut self, msg: &GlobalAppMsg) -> (command: DbCommand)
        requires
            old(self).wf(),
        ensures
            final(self).wf(),
            command@ == command_of(*msg),
            final(self)@ == rows_after(old(self)@, command_of(*msg)),
    {
        match msg {
            GlobalAppMsg::SaveWindowState(row) => {
                self.store.upsert(row.duplicate());
                DbCommand::Upsert(row.duplicate())
            },
            GlobalAppMsg::CloseWindow(id) => {
                self.store.delete(*id);
                DbCommand::Delete(*id)
            },
            _ => DbCommand::Nothing,
        }
    }

    /// Every stored row: one for each stored id.
    pub fn fetch_all(&self) -> (rows: Vec<OpenWindow>)
        requires
            self.wf(),
        ensures
            ids_unique(rows@),
            rows_as_map(rows@) == self@,
            max_id(rows@) == self.greatest_id(),
    {
        self.store.fetch_all()
    }

    /// Prepares the restore: one `Restore` message for each stored row, and
    /// the allocator moved past the greatest stored id, so that no id handed
    /// out later is the id of a restored window.
    pub fn restore(&self, ids: &mut IdAllocator) -> (msgs: Vec<GlobalAppMsg>)
        requires
            self.wf(),
        ensures
            exists|rows: Seq<OpenWindow>|
                ids_unique(rows) && rows_as_map(rows) == self@ && #[trigger] is_restore_of(
                    msgs@,
                    rows,
                ),
            final(ids).upcoming() == counter_after_restore(
                old(ids).upcoming(),
                self.greatest_id(),
            ),
            forall|id: nat|
                self@.contains_key(id) && id < usize::MAX ==> id < final(ids).upcoming(),
    {
        let rows = self.fetch_all();
        let ghost fetched = rows@;
        proof {
            lemma_max_id_is_greatest(fetched);
            assert forall|id: nat| self@.contains_key(id) implies id <= max_id(fetched)->0 by {
                let p = position_of(fetched, id);
                assert(fetched[p].id == id);
            }
        }
        let mut greatest: Option<usize> = None;
        let mut msgs: Vec<GlobalAppMsg> = Vec::new();
        let mut i: usize = 0;
        assert(rows@.take(0) =~= Seq::empty());
        while i < rows.len()
            invariant
                i <= rows@.len(),
                rows@ == fetched,
                msgs@.len() == i,
                forall|k: int|
                    0 <= k < i ==> (#[trigger] msgs@[k]) is Restore && msgs@[k]->Restore_0@
                        == rows@[k]@,
                match greatest {
                    Some(m) => max_id(rows@.take(i as int)) == Some(m as nat),
                    None => max_id(rows@.take(i as int)) is None,
                },
            decreases rows@.len() - i,
        {
            proof {
                assert(rows@.take(i + 1).drop_last() =~= rows@.take(i as int));
                assert(rows@.take(i + 1).last() == rows@[i as int]);
            }
            let id: usize = rows[i].id;
            greatest = match greatest {
                Some(m) => if id > m {
                    Some(id)
                } else {
                    Some(m)
                },
                None => Some(id),
            };
            msgs.push(GlobalAppMsg::Restore(rows[i].duplicate()));
            i += 1;
        }
        assert(rows@.take(i as int) =~= rows@);
        match greatest {
            Some(m) => {
                if m < usize::MAX {
                    ids.advance_past(m);
                } else {
                    ids.advance_past(usize::MAX - 1);
                }
            },
            None => {},
        }
        assert(is_restore_of(msgs@, fetched));
        msgs
    }
}

} // verus!
