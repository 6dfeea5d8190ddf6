//! The registry of open request windows: it takes the events of a session
//! in order, keeps the windows by id, and passes each event on to the
//! persistence gateway.

use vstd::prelude::*;
use crate::db::{
    counter_after_restore,
    ids_unique,
    is_restore_of,
    lemma_same_views_same_map,
    rows_as_map,
    LeGrillonDb,
};
use crate::controls::MainControls;
use crate::ids::IdAllocator;
use crate::messages::{command_of, rows_after, DbCommand, DbCommandView, GlobalAppMsg};
use crate::req_window::{
    completed,
    empty_window,
    restored_window,
    snapshot_of,
    started,
    RequestWindow,
    RequestWindowView,
};
use crate::response::Exchange;
use crate::row::{OpenWindow, OpenWindowView};
use crate::verb::Verb;

verus! {

/// The registry: the open windows by id, the id allocator, and the
/// persistence gateway.
pub struct LeGrillon {
    ctrls: MainControls,
    windows: Vec<RequestWindow>,
    ids: IdAllocator,
    db: LeGrillonDb,
}

/// The mathematical value of the registry.
pub struct LeGrillonView {
    /// The id of the control window.
    pub ctrls: nat,
    /// The registered windows by id.
    pub windows: Map<nat, RequestWindowView>,
    /// The stored rows by id.
    pub rows: Map<nat, OpenWindowView>,
    /// The id that the next fresh window gets.
    pub upcoming: nat,
}

/// What the event loop has to do after one event.
pub struct Dispatch {
    /// The change to make in the durable store.
    pub command: DbCommand,
    /// The id of the window that the event registered, if it registered one.
    pub opened: Option<usize>,
    /// The window that the event removed from the registry, closed.
    pub closed: Option<RequestWindow>,
    /// The session is over: the loop ends.
    pub exit: bool,
}

/// The id of the window that an event registers: the next fresh id for an
/// `OpenEmptyWindow` while ids are left, the row's id for a `Restore`.
pub open spec fn opened_by(s: LeGrillonView, msg: GlobalAppMsg) -> Option<usize> {
    match msg {
        GlobalAppMsg::OpenEmptyWindow => if s.upcoming < usize::MAX {
            Some(s.upcoming as usize)
        } else {
            None
        },
        GlobalAppMsg::Restore(row) => Some(row.id),
        _ => None,
    }
}

/// The window that an event removes: for a `CloseWindow`, the registered
/// window with that id, taken off the screen.
pub open spec fn closed_by(s: LeGrillonView, msg: GlobalAppMsg) -> Option<RequestWindowView> {
    match msg {
        GlobalAppMsg::CloseWindow(id) => if s.windows.contains_key(id as nat) {
            Some(RequestWindowView { open: false, ..s.windows[id as nat] })
        } else {
            None
        },
        _ => None,
    }
}

/// Whether some window of `windows` has the id `id`.
pub open spec fn has_window(windows: Seq<RequestWindow>, id: nat) -> bool {
    exists|i: int| 0 <= i < windows.len() && (#[trigger] windows[i])@.id == id
}

/// The position of the window with the id `id`.
pub open spec fn window_position(windows: Seq<RequestWindow>, id: nat) -> int {
    choose|i: int| 0 <= i < windows.len() && (#[trigger] windows[i])@.id == id
}

/// No two windows share an id.
pub open spec fn window_ids_unique(windows: Seq<RequestWindow>) -> bool {
    forall|i: int, j: int|
        0 <= i < windows.len() && 0 <= j < windows.len() && (#[trigger] windows[i])@.id == (
        #[trigger] windows[j])@.id ==> i == j
}

/// The windows as a map from id to window.
pub open spec fn windows_as_map(windows: Seq<RequestWindow>) -> Map<nat, RequestWindowView> {
    Map::new(|id: nat| has_window(windows, id), |id: nat| windows[window_position(windows, id)]@)
}

/// Every window of `windows`, taken off the screen.
pub open spec fn all_closed(windows: Map<nat, RequestWindowView>) -> Map<nat, RequestWindowView> {
    Map::new(
        |id: nat| windows.contains_key(id),
        |id: nat| RequestWindowView { open: false, ..windows[id] },
    )
}

/// The registry after one event.
///
/// - `OpenEmptyWindow` registers an empty window under the next fresh id;
///   with the ids used up it changes nothing.
/// - `Restore` registers a window filled from the row, under the row's id.
/// - `CloseWindow` removes the window with that id, if there is one, and
///   deletes the row with that id, if there is one.
/// - `SaveWindowState` stores the row and leaves the windows alone.
/// - `CloseApp` takes every window off the screen, and removes no window and
///   no row.
pub open spec fn step(s: LeGrillonView, msg: GlobalAppMsg) -> LeGrillonView {
    let rows = rows_after(s.rows, command_of(msg));
    match msg {
        GlobalAppMsg::OpenEmptyWindow => if s.upcoming < usize::MAX {
            LeGrillonView {
                windows: s.windows.insert(s.upcoming, empty_window(s.upcoming)),
                upcoming: s.upcoming + 1,
                rows,
                ..s
            }
        } else {
            s
        },
        GlobalAppMsg::Restore(row) => LeGrillonView {
            windows: s.windows.insert(row@.id, restored_window(row@)),
            rows,
            ..s
        },
        GlobalAppMsg::CloseWindow(id) => LeGrillonView {
            windows: s.windows.remove(id as nat),
            rows,
            ..s
        },
        GlobalAppMsg::SaveWindowState(_) => LeGrillonView { rows, ..s },
        GlobalAppMsg::CloseApp => LeGrillonView { windows: all_closed(s.windows), rows, ..s },
    }
}

/// The registry after the events of `msgs`, taken in order up to and
/// including the first `CloseApp`.
pub open spec fn run_steps(s: LeGrillonView, msgs: Seq<GlobalAppMsg>) -> LeGrillonView
    decreases msgs.len(),
{
    if msgs.len() == 0 {
        s
    } else if msgs[0] is CloseApp {
        step(s, msgs[0])
    } else {
        run_steps(step(s, msgs[0]), msgs.drop_first())
    }
}

/// The commands for the durable store that the events of `msgs` ask for,
/// taken in order up to and including the first `CloseApp`.
pub open spec fn commands_of(msgs: Seq<GlobalAppMsg>) -> Seq<DbCommandView>
    decreases msgs.len(),
{
    if msgs.len() == 0 {
        Seq::empty()
    } else if msgs[0] is CloseApp {
        seq![command_of(msgs[0])]
    } else {
        seq![command_of(msgs[0])] + commands_of(msgs.drop_first())
    }
}

/// The registry once the restore is prepared: the allocator has moved past
/// the greatest stored id.
pub open spec fn after_restore(s: LeGrillonView, greatest: Option<nat>) -> LeGrillonView {
    LeGrillonView { upcoming: counter_after_restore(s.upcoming, greatest), ..s }
}

/// One `Restore` message for each row, in the rows' order.
pub open spec fn restores_of(rows: Seq<OpenWindow>) -> Seq<GlobalAppMsg> {
    Seq::new(rows.len(), |i: int| GlobalAppMsg::Restore(rows[i]))
}

/// Events that hold no `CloseApp`, followed by more events, are taken as
/// the first events and then the others.
pub proof fn lemma_run_steps_concat(s: LeGrillonView, a: Seq<GlobalAppMsg>, b: Seq<GlobalAppMsg>)
    requires
        forall|i: int| 0 <= i < a.len() ==> !((#[trigger] a[i]) is CloseApp),
    ensures
        run_steps(s, a + b) == run_steps(run_steps(s, a), b),
        commands_of(a + b) == commands_of(a) + commands_of(b),
    decreases a.len(),
{
    if a.len() == 0 {
        assert(a + b =~= b);
        assert(commands_of(a) + commands_of(b) =~= commands_of(b));
    } else {
        assert((a + b)[0] == a[0]);
        assert((a + b).drop_first() =~= a.drop_first() + b);
        lemma_run_steps_concat(step(s, a[0]), a.drop_first(), b);
        assert(commands_of(a + b) =~= commands_of(a) + commands_of(b));
    }
}

/// A list of commands as a sequence of their values.
pub open spec fn commands_view(commands: Seq<DbCommand>) -> Seq<DbCommandView> {
    Seq::new(commands.len(), |i: int| commands[i]@)
}

/// The stored rows follow the events: after a save of a row, the row is
/// stored under its id as it was given; after a close of a window, neither a
/// window nor a row has its id; every other event leaves the rows as they
/// were.
pub proof fn lemma_rows_follow_events(s: LeGrillonView, msg: GlobalAppMsg)
    ensures
        match msg {
            GlobalAppMsg::SaveWindowState(row) => step(s, msg).rows.contains_key(row@.id) && step(
                s,
                msg,
            ).rows[row@.id] == row@ && step(s, msg).windows == s.windows,
            GlobalAppMsg::CloseWindow(id) => !step(s, msg).rows.contains_key(id as nat) && !step(
                s,
                msg,
            ).windows.contains_key(id as nat),
            _ => step(s, msg).rows == s.rows,
        },
{
}

/// While every registered window has an id below the counter, and rows are
/// restored only under ids below it (as they are after `restore`), this
/// stays so after each event: the counter never falls, and the id that an
/// `OpenEmptyWindow` takes is the id of no window registered before it.
pub proof fn lemma_window_ids_below_counter(s: LeGrillonView, msg: GlobalAppMsg)
    requires
        forall|id: nat| s.windows.contains_key(id) ==> id < s.upcoming,
        msg is Restore ==> msg->Restore_0@.id < s.upcoming,
    ensures
        step(s, msg).upcoming >= s.upcoming,
        forall|id: nat| #[trigger]
            step(s, msg).windows.contains_key(id) ==> id < step(s, msg).upcoming,
        msg is OpenEmptyWindow && s.upcoming < usize::MAX ==> !s.windows.contains_key(s.upcoming)
            && step(s, msg).windows.contains_key(s.upcoming),
{
}

impl View for LeGrillon {
    type V = LeGrillonView;

    closed spec fn view(&self) -> LeGrillonView {
        LeGrillonView {
            ctrls: self.ctrls.window_id(),
            windows: windows_as_map(self.windows@),
            rows: self.db@,
            upcoming: self.ids.upcoming(),
        }
    }
}

impl LeGrillon {
    /// The registry's invariant: no two windows share an id, and the
    /// gateway's invariant holds.
    pub closed spec fn wf(&self) -> bool {
        window_ids_unique(self.windows@) && self.db.wf()
    }

    /// The greatest stored id, or `None` where no row is stored.
    pub closed spec fn greatest_stored_id(&self) -> Option<nat> {
        self.db.greatest_id()
    }

    /// The greatest stored id is the greatest key of the stored rows.
    pub proof fn lemma_greatest_stored_id(&self)
        ensures
            self.greatest_stored_id() == crate::db::greatest_key(self@.rows),
    {
        self.db.lemma_greatest_id();
    }

    /// A registry at startup: the control window has taken the first id, no
    /// request window is open, and the gateway holds the rows that the
    /// durable store gave.
    pub fn new(stored: Vec<OpenWindow>) -> (app: Self)
        ensures
            app.wf(),
            app@ == (LeGrillonView {
                ctrls: 0,
                windows: Map::empty(),
                rows: crate::db::loaded(stored@),
                upcoming: 1,
            }),
    {
        let mut ids = IdAllocator::new();
        let ctrls = MainControls::new(&mut ids);
        let app = LeGrillon { ctrls, windows: Vec::new(), ids, db: LeGrillonDb::new(stored) };
        assert(windows_as_map(app.windows@) =~= Map::empty());
        app
    }

    /// Prepares the restore: one `Restore` message for each stored row, to
    /// be dispatched before any other event, and the allocator moved past
    /// the greatest stored id.
    pub fn restore(&mut self) -> (msgs: Vec<GlobalAppMsg>)
        requires
            old(self).wf(),
        ensures
            final(self).wf(),
            exists|rows: Seq<OpenWindow>|
                ids_unique(rows) && rows_as_map(rows) == old(self)@.rows && #[trigger] is_restore_of(
                    msgs@,
                    rows,
                ),
            final(self)@ == after_restore(old(self)@, old(self).greatest_stored_id()),
            forall|id: nat|
                old(self)@.rows.contains_key(id) && id < usize::MAX ==> id < final(self)@.upcoming,
    {
        self.db.restore(&mut self.ids)
    }

    fn find(&self, id: usize) -> (found: Option<usize>)
        ensures
            match found {
                Some(k) => k < self.windows@.len() && self.windows@[k as int]@.id == id,
                None => !has_window(self.windows@, id as nat),
            },
    {
        let mut i: usize = 0;
        while i < self.windows.len()
            invariant
                i <= self.windows@.len(),
                forall|k: int| 0 <= k < i ==> self.windows@[k]@.id != id,
            decreases self.windows@.len() - i,
        {
            if self.windows[i].id() == id {
                return Some(i);
            }
            i += 1;
        }
        None
    }

    /// Puts `window` at position `k`, in place of the window there, which
    /// has the same id.
    fn put(&mut self, k: usize, window: RequestWindow)
        requires
            old(self).wf(),
            k < old(self).windows@.len(),
            old(self).windows@[k as int]@.id == window@.id,
        ensures
            final(self).wf(),
            final(self)@ == (LeGrillonView {
                windows: old(self)@.windows.insert(window@.id, window@),
                ..old(self)@
            }),
    {
        let ghost before = self.windows@;
        let ghost wid = window@.id;
        let ghost shown = window@;
        self.windows[k] = window;
        proof {
            let after = self.windows@;
            assert forall|id: nat| has_window(after, id) == (has_window(before, id) || id
                == wid) by {
                if has_window(before, id) {
                    let p = window_position(before, id);
                    assert(after[p]@.id == id);
                }
                if id == wid {
                    assert(after[k as int]@.id == id);
                }
                if has_window(after, id) {
                    let p = window_position(after, id);
                    if p != k {
                        assert(before[p]@.id == id);
                    }
                }
            }
            assert forall|id: nat| has_window(after, id) implies windows_as_map(after)[id] == (
            if id == wid {
                shown
            } else {
                windows_as_map(before)[id]
            }) by {
                let p = window_position(after, id);
                if id != wid {
                    assert(before[p]@.id == id);
                    let q = window_position(before, id);
                    assert(before[q]@.id == before[p]@.id);
                } else {
                    assert(after[p]@.id == after[k as int]@.id);
                }
            }
            assert(windows_as_map(after) =~= windows_as_map(before).insert(wid, shown));
        }
    }

    /// Registers `window` under its id, in place of any window that has it.
    fn insert(&mut self, window: RequestWindow)
        requires
            old(self).wf(),
        ensures
            final(self).wf(),
            final(self)@ == (LeGrillonView {
                windows: old(self)@.windows.insert(window@.id, window@),
                ..old(self)@
            }),
    {
        match self.find(window.id()) {
            Some(k) => {
                self.put(k, window);
            },
            None => {
                let ghost before = self.windows@;
                let ghost wid = window@.id;
                let ghost shown = window@;
                self.windows.push(window);
                proof {
                    let after = self.windows@;
                    let last = after.len() - 1;
                    assert forall|id: nat| has_window(after, id) == (has_window(before, id) || id
                        == wid) by {
                        if has_window(before, id) {
                            let p = window_position(before, id);
                            assert(after[p]@.id == id);
                        }
                        if id == wid {
                            assert(after[last]@.id == id);
                        }
                        if has_window(after, id) {
                            let p = window_position(after, id);
                            if p != last {
                                assert(before[p]@.id == id);
                            }
                        }
                    }
                    assert forall|id: nat| has_window(after, id) implies windows_as_map(after)[id]
                        == (if id == wid {
                        shown
                    } else {
                        windows_as_map(before)[id]
                    }) by {
                        let p = window_position(after, id);
                        if id != wid {
                            assert(before[p]@.id == id);
                            let q = window_position(before, id);
                            assert(before[q]@.id == before[p]@.id);
                        } else {
                            assert(after[p]@.id == after[last]@.id);
                        }
                    }
                    assert(windows_as_map(after) =~= windows_as_map(before).insert(wid, shown));
                }
            },
        }
    }

    /// Removes the window with the id `id`, if there is one, and hands it
    /// back.
    fn remove(&mut self, id: usize) -> (removed: Option<RequestWindow>)
        requires
            old(self).wf(),
        ensures
            final(self).wf(),
            final(self)@ == (LeGrillonView {
                windows: old(self)@.windows.remove(id as nat),
                ..old(self)@
            }),
            match removed {
                Some(w) => old(self)@.windows.contains_key(id as nat) && w@ == old(
                    self,
                )@.windows[id as nat],
                None => !old(self)@.windows.contains_key(id as nat) && final(self)@ == old(self)@,
            },
    {
        let ghost before = self.windows@;
        match self.find(id) {
            Some(k) => {
                let window = self.windows.remove(k);
                proof {
                    let after = self.windows@;
                    assert(after =~= before.remove(k as int));
                    assert forall|nid: nat| has_window(after, nid) == (has_window(before, nid)
                        && nid != id) by {
                        if has_window(before, nid) && nid != id {
                            let p = window_position(before, nid);
                            if p < k {
                                assert(after[p]@.id == nid);
                            } else {
                                assert(after[p - 1]@.id == nid);
                            }
                        }
                        if has_window(after, nid) {
                            let p = window_position(after, nid);
                            let q = if p < k {
                                p
                            } else {
                                p + 1
                            };
                            assert(before[q]@.id == nid);
                        }
                    }
                    assert forall|nid: nat| has_window(after, nid) implies windows_as_map(
                        after,
                    )[nid] == windows_as_map(before)[nid] by {
                        let p = window_position(after, nid);
                        let q = if p < k {
                            p
                        } else {
                            p + 1
                        };
                        assert(before[q]@.id == nid);
                        let r = window_position(before, nid);
                        assert(before[r]@.id == before[q]@.id);
                    }
                    assert(windows_as_map(after) =~= windows_as_map(before).remove(id as nat));
                    assert(has_window(before, id as nat));
                    let r = window_position(before, id as nat);
                    assert(before[r]@.id == before[k as int]@.id);
                }
                Some(window)
            },
            None => {
                assert(windows_as_map(before) =~= windows_as_map(before).remove(id as nat));
                None
            },
        }
    }

    /// Takes every window off the screen.
    fn close_all(&mut self)
        requires
            old(self).wf(),
        ensures
            final(self).wf(),
            final(self)@ == (LeGrillonView {
                windows: all_closed(old(self)@.windows),
                ..old(self)@
            }),
    {
        let ghost before = self.windows@;
        let mut i: usize = 0;
        while i < self.windows.len()
            invariant
                i <= self.windows@.len(),
                self.windows@.len() == before.len(),
                self.ctrls == old(self).ctrls,
                self.ids == old(self).ids,
                self.db == old(self).db,
                forall|k: int|
                    0 <= k < i ==> (#[trigger] self.windows@[k])@ == (RequestWindowView {
                        open: false,
                        ..before[k]@
                    }),
                forall|k: int| i <= k < before.len() ==> (#[trigger] self.windows@[k]) == before[k],
            decreases self.windows@.len() - i,
        {
            self.windows[i].close();
            i += 1;
        }
        proof {
            let after = self.windows@;
            assert forall|k: int| 0 <= k < after.len() implies (#[trigger] after[k])@.id
                == before[k]@.id by {}
            assert forall|id: nat| has_window(after, id) == has_window(before, id) by {
                if has_window(after, id) {
                    let p = window_position(after, id);
                    assert(before[p]@.id == id);
                }
                if has_window(before, id) {
                    let p = window_position(before, id);
                    assert(after[p]@.id == id);
                }
            }
            assert forall|id: nat| has_window(after, id) implies windows_as_map(after)[id]
                == all_closed(windows_as_map(before))[id] by {
                let p = window_position(after, id);
                let q = window_position(before, id);
                assert(before[p]@.id == before[q]@.id);
            }
            assert(windows_as_map(after) =~= all_closed(windows_as_map(before)));
        }
    }

    /// Takes one event: the registry acts on it first, then the persistence
    /// gateway. Returns what is left to do outside: the change to the
    /// durable store, the id of a window to draw, the window to take off the
    /// screen, and whether the session ends.
    pub fn dispatch(&mut self, msg: &GlobalAppMsg) -> (effect: Dispatch)
        requires
            old(self).wf(),
        ensures
            final(self).wf(),
            final(self)@ == step(old(self)@, *msg),
            effect.command@ == command_of(*msg),
            effect.opened == opened_by(old(self)@, *msg),
            match effect.closed {
                Some(w) => closed_by(old(self)@, *msg) == Some(w@),
                None => closed_by(old(self)@, *msg) is None,
            },
            effect.exit == (*msg is CloseApp),
    {
        let mut exit = false;
        let mut opened: Option<usize> = None;
        let mut closed: Option<RequestWindow> = None;
        match msg {
            GlobalAppMsg::OpenEmptyWindow => {
                if self.ids.has_room() {
                    let window = RequestWindow::new(None, &mut self.ids);
                    opened = Some(window.id());
                    self.insert(window);
                }
            },
            GlobalAppMsg::Restore(row) => {
                let window = RequestWindow::new(Some(row), &mut self.ids);
                opened = Some(window.id());
                self.insert(window);
            },
            GlobalAppMsg::CloseWindow(id) => {
                match self.remove(*id) {
                    Some(mut window) => {
                        window.close();
                        closed = Some(window);
                    },
                    None => {},
                }
            },
            GlobalAppMsg::SaveWindowState(_) => {},
            GlobalAppMsg::CloseApp => {
                self.close_all();
                exit = true;
            },
        }
        let command = self.db.handle(msg);
        Dispatch { command, opened, closed, exit }
    }

    /// Runs a session: restores the stored windows, then takes the events
    /// of `inbox` in order, up to and including the first `CloseApp`.
    /// Returns the changes to make in the durable store, one for each event
    /// taken, the restores first.
    pub fn run(&mut self, inbox: &Vec<GlobalAppMsg>) -> (commands: Vec<DbCommand>)
        requires
            old(self).wf(),
        ensures
            final(self).wf(),
            exists|rows: Seq<OpenWindow>|
                ids_unique(rows) && rows_as_map(rows) == old(self)@.rows && final(self)@
                    == run_steps(
                    after_restore(old(self)@, old(self).greatest_stored_id()),
                    #[trigger] restores_of(rows) + inbox@,
                ) && commands_view(commands@) == commands_of(restores_of(rows) + inbox@),
    {
        let msgs = self.restore();
        let ghost restored = self@;
        let ghost rows = Seq::new(msgs@.len(), |i: int| msgs@[i]->Restore_0);
        proof {
            let fetched = choose|fetched: Seq<OpenWindow>|
                ids_unique(fetched) && rows_as_map(fetched) == old(self)@.rows
                    && #[trigger] is_restore_of(msgs@, fetched);
            lemma_same_views_same_map(rows, fetched);
            assert(msgs@ =~= restores_of(rows));
            lemma_run_steps_concat(restored, msgs@, inbox@);
        }
        let mut commands = self.dispatch_all(&msgs);
        let mut more = self.dispatch_all(inbox);
        let ghost first = commands_view(commands@);
        let ghost second = commands_view(more@);
        commands.append(&mut more);
        assert(commands_view(commands@) =~= first + second);
        commands
    }

    /// Takes the events of `inbox` in order, up to and including the first
    /// `CloseApp`, and returns the changes to make in the durable store, in
    /// the same order.
    pub fn dispatch_all(&mut self, inbox: &Vec<GlobalAppMsg>) -> (commands: Vec<DbCommand>)
        requires
            old(self).wf(),
        ensures
            final(self).wf(),
            final(self)@ == run_steps(old(self)@, inbox@),
            commands_view(commands@) == commands_of(inbox@),
    {
        let mut commands: Vec<DbCommand> = Vec::new();
        let mut i: usize = 0;
        let mut exit = false;
        assert(inbox@.subrange(0, inbox@.len() as int) =~= inbox@);
        assert(commands_view(commands@) =~= Seq::empty());
        while i < inbox.len() && !exit
            invariant
                i <= inbox@.len(),
                self.wf(),
                !exit ==> run_steps(self@, inbox@.subrange(i as int, inbox@.len() as int))
                    == run_steps(old(self)@, inbox@),
                exit ==> self@ == run_steps(old(self)@, inbox@),
                !exit ==> commands_view(commands@) + commands_of(
                    inbox@.subrange(i as int, inbox@.len() as int),
                ) == commands_of(inbox@),
                exit ==> commands_view(commands@) == commands_of(inbox@),
            decreases inbox@.len() - i,
        {
            let ghost rest = inbox@.subrange(i as int, inbox@.len() as int);
            let ghost done = commands_view(commands@);
            assert(rest[0] == inbox@[i as int]);
            assert(rest.drop_first() =~= inbox@.subrange(i + 1, inbox@.len() as int));
            let effect = self.dispatch(&inbox[i]);
            let ghost shown = effect.command@;
            commands.push(effect.command);
            assert(commands_view(commands@) =~= done.push(shown));
            proof {
                if effect.exit {
                    assert(done.push(shown) =~= done + seq![shown]);
                } else {
                    assert(done.push(shown) + commands_of(rest.drop_first()) =~= done + (
                    seq![shown] + commands_of(rest.drop_first())));
                }
            }
            exit = effect.exit;
            i += 1;
        }
        proof {
            if !exit {
                assert(inbox@.subrange(i as int, inbox@.len() as int) =~= Seq::empty());
                assert(commands_view(commands@) + Seq::empty() =~= commands_view(commands@));
            }
        }
        commands
    }

    /// Puts the user's edits into the window with the id `id`: the selected
    /// verb and the texts of the URI field and of the two editors. Returns
    /// whether such a window is registered; without one nothing changes.
    pub fn edit_window(
        &mut self,
        id: usize,
        verb: Verb,
        uri: &str,
        headers: &str,
        body: &str,
    ) -> (found: bool)
        requires
            old(self).wf(),
        ensures
            final(self).wf(),
            found == old(self)@.windows.contains_key(id as nat),
            found ==> final(self)@ == (LeGrillonView {
                windows: old(self)@.windows.insert(
                    id as nat,
                    (RequestWindowView {
                        verb,
                        uri: uri@,
                        headers: headers@,
                        body: body@,
                        ..old(self)@.windows[id as nat]
                    }),
                ),
                ..old(self)@
            }),
            !found ==> final(self)@ == old(self)@,
    {
        match self.remove(id) {
            Some(mut window) => {
                let ghost gone = self@.windows;
                window.set_verb(verb);
                window.set_uri(uri);
                window.set_headers(headers);
                window.set_body(body);
                self.insert(window);
                assert(gone.insert(id as nat, window@) =~= old(self)@.windows.insert(
                    id as nat,
                    window@,
                ));
                true
            },
            None => false,
        }
    }

    /// Starts a run in the window with the id `id`. Returns the event that
    /// saves the window's state, to be dispatched before the request is
    /// sent; `None`, with nothing changed, where no such window is
    /// registered or its run control is disabled.
    pub fn run_window(&mut self, id: usize) -> (event: Option<GlobalAppMsg>)
        requires
            old(self).wf(),
        ensures
            final(self).wf(),
            match event {
                Some(msg) => {
                    &&& old(self)@.windows.contains_key(id as nat)
                    &&& !old(self)@.windows[id as nat].running
                    &&& msg is SaveWindowState
                    &&& msg->SaveWindowState_0@ == snapshot_of(old(self)@.windows[id as nat])
                    &&& final(self)@ == (LeGrillonView {
                        windows: old(self)@.windows.insert(
                            id as nat,
                            started(old(self)@.windows[id as nat]),
                        ),
                        ..old(self)@
                    })
                },
                None => {
                    &&& !old(self)@.windows.contains_key(id as nat) || old(
                        self,
                    )@.windows[id as nat].running
                    &&& final(self)@ == old(self)@
                },
            },
    {
        match self.remove(id) {
            Some(mut window) => {
                let ghost gone = self@.windows;
                let saved = window.run();
                self.insert(window);
                assert(gone.insert(id as nat, old(self)@.windows[id as nat]) =~= old(
                    self,
                )@.windows);
                assert(gone.insert(id as nat, started(old(self)@.windows[id as nat])) =~= old(
                    self,
                )@.windows.insert(id as nat, started(old(self)@.windows[id as nat])));
                match saved {
                    Some(row) => Some(GlobalAppMsg::SaveWindowState(row)),
                    None => None,
                }
            },
            None => None,
        }
    }

    /// Hands the outcome of an exchange to the window with the id `id`. A
    /// window that is no longer registered is left out: nothing changes.
    pub fn complete_window(&mut self, id: usize, outcome: &Exchange)
        requires
            old(self).wf(),
        ensures
            final(self).wf(),
            old(self)@.windows.contains_key(id as nat) ==> final(self)@ == (LeGrillonView {
                windows: old(self)@.windows.insert(
                    id as nat,
                    completed(old(self)@.windows[id as nat], *outcome),
                ),
                ..old(self)@
            }),
            !old(self)@.windows.contains_key(id as nat) ==> final(self)@ == old(self)@,
    {
        match self.remove(id) {
            Some(mut window) => {
                let ghost gone = self@.windows;
                window.complete(outcome);
                self.insert(window);
                assert(gone.insert(id as nat, completed(old(self)@.windows[id as nat], *outcome))
                    =~= old(self)@.windows.insert(
                    id as nat,
                    completed(old(self)@.windows[id as nat], *outcome),
                ));
            },
            None => {},
        }
    }

    /// The window with the id `id`, if it is registered.
    pub fn window(&self, id: usize) -> (found: Option<&RequestWindow>)
        requires
            self.wf(),
        ensures
            match found {
                Some(w) => self@.windows.contains_key(id as nat) && w@ == self@.windows[id as nat],
                None => !self@.windows.contains_key(id as nat),
            },
    {
        match self.find(id) {
            Some(k) => {
                proof {
                    assert(has_window(self.windows@, id as nat));
                    let r = window_position(self.windows@, id as nat);
                    assert(self.windows@[r]@.id == self.windows@[k as int]@.id);
                }
                Some(&self.windows[k])
            },
            None => None,
        }
    }

    /// The number of registered windows.
    pub fn window_count(&self) -> (count: usize)
        requires
            self.wf(),
        ensures
            count == self@.windows.dom().len(),
            self@.windows.dom().finite(),
    {
        proof {
            lemma_window_count(self.windows@);
        }
        self.windows.len()
    }

    /// The id of the control window.
    pub fn controls_id(&self) -> (id: usize)
        ensures
            id == self@.ctrls,
    {
        self.ctrls.id()
    }
}

/// Windows with distinct ids are as many as their ids.
pub proof fn lemma_window_count(windows: Seq<RequestWindow>)
    requires
        window_ids_unique(windows),
    ensures
        windows_as_map(windows).dom().finite(),
        windows_as_map(windows).dom().len() == windows.len(),
    decreases windows.len(),
{
    let dom = windows_as_map(windows).dom();
    if windows.len() == 0 {
        assert(dom =~= Set::empty());
    } else {
        let front = windows.drop_last();
        let last = windows.last()@.id;
        lemma_window_count(front);
        let front_dom = windows_as_map(front).dom();
        assert(!front_dom.contains(last)) by {
            if has_window(front, last) {
                let p = window_position(front, last);
                assert(windows[p]@.id == windows[windows.len() - 1]@.id);
            }
        }
        assert forall|id: nat| dom.contains(id) == front_dom.insert(last).contains(id) by {
            if has_window(windows, id) {
                let p = window_position(windows, id);
                if p < front.len() {
                    assert(front[p]@.id == id);
                }
            }
            if has_window(front, id) {
                let p = window_position(front, id);
                assert(windows[p]@.id == id);
            }
            if id == last {
                assert(windows[windows.len() - 1]@.id == id);
            }
        }
        assert(dom =~= front_dom.insert(last));
    }
}

} // verus!
