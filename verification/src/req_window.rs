//! One request window: its editable request, its display, and the run
//! control's state.

use vstd::prelude::*;
use vstd::string::*;
use crate::headers::{display_text, headers_of, lemma_saved_headers_survive_restore};
use crate::req_params::RequestParamsCtrl;
use crate::ids::{next_window_id, IdAllocator};
use crate::response::Exchange;
use crate::row::{OpenWindow, OpenWindowView};
use crate::verb::{lemma_name_selects_verb, verb_of, Verb};

verus! {

/// A request window.
#[derive(Debug)]
pub struct RequestWindow {
    id: usize,
    verb: Verb,
    uri: String,
    param_ctrl: RequestParamsCtrl,
    title: String,
    status: String,
    result: String,
    running: bool,
    open: bool,
}

/// The mathematical value of a request window.
pub struct RequestWindowView {
    pub id: nat,
    /// The selected verb.
    pub verb: Verb,
    /// The URI field.
    pub uri: Seq<char>,
    /// The header editor's text.
    pub headers: Seq<char>,
    /// The body editor's text.
    pub body: Seq<char>,
    /// The window's label.
    pub title: Seq<char>,
    /// The status line.
    pub status: Seq<char>,
    /// The display area.
    pub result: Seq<char>,
    /// A request is in flight: the run control is disabled.
    pub running: bool,
    /// The window is on screen.
    pub open: bool,
}

/// A window as it is opened without a stored row.
pub open spec fn empty_window(id: nat) -> RequestWindowView {
    RequestWindowView {
        id,
        verb: Verb::Get,
        uri: Seq::empty(),
        headers: Seq::empty(),
        body: Seq::empty(),
        title: "Le Grillon"@,
        status: Seq::empty(),
        result: Seq::empty(),
        running: false,
        open: true,
    }
}

/// A window as it is opened from a stored row: the row's id, its verb where
/// the selector has it, its URI as field and label, its headers written
/// value first, and its body.
pub open spec fn restored_window(row: OpenWindowView) -> RequestWindowView {
    RequestWindowView {
        id: row.id,
        verb: verb_of(row.method),
        uri: row.uri,
        headers: display_text(row.headers),
        body: row.body,
        title: row.uri,
        status: Seq::empty(),
        result: Seq::empty(),
        running: false,
        open: true,
    }
}

/// The row that a run of the window saves: the fields as they stand.
pub open spec fn snapshot_of(w: RequestWindowView) -> OpenWindowView {
    OpenWindowView {
        id: w.id,
        method: w.verb.name_text(),
        uri: w.uri,
        path: Seq::empty(),
        query: Seq::empty(),
        headers: headers_of(w.headers),
        body: w.body,
    }
}

/// The window once a run has started.
pub open spec fn started(w: RequestWindowView) -> RequestWindowView {
    RequestWindowView {
        title: w.uri,
        status: "Sending "@ + w.verb.name_text() + " request..."@,
        running: true,
        ..w
    }
}

/// The window once its exchange has ended: the status line and the body of
/// an answer, or an empty status line and the error text of a failure; the
/// run control is enabled again either way.
pub open spec fn completed(w: RequestWindowView, outcome: Exchange) -> RequestWindowView {
    match outcome {
        Exchange::Answered(response) => RequestWindowView {
            status: response.status_text(),
            result: response.shown_text(),
            running: false,
            ..w
        },
        Exchange::Failed(error) => RequestWindowView {
            status: Seq::empty(),
            result: error@,
            running: false,
            ..w
        },
    }
}

/// A window that is restored from the row that a run saved, and run again
/// as it stands, saves the same row.
pub proof fn lemma_restored_window_saves_same_row(w: RequestWindowView)
    ensures
        snapshot_of(restored_window(snapshot_of(w))) == snapshot_of(w),
{
    lemma_name_selects_verb(w.verb);
    lemma_saved_headers_survive_restore(w.headers);
}

/// Whatever the outcome, a window that has taken it is idle: its run control
/// is enabled, and its request fields are as they were.
pub proof fn lemma_completed_is_idle(w: RequestWindowView, outcome: Exchange)
    ensures
        !completed(w, outcome).running,
        snapshot_of(completed(w, outcome)) == snapshot_of(w),
        completed(w, outcome).open == w.open,
{
}

impl View for RequestWindow {
    type V = RequestWindowView;

    closed spec fn view(&self) -> RequestWindowView {
        RequestWindowView {
            id: self.id as nat,
            verb: self.verb,
            uri: self.uri@,
            headers: self.param_ctrl.headers_text(),
            body: self.param_ctrl.body_text(),
            title: self.title@,
            status: self.status@,
            result: self.result@,
            running: self.running,
            open: self.open,
        }
    }
}

impl RequestWindow {
    /// Opens a window: from a stored row under the row's id, or empty under
    /// a fresh id of `ids`.
    pub fn new(wnd: Option<&OpenWindow>, ids: &mut IdAllocator) -> (window: Self)
        requires
            wnd is None ==> old(ids).upcoming() < usize::MAX,
        ensures
            match wnd {
                Some(row) => window@ == restored_window(row@) && final(ids).upcoming() == old(
                    ids,
                ).upcoming(),
                None => window@ == empty_window(old(ids).upcoming()) && final(ids).upcoming()
                    == old(ids).upcoming() + 1,
            },
    {
        let mut param_ctrl = RequestParamsCtrl::new();
        match wnd {
            Some(row) => {
                param_ctrl.set(row);
                assert(param_ctrl.headers_text() =~= display_text(row@.headers));
                RequestWindow {
                    id: row.id,
                    verb: Verb::from_name(row.method.as_str()),
                    uri: row.uri.clone(),
                    param_ctrl,
                    title: row.uri.clone(),
                    status: String::new(),
                    result: String::new(),
                    running: false,
                    open: true,
                }
            },
            None => RequestWindow {
                id: next_window_id(ids),
                verb: Verb::Get,
                uri: String::new(),
                param_ctrl,
                title: String::from_str("Le Grillon"),
                status: String::new(),
                result: String::new(),
                running: false,
                open: true,
            },
        }
    }

    /// The window's id.
    pub fn id(&self) -> (id: usize)
        ensures
            id == self@.id,
    {
        self.id
    }

    /// Selects a verb.
    pub fn set_verb(&mut self, verb: Verb)
        ensures
            final(self)@ == (RequestWindowView { verb, ..old(self)@ }),
    {
        self.verb = verb;
    }

    /// Replaces the URI field.
    pub fn set_uri(&mut self, uri: &str)
        ensures
            final(self)@ == (RequestWindowView { uri: uri@, ..old(self)@ }),
    {
        self.uri = String::from_str(uri);
    }

    /// Replaces the header editor's text.
    pub fn set_headers(&mut self, headers: &str)
        ensures
            final(self)@ == (RequestWindowView { headers: headers@, ..old(self)@ }),
    {
        self.param_ctrl.edit_headers(headers);
    }

    /// Replaces the body editor's text.
    pub fn set_body(&mut self, body: &str)
        ensures
            final(self)@ == (RequestWindowView { body: body@, ..old(self)@ }),
    {
        self.param_ctrl.edit_body(body);
    }

    /// The row that a run would save now.
    pub fn snapshot(&self) -> (row: OpenWindow)
        ensures
            row@ == snapshot_of(self@),
    {
        OpenWindow {
            id: self.id,
            method: String::from_str(self.verb.name()),
            uri: self.uri.clone(),
            path: String::new(),
            query: String::new(),
            headers: self.param_ctrl.get_headers(),
            body: self.param_ctrl.get_body(),
        }
    }

    /// Starts a run. With the run control enabled, the window takes the URI
    /// as its label, disables the control, announces the request in the
    /// status line, and hands back the row to save before the request is
    /// sent. With the control disabled nothing happens.
    pub fn run(&mut self) -> (saved: Option<OpenWindow>)
        ensures
            old(self)@.running ==> saved is None && final(self)@ == old(self)@,
            !old(self)@.running ==> saved is Some && saved->0@ == snapshot_of(old(self)@)
                && final(self)@ == started(old(self)@),
    {
        if self.running {
            return None;
        }
        let row = self.snapshot();
        self.title = self.uri.clone();
        let mut status = String::from_str("Sending ");
        status.append(self.verb.name());
        status.append(" request...");
        self.status = status;
        self.running = true;
        Some(row)
    }

    /// Takes the outcome of the exchange: shows it and enables the run
    /// control again.
    pub fn complete(&mut self, outcome: &Exchange)
        ensures
            final(self)@ == completed(old(self)@, *outcome),
            !final(self)@.running,
    {
        match outcome {
            Exchange::Answered(response) => {
                self.status = response.status_line();
                self.result = match &response.body {
                    Ok(text) => text.clone(),
                    Err(error) => error.clone(),
                };
            },
            Exchange::Failed(error) => {
                self.status = String::new();
                self.result = error.clone();
            },
        }
        self.running = false;
    }

    /// Takes the window off the screen. Nothing else changes, and nothing is
    /// saved or deleted by this.
    pub fn close(&mut self)
        ensures
            final(self)@ == (RequestWindowView { open: false, ..old(self)@ }),
    {
        self.open = false;
    }

    /// Whether the run control is enabled.
    pub fn run_enabled(&self) -> (enabled: bool)
        ensures
            enabled == !self@.running,
    {
        !self.running
    }

    /// Whether the window is on screen.
    pub fn is_open(&self) -> (open: bool)
        ensures
            open == self@.open,
    {
        self.open
    }

    /// The selected verb.
    pub fn verb(&self) -> (verb: Verb)
        ensures
            verb == self@.verb,
    {
        self.verb
    }

    /// The URI field.
    pub fn uri(&self) -> (uri: &str)
        ensures
            uri@ == self@.uri,
    {
        self.uri.as_str()
    }

    /// The header editor's text.
    pub fn headers(&self) -> (headers: &str)
        ensures
            headers@ == self@.headers,
    {
        self.param_ctrl.headers()
    }

    /// The body editor's text.
    pub fn body(&self) -> (body: &str)
        ensures
            body@ == self@.body,
    {
        self.param_ctrl.body()
    }

    /// The window's label.
    pub fn title(&self) -> (title: &str)
        ensures
            title@ == self@.title,
    {
        self.title.as_str()
    }

    /// The status line.
    pub fn status(&self) -> (status: &str)
        ensures
            status@ == self@.status,
    {
        self.status.as_str()
    }

    /// The display area.
    pub fn result(&self) -> (result: &str)
        ensures
            result@ == self@.result,
    {
        self.result.as_str()
    }
}

} // verus!
