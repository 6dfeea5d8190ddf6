//! The two editors of a request window: the body and the headers.

use vstd::prelude::*;
use vstd::string::*;
use crate::headers::{display_text, headers_of, headers_text, parse_headers};
use crate::row::{pairs_view, OpenWindow};

verus! {

/// The texts of the body editor and of the header editor.
#[derive(Debug)]
pub struct RequestParamsCtrl {
    headers_buf: String,
    body_buf: String,
}

impl RequestParamsCtrl {
    /// The header editor's text.
    pub closed spec fn headers_text(&self) -> Seq<char> {
        self.headers_buf@
    }

    /// The body editor's text.
    pub closed spec fn body_text(&self) -> Seq<char> {
        self.body_buf@
    }

    /// Two empty editors.
    pub fn new() -> (ctrl: Self)
        ensures
            ctrl.headers_text() == Seq::<char>::empty(),
            ctrl.body_text() == Seq::<char>::empty(),
    {
        RequestParamsCtrl { headers_buf: String::new(), body_buf: String::new() }
    }

    /// The body as it stands in its editor.
    pub fn get_body(&self) -> (body: String)
        ensures
            body@ == self.body_text(),
    {
        self.body_buf.clone()
    }

    /// The headers that the header editor holds: its lines read value
    /// first, the lines that hold no valid header left out.
    pub fn get_headers(&self) -> (headers: Vec<(String, String)>)
        ensures
            pairs_view(headers@) == headers_of(self.headers_text()),
    {
        parse_headers(self.headers_buf.as_str())
    }

    /// Fills the editors from a stored row: the body editor takes the row's
    /// body, and the header editor gets one more line for each stored
    /// header, written value first.
    pub fn set(&mut self, wnd: &OpenWindow)
        ensures
            final(self).body_text() == wnd@.body,
            final(self).headers_text() == old(self).headers_text() + display_text(wnd@.headers),
    {
        self.body_buf = wnd.body.clone();
        self.headers_buf.append(headers_text(&wnd.headers).as_str());
    }

    /// Replaces the header editor's text, as typing does.
    pub fn edit_headers(&mut self, text: &str)
        ensures
            final(self).headers_text() == text@,
            final(self).body_text() == old(self).body_text(),
    {
        self.headers_buf = String::from_str(text);
    }

    /// Replaces the body editor's text, as typing does.
    pub fn edit_body(&mut self, text: &str)
        ensures
            final(self).body_text() == text@,
            final(self).headers_text() == old(self).headers_text(),
    {
        self.body_buf = String::from_str(text);
    }

    /// The header editor's text.
    pub fn headers(&self) -> (text: &str)
        ensures
            text@ == self.headers_text(),
    {
        self.headers_buf.as_str()
    }

    /// The body editor's text.
    pub fn body(&self) -> (text: &str)
        ensures
            text@ == self.body_text(),
    {
        self.body_buf.as_str()
    }
}

} // verus!
