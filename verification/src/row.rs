//! The persisted counterpart of a request window's editable state.

use vstd::prelude::*;

verus! {

/// One open window as it is stored: the request's verb, target, headers and
/// body, keyed by the window's id.
#[derive(Debug)]
pub struct OpenWindow {
    pub id: usize,
    pub method: String,
    pub uri: String,
    pub path: String,
    pub query: String,
    pub headers: Vec<(String, String)>,
    pub body: String,
}

/// The mathematical value of an `OpenWindow`.
pub struct OpenWindowView {
    pub id: nat,
    pub method: Seq<char>,
    pub uri: Seq<char>,
    pub path: Seq<char>,
    pub query: Seq<char>,
    pub headers: Seq<(Seq<char>, Seq<char>)>,
    pub body: Seq<char>,
}

/// A sequence of (name, value) strings as a sequence of character sequences.
pub open spec fn pairs_view(pairs: Seq<(String, String)>) -> Seq<(Seq<char>, Seq<char>)> {
    Seq::new(pairs.len(), |i: int| (pairs[i].0@, pairs[i].1@))
}

impl View for OpenWindow {
    type V = OpenWindowView;

    open spec fn view(&self) -> OpenWindowView {
        OpenWindowView {
            id: self.id as nat,
            method: self.method@,
            uri: self.uri@,
            path: self.path@,
            query: self.query@,
            headers: pairs_view(self.headers@),
            body: self.body@,
        }
    }
}

/// A copy of a list of header pairs.
pub fn copy_pairs(pairs: &Vec<(String, String)>) -> (out: Vec<(String, String)>)
    ensures
        pairs_view(out@) == pairs_view(pairs@),
{
    let mut out: Vec<(String, String)> = Vec::new();
    let mut i: usize = 0;
    while i < pairs.len()
        invariant
            i <= pairs.len(),
            out@.len() == i,
            forall|k: int| 0 <= k < i ==> out@[k].0@ == pairs@[k].0@ && out@[k].1@ == pairs@[k].1@,
        decreases pairs.len() - i,
    {
        let name = pairs[i].0.clone();
        let value = pairs[i].1.clone();
        out.push((name, value));
        i += 1;
    }
    assert(pairs_view(out@) =~= pairs_view(pairs@));
    out
}

impl OpenWindow {
    /// A copy of this row, equal to it field by field.
    pub fn duplicate(&self) -> (copy: Self)
        ensures
            copy@ == self@,
    {
        OpenWindow {
            id: self.id,
            method: self.method.clone(),
            uri: self.uri.clone(),
            path: self.path.clone(),
            query: self.query.clone(),
            headers: copy_pairs(&self.headers),
            body: self.body.clone(),
        }
    }
}

} // verus!
