//! The verbs that a request window offers.

use vstd::prelude::*;
use vstd::string::*;

verus! {

/// The options of the verb selector, in the order in which it lists them.
#[derive(Clone, Copy, Debug, PartialEq, Eq, Structural)]
pub enum Verb {
    Get,
    Post,
    Put,
    Patch,
    Delete,
}

/// The verb that a stored method name selects: the option of that name, or
/// the first option where no option has that name.
pub open spec fn verb_of(name: Seq<char>) -> Verb {
    if name == "POST"@ {
        Verb::Post
    } else if name == "PUT"@ {
        Verb::Put
    } else if name == "PATCH"@ {
        Verb::Patch
    } else if name == "DELETE"@ {
        Verb::Delete
    } else {
        Verb::Get
    }
}

/// Whether two texts hold the same characters.
pub fn same_text(a: &str, b: &str) -> (same: bool)
    ensures
        same == (a@ == b@),
{
    let x = String::from_str(a);
    let y = String::from_str(b);
    x == y
}

impl Verb {
    /// The verb's name as the selector shows it.
    pub open spec fn name_text(self) -> Seq<char> {
        match self {
            Verb::Get => "GET"@,
            Verb::Post => "POST"@,
            Verb::Put => "PUT"@,
            Verb::Patch => "PATCH"@,
            Verb::Delete => "DELETE"@,
        }
    }

    /// The verb's name.
    pub fn name(self) -> (name: &'static str)
        ensures
            name@ == self.name_text(),
    {
        match self {
            Verb::Get => "GET",
            Verb::Post => "POST",
            Verb::Put => "PUT",
            Verb::Patch => "PATCH",
            Verb::Delete => "DELETE",
        }
    }

    /// The option that a stored method name selects; a name that is none of
    /// the options selects the first.
    pub fn from_name(name: &str) -> (verb: Verb)
        ensures
            verb == verb_of(name@),
    {
        if same_text(name, "POST") {
            Verb::Post
        } else if same_text(name, "PUT") {
            Verb::Put
        } else if same_text(name, "PATCH") {
            Verb::Patch
        } else if same_text(name, "DELETE") {
            Verb::Delete
        } else {
            Verb::Get
        }
    }
}

/// Every option is selected again by its own name.
pub proof fn lemma_name_selects_verb(verb: Verb)
    ensures
        verb_of(verb.name_text()) == verb,
{
    reveal_strlit("GET");
    reveal_strlit("POST");
    reveal_strlit("PUT");
    reveal_strlit("PATCH");
    reveal_strlit("DELETE");
    assert("GET"@.len() == 3);
    assert("POST"@.len() == 4);
    assert("PUT"@.len() == 3);
    assert("PATCH"@.len() == 5);
    assert("DELETE"@.len() == 6);
    assert("GET"@[0] == 'G');
    assert("PUT"@[0] == 'P');
}

} // verus!
