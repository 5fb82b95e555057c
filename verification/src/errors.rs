//! The errors of the library.

use vstd::prelude::*;

verus! {

/// What is said of an optional text.
pub open spec fn text_of(o: Option<String>) -> Option<Seq<char>> {
    match o {
        Some(s) => Some(s@),
        None => None,
    }
}

/// A failure while talking to the desktop portal.
#[derive(Debug)]
pub struct DBusError(pub String);

impl DBusError {
    /// The message of the error.
    pub fn to_text(&self) -> (r: String)
        ensures
            r@ == self.0@,
    {
        self.0.clone()
    }
}

/// A failure while capturing frames.
#[derive(Debug)]
pub struct GStreamerError(pub String);

impl GStreamerError {
    /// The message of the error.
    pub fn to_text(&self) -> (r: String)
        ensures
            r@ == self.0@,
    {
        self.0.clone()
    }
}

/// What the message bus says of a failed call: the name of the error and its message.
#[derive(Debug)]
pub struct DBusFault {
    pub name: Option<String>,
    pub message: Option<String>,
}

/// A fault as plain text.
#[verifier::ext_equal]
pub struct FaultView {
    pub name: Option<Seq<char>>,
    pub message: Option<Seq<char>>,
}

impl View for DBusFault {
    type V = FaultView;

    open spec fn view(&self) -> FaultView {
        FaultView { name: text_of(self.name), message: text_of(self.message) }
    }
}

impl FaultView {
    /// The message, or nothing.
    pub open spec fn text(self) -> Seq<char> {
        match self.message {
            Some(m) => m,
            None => Seq::empty(),
        }
    }

    /// The name, or nothing.
    pub open spec fn name_text(self) -> Seq<char> {
        match self.name {
            Some(n) => n,
            None => Seq::empty(),
        }
    }
}

impl DBusFault {
    /// The message as it is shown: nothing when there is none.
    pub fn to_text(&self) -> (r: String)
        ensures
            r@ == self@.text(),
            self.message matches Some(m) ==> r@ == m@,
            self.message is None ==> r@.len() == 0,
    {
        match &self.message {
            Some(m) => m.clone(),
            None => String::new(),
        }
    }

    /// The name of the error, or nothing.
    pub fn name_text(&self) -> (r: String)
        ensures
            r@ == self@.name_text(),
            self.name matches Some(n) ==> r@ == n@,
            self.name is None ==> r@.len() == 0,
    {
        match &self.name {
            Some(n) => n.clone(),
            None => String::new(),
        }
    }
}

/// A fault is the name and the message that it holds.
pub proof fn law_faults_are_what_they_hold(f: DBusFault)
    ensures
        f.name matches Some(n) ==> f@.name == Some(n@),
        f.name is None ==> f@.name is None,
        f.message matches Some(m) ==> f@.message == Some(m@),
        f.message is None ==> f@.message is None,
{
}

} // verus!
