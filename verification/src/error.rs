//! The error taxonomy of terminal resolution.
//!
//! Resolving a terminal description can fail in exactly two recoverable
//! ways: the name identified no terminal, or the source of the name was not
//! valid text in the first place, so no name can even be reported.

use vstd::prelude::*;
use vstd::string::StringExecFns;

verus! {

/// Why a terminal description could not be resolved.
///
/// `NotFound` carries the name that failed to resolve; `NotUnicode` says
/// that the value naming the terminal was not valid text, so there is no
/// name to carry.
#[derive(Debug, Clone)]
pub enum TermError {
    NotFound(String),
    NotUnicode,
}

/// What reading the terminal-type environment variable yielded: a textual
/// value, no value at all, or a value that was not valid text.
#[derive(Debug, Clone)]
pub enum TermVar {
    Present(String),
    Missing,
    NotText,
}

/// The rendering of an error as a line of text.
pub open spec fn message_of(e: TermError) -> Seq<char> {
    match e {
        TermError::NotFound(s) => "terminfo not found by name '"@ + s@ + "'"@,
        TermError::NotUnicode => "non unicode string encountered"@,
    }
}

impl TermError {
    /// The failure of resolving a terminal by an explicit name.
    pub fn from_name(name: &str) -> (r: TermError)
        ensures
            r matches TermError::NotFound(s) && s@ == name@,
    {
        TermError::NotFound(name.to_owned())
    }

    /// The failure of resolving a terminal from the terminal-type
    /// environment variable: a present value failed as a name, an absent
    /// variable failed as the empty name, and a non-textual value has no
    /// name to report.
    pub fn from_term_var(var: TermVar) -> (r: TermError)
        ensures
            var matches TermVar::Present(v) ==> r matches TermError::NotFound(s) && s@ == v@,
            var matches TermVar::Missing ==> r matches TermError::NotFound(s) && s@
                == Seq::<char>::empty(),
            var matches TermVar::NotText ==> r matches TermError::NotUnicode,
    {
        match var {
            TermVar::Present(value) => TermError::NotFound(value),
            TermVar::Missing => TermError::NotFound(String::new()),
            TermVar::NotText => TermError::NotUnicode,
        }
    }

    /// Renders the error as a line of text.
    pub fn message(&self) -> (r: String)
        ensures
            r@ == message_of(*self),
    {
        match self {
            TermError::NotFound(s) => {
                let mut m = "terminfo not found by name '".to_owned();
                m.append(s.as_str());
                m.append("'");
                m
            },
            TermError::NotUnicode => "non unicode string encountered".to_owned(),
        }
    }
}

impl PartialEq for TermError {
    fn eq(&self, other: &TermError) -> (r: bool) {
        match (self, other) {
            (TermError::NotFound(a), TermError::NotFound(b)) => a.eq(b),
            (TermError::NotUnicode, TermError::NotUnicode) => true,
            _ => false,
        }
    }
}

impl Eq for TermError {

}

impl vstd::std_specs::cmp::PartialEqSpecImpl for TermError {
    open spec fn obeys_eq_spec() -> bool {
        true
    }

    open spec fn eq_spec(&self, other: &TermError) -> bool {
        match (self, other) {
            (TermError::NotFound(a), TermError::NotFound(b)) => a@ == b@,
            (TermError::NotUnicode, TermError::NotUnicode) => true,
            _ => false,
        }
    }
}

} // verus!
