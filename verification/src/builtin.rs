//! The closed set of operations that the shell performs itself, and the
//! classification of a command name.

use crate::text::{chars_of, spells};
use vstd::prelude::*;

verus! {

/// What a command name stands for: one of the shell's own operations, or an
/// external program of that name.
#[derive(Debug, PartialEq, Eq)]
pub enum Builtin {
    History,
    Cd,
    Pwd,
    Clear,
    Exit,
    ClearHistory,
    Help,
    Other(String),
}

/// The mathematical value of a `Builtin`.
pub enum BuiltinView {
    History,
    Cd,
    Pwd,
    Clear,
    Exit,
    ClearHistory,
    Help,
    Other(Seq<char>),
}

impl View for Builtin {
    type V = BuiltinView;

    open spec fn view(&self) -> BuiltinView {
        match self {
            Builtin::History => BuiltinView::History,
            Builtin::Cd => BuiltinView::Cd,
            Builtin::Pwd => BuiltinView::Pwd,
            Builtin::Clear => BuiltinView::Clear,
            Builtin::Exit => BuiltinView::Exit,
            Builtin::ClearHistory => BuiltinView::ClearHistory,
            Builtin::Help => BuiltinView::Help,
            Builtin::Other(name) => BuiltinView::Other(name@),
        }
    }
}

/// The operation that the command name `name` stands for. A name stands for
/// a builtin only where it equals the builtin's name character by character;
/// every other name stands for the external program so called.
pub open spec fn classify(name: Seq<char>) -> BuiltinView {
    if name == "history"@ {
        BuiltinView::History
    } else if name == "cd"@ {
        BuiltinView::Cd
    } else if name == "pwd"@ {
        BuiltinView::Pwd
    } else if name == "clear"@ {
        BuiltinView::Clear
    } else if name == "exit"@ {
        BuiltinView::Exit
    } else if name == "help"@ {
        BuiltinView::Help
    } else if name == "clearHistory"@ {
        BuiltinView::ClearHistory
    } else {
        BuiltinView::Other(name)
    }
}

/// Whether `name` is the name of an external program.
pub open spec fn is_external(name: Seq<char>) -> bool {
    classify(name) is Other
}

/// The operation that the characters `name` stand for.
pub fn classify_chars(name: &[char]) -> (b: Builtin)
    ensures
        b@ == classify(name@),
{
    if spells(name, "history") {
        Builtin::History
    } else if spells(name, "cd") {
        Builtin::Cd
    } else if spells(name, "pwd") {
        Builtin::Pwd
    } else if spells(name, "clear") {
        Builtin::Clear
    } else if spells(name, "exit") {
        Builtin::Exit
    } else if spells(name, "help") {
        Builtin::Help
    } else if spells(name, "clearHistory") {
        Builtin::ClearHistory
    } else {
        Builtin::Other(crate::text::string_of(name))
    }
}

impl Builtin {
    /// Classifies the command name `s`. Every name is classified: the result
    /// is never an error.
    pub fn from_str(s: &str) -> (r: Result<Builtin, ()>)
        ensures
            r matches Ok(b) && b@ == classify(s@),
    {
        let name = chars_of(s);
        Ok(classify_chars(name.as_slice()))
    }

    /// Tells whether the operation is an external program.
    pub fn is_other(&self) -> (r: bool)
        ensures
            r == (self@ is Other),
    {
        match self {
            Builtin::Other(_) => true,
            _ => false,
        }
    }
}

} // verus!
