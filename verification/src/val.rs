//! The runtime result type: a number, a boolean, or the unit value that
//! statements and empty blocks produce.
use vstd::prelude::*;
use vstd::string::StringExecFns;

use crate::utils;

verus! {

#[derive(Clone, Copy, Debug, PartialEq, Eq, Structural)]
pub enum Val {
    Bool(bool),
    Number(i32),
    Unit,
}

/// The textual form of a value: numbers and booleans read naturally, and the
/// unit value reads as a literal marker.
pub open spec fn val_text(v: Val) -> Seq<char> {
    match v {
        Val::Bool(b) => if b {
            "true"@
        } else {
            "false"@
        },
        Val::Number(n) => utils::dec_int(n as int),
        Val::Unit => "Unit"@,
    }
}

impl Val {
    /// Renders the value as text.
    pub fn render(&self) -> (r: String)
        ensures
            r@ == val_text(*self),
    {
        match self {
            Val::Bool(b) => {
                if *b {
                    String::from_str("true")
                } else {
                    String::from_str("false")
                }
            },
            Val::Number(n) => utils::i32_to_string(*n),
            Val::Unit => String::from_str("Unit"),
        }
    }
}

} // verus!
