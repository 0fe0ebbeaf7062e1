use vstd::prelude::*;

verus! {

/// A debug command offered by a game server: a label, the command itself and
/// the arguments it takes.
#[derive(Debug, Clone, PartialEq, Eq)]
pub struct Command {
    pub name: String,
    pub command: String,
    pub args: Vec<Arg>,
}

/// One argument of a debug command.
#[derive(Debug, Clone, PartialEq, Eq)]
pub struct Arg {
    pub name: String,
    pub arg_type: ArgType,
}

/// The kind of value an argument takes.
#[derive(Debug, Clone, Copy, PartialEq, Eq)]
pub enum ArgType {
    Int,
    Number,
    String,
}

} // verus!
