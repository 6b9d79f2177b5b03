use crate::name_map::{all_distinct, merge, merge_all, views, NameMap};
use vstd::prelude::*;

verus! {

/// Definition of an argument.
#[derive(Clone, Debug)]
pub struct ArgumentDef {
    /// Description.
    pub description: Option<String>,
    /// Default value.
    pub default: Option<String>,
    /// Long version of parameter.
    /// Argument name is used by default.
    pub long: Option<String>,
    /// Short version of parameter.
    /// Must be single character long.
    pub short: Option<String>,
}

/// Definition of a command.
#[derive(Clone, Debug)]
pub struct CommandDef {
    /// Shell command.
    pub command: String,
    /// Command description.
    pub description: Option<String>,
    /// Arguments used by the command.
    pub arguments: Option<NameMap<ArgumentDef>>,
}

/// Available command definitions.
pub type CommandDefs = NameMap<CommandDef>;

/// Merge command definitions: a later source replaces a command of an
/// earlier one whole, and a merge of no source is empty.
pub fn merge_definitions(command_defs: Vec<CommandDefs>) -> (merged: CommandDefs)
    ensures
        merged@ == merge_all(views(command_defs@)),
        all_distinct(views(command_defs@)),
{
    merge(command_defs)
}

} // verus!
