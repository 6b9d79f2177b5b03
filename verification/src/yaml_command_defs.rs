use crate::name_map::{all_distinct, merge, merge_all, views, NameMap};
use vstd::prelude::*;

verus! {

/// An argument as it is declared: its raw flag strings, not yet looked into.
#[derive(Clone, Debug)]
pub struct YamlArgumentDef {
    /// Flags.
    pub flags: Vec<String>,
    /// Default value.
    pub default: Option<String>,
    /// Description of an argument.
    pub description: Option<String>,
}

/// A command as it is declared.
#[derive(Clone, Debug)]
pub struct YamlCommandDef {
    /// Shell command, with its interpolation markers unresolved.
    pub command: String,
    /// Command description.
    pub description: Option<String>,
    /// Arguments used by the command, by name.
    pub arguments: Option<NameMap<YamlArgumentDef>>,
}

/// Declared commands, by name.
pub type YamlCommandDefs = NameMap<YamlCommandDef>;

/// What a declared argument says.
pub struct RawArgument {
    pub flags: Seq<Seq<char>>,
    pub default: Option<Seq<char>>,
    pub description: Option<Seq<char>>,
}

/// What a declared command says.
pub struct RawCommand {
    pub command: Seq<char>,
    pub description: Option<Seq<char>>,
    pub arguments: Option<Seq<(Seq<char>, RawArgument)>>,
}

impl DeepView for YamlArgumentDef {
    type V = RawArgument;

    open spec fn deep_view(&self) -> RawArgument {
        RawArgument {
            flags: self.flags.deep_view(),
            default: self.default.deep_view(),
            description: self.description.deep_view(),
        }
    }
}

impl DeepView for YamlCommandDef {
    type V = RawCommand;

    open spec fn deep_view(&self) -> RawCommand {
        RawCommand {
            command: self.command@,
            description: self.description.deep_view(),
            arguments: self.arguments.deep_view(),
        }
    }
}

/// Merge declared commands: a later source replaces a command of an earlier
/// one whole, and a merge of no source is empty.
pub fn merge_yaml_defs(command_defs: Vec<YamlCommandDefs>) -> (merged: YamlCommandDefs)
    ensures
        merged@ == merge_all(views(command_defs@)),
        all_distinct(views(command_defs@)),
{
    merge(command_defs)
}

} // verus!
