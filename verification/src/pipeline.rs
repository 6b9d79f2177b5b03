use crate::command_resolver::{
    resolution, resolve_command, Bindings, TemplateError, TemplateErrorKind,
};
use crate::cli::cli_surface;
use crate::name_map::{deep_entries, lemma_first_index_is, lookup, merge_all, views};
use crate::yaml_command_defs::{merge_yaml_defs, YamlCommandDef, YamlCommandDefs};
use crate::zxc_command_defs::{
    by_name, command_names, find_zxc_command_def, load_zxc_defs, normalized_commands,
    well_formed_commands,
    NormalizedCommand, ValidationError, Violation, ZxcCommandDef, ZxcCommandDefs,
};
use vstd::prelude::*;

verus! {

/// Why no command set could be made at startup.
#[derive(Clone, Debug, PartialEq, Eq)]
pub enum StartupError {
    /// No source of definitions was found.
    NoDefinitions,
    /// A declaration breaks the flag grammar.
    Invalid(ValidationError),
}

/// Why an invocation did not end with an exit code.
#[derive(Clone, Debug, PartialEq, Eq)]
pub enum DispatchError {
    /// No command has the name of the subcommand.
    CommandNotFound,
    /// The template of the command did not resolve.
    Template(TemplateError),
    /// The process was ended by a signal and left no exit code.
    AbnormalTermination,
}

/// What a startup fault says.
pub enum StartupFault {
    NoDefinitions,
    Invalid(Violation),
}

/// What a dispatch fault says. Of a template fault it keeps the kind; the
/// message is wording and decides nothing.
pub enum DispatchFault {
    CommandNotFound,
    Template(TemplateErrorKind),
    AbnormalTermination,
}

impl DeepView for StartupError {
    type V = StartupFault;

    open spec fn deep_view(&self) -> StartupFault {
        match self {
            StartupError::NoDefinitions => StartupFault::NoDefinitions,
            StartupError::Invalid(fault) => StartupFault::Invalid(fault.deep_view()),
        }
    }
}

impl DeepView for DispatchError {
    type V = DispatchFault;

    open spec fn deep_view(&self) -> DispatchFault {
        match self {
            DispatchError::CommandNotFound => DispatchFault::CommandNotFound,
            DispatchError::Template(fault) => DispatchFault::Template(fault.kind),
            DispatchError::AbnormalTermination => DispatchFault::AbnormalTermination,
        }
    }
}

/// The command set of the sources: they are merged, a later one overriding
/// an earlier one, and the merge is normalized as a whole. No source at all
/// is a fault, and so is the first bad declaration of the merge.
pub open spec fn command_set(sources: Seq<Seq<(Seq<char>, YamlCommandDef)>>) -> Result<
    Seq<NormalizedCommand>,
    StartupFault,
> {
    if sources.len() == 0 {
        Err(StartupFault::NoDefinitions)
    } else {
        match normalized_commands(deep_entries(merge_all(sources))) {
            Ok(commands) => Ok(commands),
            Err(fault) => Err(StartupFault::Invalid(fault)),
        }
    }
}

/// Makes the command set from what the definition files hold, one source
/// for each file, in the order in which the files were found.
pub fn load_commands(sources: Vec<YamlCommandDefs>) -> (loaded: Result<
    ZxcCommandDefs,
    StartupError,
>)
    ensures
        match loaded {
            Ok(commands) => command_set(views(sources@)) == Ok::<
                Seq<NormalizedCommand>,
                StartupFault,
            >(commands.deep_view()) && well_formed_commands(commands.deep_view()),
            Err(fault) => command_set(views(sources@)) == Err::<
                Seq<NormalizedCommand>,
                StartupFault,
            >(fault.deep_view()),
        },
{
    if sources.len() == 0 {
        return Err(StartupError::NoDefinitions);
    }
    // First merge the declarations, then change them to their checked form.
    let yaml_command_defs = merge_yaml_defs(sources);
    match load_zxc_defs(yaml_command_defs) {
        Ok(commands) => Ok(commands),
        Err(fault) => Err(StartupError::Invalid(fault)),
    }
}

/// What becomes of a resolved template: the command line to run, or the
/// fault of the template.
pub fn invocation_of(resolved: Result<String, TemplateError>) -> (invocation: Result<
    String,
    DispatchError,
>)
    ensures
        match resolved {
            Ok(line) => invocation == Ok::<String, DispatchError>(line),
            Err(fault) => invocation == Err::<String, DispatchError>(
                DispatchError::Template(fault),
            ),
        },
{
    match resolved {
        Ok(line) => Ok(line),
        Err(fault) => Err(DispatchError::Template(fault)),
    }
}

/// The command line that an invocation runs: the template of the first
/// command called `name`, resolved with the bound values.
pub open spec fn invocation(
    commands: Seq<ZxcCommandDef>,
    name: Seq<char>,
    bindings: Seq<(Seq<char>, Seq<char>)>,
) -> Result<Seq<char>, DispatchFault> {
    match lookup(by_name(commands), name) {
        None => Err(DispatchFault::CommandNotFound),
        Some(command) => match resolution(command.command@, bindings) {
            Ok(line) => Ok(line),
            Err(kind) => Err(DispatchFault::Template(kind)),
        },
    }
}

/// The commands by their deep views.
pub open spec fn normalized(commands: Seq<ZxcCommandDef>) -> Seq<NormalizedCommand> {
    Seq::new(commands.len(), |i: int| commands[i].deep_view())
}

/// Every subcommand of the surface leads back to the command it was made
/// from: in a well-formed set, subcommand `i` has the name of command `i`,
/// and a lookup of that name finds command `i` and no other.
pub proof fn lemma_subcommand_finds_its_command(commands: Seq<ZxcCommandDef>, i: int)
    requires
        well_formed_commands(normalized(commands)),
        0 <= i < commands.len(),
    ensures
        cli_surface(normalized(commands)).subcommands[i].name == commands[i].name@,
        lookup(by_name(commands), commands[i].name@) == Some(commands[i]),
{
    let names = command_names(normalized(commands));
    assert forall|j: int| 0 <= j < i implies by_name(commands)[j].0 != commands[i].name@ by {
        assert(names[j] == commands[j].name@);
        assert(names[i] == commands[i].name@);
    }
    lemma_first_index_is(by_name(commands), commands[i].name@, i);
}

/// Looks up the command that the subcommand names and resolves its
/// template with the values that the command line gave. Nothing is to be
/// run unless the result is a command line.
pub fn prepare_invocation(
    zxc_command_defs: ZxcCommandDefs,
    subcommand_name: &str,
    arguments: &Bindings,
) -> (prepared: Result<String, DispatchError>)
    ensures
        match prepared {
            Ok(line) => invocation(zxc_command_defs@, subcommand_name@, arguments.deep_view())
                == Ok::<Seq<char>, DispatchFault>(line@),
            Err(fault) => invocation(zxc_command_defs@, subcommand_name@, arguments.deep_view())
                == Err::<Seq<char>, DispatchFault>(fault.deep_view()),
        },
{
    // Find command definition.
    let zxc_command_def = match find_zxc_command_def(zxc_command_defs, subcommand_name) {
        Some(found) => found,
        None => {
            return Err(DispatchError::CommandNotFound);
        },
    };
    // Resolve command.
    invocation_of(resolve_command(zxc_command_def.command.as_str(), arguments))
}

/// The exit code of the tool: that of the process it ran. A process that
/// a signal ended has none, and none is made up for it.
pub fn exit_code(status_code: Option<i32>) -> (code: Result<i32, DispatchError>)
    ensures
        match status_code {
            Some(n) => code == Ok::<i32, DispatchError>(n),
            None => code == Err::<i32, DispatchError>(DispatchError::AbnormalTermination),
        },
{
    match status_code {
        Some(n) => Ok(n),
        None => Err(DispatchError::AbnormalTermination),
    }
}

} // verus!
