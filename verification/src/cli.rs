use crate::flag_grammar::{count_long, count_short, lemma_valid_kinds};
use crate::zxc_command_defs::{
    ArgumentKind, ArgumentType, FlagKind, FlagType, NormalizedCommand, ValidatedArgument,
    ZxcArgumentDef, ZxcCommandDef, ZxcCommandDefs,
};
use vstd::prelude::*;

verus! {

/// One argument of a subcommand, as the argument parser is to take it. An
/// argument with neither a long nor a short form is positional and goes by
/// its name.
#[derive(Clone, Debug, PartialEq, Eq)]
pub struct CliArgument {
    /// Name under which the parser hands back the value.
    pub name: String,
    /// Long form, without the "--".
    pub long: Option<String>,
    /// Short form, without the "-".
    pub short: Option<char>,
    /// Value taken when the argument is absent from the command line.
    pub default_value: Option<String>,
    /// Whether the command line must give the argument.
    pub required: bool,
    /// Help text.
    pub help: Option<String>,
}

/// One subcommand, as the argument parser is to take it.
#[derive(Clone, Debug, PartialEq, Eq)]
pub struct CliCommand {
    /// Name of the subcommand.
    pub name: String,
    /// What the help shows of the command.
    pub about: String,
    /// The arguments of the subcommand, in their order.
    pub arguments: Vec<CliArgument>,
}

/// The whole command line surface: one subcommand for each command.
#[derive(Clone, Debug, PartialEq, Eq)]
pub struct Cli {
    /// Whether a command line without a subcommand is refused.
    pub subcommand_required: bool,
    /// The subcommands, in their order.
    pub subcommands: Vec<CliCommand>,
}

/// What the surface says of one argument.
pub struct ArgumentSurface {
    pub name: Seq<char>,
    pub long: Option<Seq<char>>,
    pub short: Option<char>,
    pub default_value: Option<Seq<char>>,
    pub required: bool,
    pub help: Option<Seq<char>>,
}

/// What the surface says of one subcommand.
pub struct CommandSurface {
    pub name: Seq<char>,
    pub about: Seq<char>,
    pub arguments: Seq<ArgumentSurface>,
}

/// What the surface says as a whole.
pub struct CliSurface {
    pub subcommand_required: bool,
    pub subcommands: Seq<CommandSurface>,
}

impl DeepView for CliArgument {
    type V = ArgumentSurface;

    open spec fn deep_view(&self) -> ArgumentSurface {
        ArgumentSurface {
            name: self.name@,
            long: self.long.deep_view(),
            short: self.short,
            default_value: self.default_value.deep_view(),
            required: self.required,
            help: self.help.deep_view(),
        }
    }
}

impl DeepView for CliCommand {
    type V = CommandSurface;

    open spec fn deep_view(&self) -> CommandSurface {
        CommandSurface {
            name: self.name@,
            about: self.about@,
            arguments: self.arguments.deep_view(),
        }
    }
}

impl DeepView for Cli {
    type V = CliSurface;

    open spec fn deep_view(&self) -> CliSurface {
        CliSurface {
            subcommand_required: self.subcommand_required,
            subcommands: self.subcommands.deep_view(),
        }
    }
}

impl ArgumentSurface {
    /// Neither a long nor a short form: the argument is taken by position.
    pub open spec fn is_positional(self) -> bool {
        self.long is None && self.short is None
    }
}

/// The long form that the kinds give: that of the last long flag among them.
pub open spec fn long_form(kinds: Seq<ArgumentKind>) -> Option<Seq<char>>
    decreases kinds.len(),
{
    if kinds.len() == 0 {
        None
    } else {
        match kinds.last() {
            ArgumentKind::Named(FlagKind::Long(text)) => Some(text),
            _ => long_form(kinds.drop_last()),
        }
    }
}

/// The short form that the kinds give: that of the last short flag among them.
pub open spec fn short_form(kinds: Seq<ArgumentKind>) -> Option<char>
    decreases kinds.len(),
{
    if kinds.len() == 0 {
        None
    } else {
        match kinds.last() {
            ArgumentKind::Named(FlagKind::Short(c)) => Some(c),
            _ => short_form(kinds.drop_last()),
        }
    }
}

/// What the help shows of a command: its description, where it has one, a
/// blank line, then the template as it was declared.
pub open spec fn about_text(description: Option<Seq<char>>, template: Seq<char>) -> Seq<char> {
    match description {
        Some(text) => text + "\n\n"@ + "Command: "@ + template,
        None => "Command: "@ + template,
    }
}

/// The surface of one argument: optional, with its default, where it has
/// one, and mandatory otherwise.
pub open spec fn argument_surface(argument: ValidatedArgument) -> ArgumentSurface {
    ArgumentSurface {
        name: argument.name,
        long: long_form(argument.kinds),
        short: short_form(argument.kinds),
        default_value: argument.default,
        required: argument.default is None,
        help: argument.description,
    }
}

/// The surface of one command: one argument for each of its arguments, in
/// their order.
pub open spec fn command_surface(command: NormalizedCommand) -> CommandSurface {
    CommandSurface {
        name: command.name,
        about: about_text(command.description, command.template),
        arguments: Seq::new(
            command.arguments.len(),
            |i: int| argument_surface(command.arguments[i]),
        ),
    }
}

/// The surface of a set of commands: a subcommand is required, and there is
/// one for each command, in their order.
pub open spec fn cli_surface(commands: Seq<NormalizedCommand>) -> CliSurface {
    CliSurface {
        subcommand_required: true,
        subcommands: Seq::new(commands.len(), |i: int| command_surface(commands[i])),
    }
}

/// The kinds give a long form where, and only where, one of them is a long
/// flag, and a short form where, and only where, one of them is a short flag.
pub proof fn lemma_forms(kinds: Seq<ArgumentKind>)
    ensures
        long_form(kinds) is Some <==> count_long(kinds) > 0,
        short_form(kinds) is Some <==> count_short(kinds) > 0,
    decreases kinds.len(),
{
    if kinds.len() != 0 {
        lemma_forms(kinds.drop_last());
    }
}

/// A well-formed argument shows on the surface as it was declared: with the
/// text of its one long flag, the character of its one short flag, and by
/// position where its flag is positional.
pub proof fn lemma_surface_of_well_formed(argument: ValidatedArgument)
    requires
        argument.well_formed(),
    ensures
        forall|i: int|
            0 <= i < argument.kinds.len() ==> match #[trigger] argument.kinds[i] {
                ArgumentKind::Named(FlagKind::Long(text)) => argument_surface(argument).long
                    == Some(text),
                ArgumentKind::Named(FlagKind::Short(c)) => argument_surface(argument).short
                    == Some(c),
                ArgumentKind::Positional => argument_surface(argument).is_positional(),
            },
{
    let kinds = argument.kinds;
    lemma_valid_kinds(kinds);
    reveal_with_fuel(long_form, 3);
    reveal_with_fuel(short_form, 3);
    if kinds.len() == 1 {
        assert(kinds.drop_last().len() == 0);
    } else {
        assert(kinds.drop_last().len() == 1);
        assert(kinds.drop_last().drop_last().len() == 0);
        assert(kinds.drop_last().last() == kinds[0]);
    }
}

/// A copy of an optional text.
fn copy_of(text: &Option<String>) -> (copy: Option<String>)
    ensures
        copy.deep_view() == text.deep_view(),
{
    match text {
        Some(text) => Some(text.clone()),
        None => None,
    }
}

/// Build the surface of one argument.
pub fn build_argument(zxc_argument_def: &ZxcArgumentDef) -> (cli_argument: CliArgument)
    ensures
        cli_argument.deep_view() == argument_surface(zxc_argument_def.deep_view()),
{
    let mut long: Option<String> = None;
    let mut short: Option<char> = None;
    let ghost kinds = zxc_argument_def.flags.deep_view();
    let mut i: usize = 0;
    while i < zxc_argument_def.flags.len()
        invariant
            i <= zxc_argument_def.flags.len(),
            kinds == zxc_argument_def.flags.deep_view(),
            long.deep_view() == long_form(kinds.take(i as int)),
            short == short_form(kinds.take(i as int)),
        decreases zxc_argument_def.flags.len() - i,
    {
        assert(kinds.take(i + 1).drop_last() =~= kinds.take(i as int));
        match &zxc_argument_def.flags[i] {
            ArgumentType::Named(FlagType::Short(c)) => {
                short = Some(*c);
            },
            ArgumentType::Named(FlagType::Long(text)) => {
                long = Some(text.clone());
            },
            // Nothing needs to be done for positional - argument name is used.
            ArgumentType::Positional => {},
        }
        i += 1;
    }
    assert(kinds.take(zxc_argument_def.flags.len() as int) =~= kinds);
    let default_value = copy_of(&zxc_argument_def.default);
    let required = default_value.is_none();
    CliArgument {
        name: zxc_argument_def.name.clone(),
        long,
        short,
        default_value,
        required,
        help: copy_of(&zxc_argument_def.description),
    }
}

/// Build the surface of one subcommand.
pub fn build_subcommand(zxc_command_def: &ZxcCommandDef) -> (cli_command: CliCommand)
    ensures
        cli_command.deep_view() == command_surface(zxc_command_def.deep_view()),
{
    // Add 'about' section - containing description and command.
    let mut about_string = String::new();
    if let Some(description) = &zxc_command_def.description {
        about_string.append(description.as_str());
        about_string.append("\n\n");
    }
    about_string.append("Command: ");
    about_string.append(zxc_command_def.command.as_str());
    assert(about_string@ =~= about_text(
        zxc_command_def.description.deep_view(),
        zxc_command_def.command@,
    ));

    // Add arguments.
    let mut arguments: Vec<CliArgument> = Vec::new();
    let mut i: usize = 0;
    while i < zxc_command_def.arguments.len()
        invariant
            i <= zxc_command_def.arguments.len(),
            arguments.len() == i,
            forall|k: int|
                0 <= k < i ==> (#[trigger] arguments@[k]).deep_view() == argument_surface(
                    zxc_command_def.arguments@[k].deep_view(),
                ),
        decreases zxc_command_def.arguments.len() - i,
    {
        arguments.push(build_argument(&zxc_command_def.arguments[i]));
        i += 1;
    }
    let cli_command = CliCommand {
        name: zxc_command_def.name.clone(),
        about: about_string,
        arguments,
    };
    assert(cli_command.deep_view().arguments =~= command_surface(
        zxc_command_def.deep_view(),
    ).arguments);
    cli_command
}

/// Build the surface of the whole command line: one subcommand for each
/// command, in their order.
pub fn build_cli(zxc_command_defs: &ZxcCommandDefs) -> (cli: Cli)
    ensures
        cli.deep_view() == cli_surface(zxc_command_defs.deep_view()),
{
    let mut subcommands: Vec<CliCommand> = Vec::new();
    let mut i: usize = 0;
    while i < zxc_command_defs.len()
        invariant
            i <= zxc_command_defs.len(),
            subcommands.len() == i,
            forall|k: int|
                0 <= k < i ==> (#[trigger] subcommands@[k]).deep_view() == command_surface(
                    zxc_command_defs@[k].deep_view(),
                ),
        decreases zxc_command_defs.len() - i,
    {
        subcommands.push(build_subcommand(&zxc_command_defs[i]));
        i += 1;
    }
    let cli = Cli { subcommand_required: true, subcommands };
    assert(cli.deep_view().subcommands =~= cli_surface(zxc_command_defs.deep_view()).subcommands);
    cli
}

} // verus!
