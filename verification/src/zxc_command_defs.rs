use crate::fallible::{lemma_try_all_ok, lemma_try_all_prefix_err, lemma_try_all_step, try_all};
use crate::flag_grammar::{validate, validate_flags, violation};
use crate::name_map::{distinct_names, entry_views, lemma_first_index_is, lookup};
use crate::text::same_text;
use crate::yaml_command_defs::{
    RawArgument, RawCommand, YamlArgumentDef, YamlCommandDef, YamlCommandDefs,
};
use vstd::prelude::*;

verus! {

/// Flag type.
#[derive(Clone, Debug, PartialEq, Eq)]
pub enum FlagType {
    /// Short flag: the one character that follows '-'. E.g., 'n' for '-n'.
    Short(char),
    /// Long flag: what follows '--'. E.g., 'name' for '--name'.
    Long(String),
}

/// Argument type.
#[derive(Clone, Debug, PartialEq, Eq)]
pub enum ArgumentType {
    /// Named argument ('-n', '--name').
    Named(FlagType),
    /// Positional argument - argument name is used.
    Positional,
}

/// An argument whose flags have been classified and checked.
#[derive(Clone, Debug, PartialEq, Eq)]
pub struct ZxcArgumentDef {
    /// Argument name.
    pub name: String,
    /// Flags.
    pub flags: Vec<ArgumentType>,
    /// Default value.
    pub default: Option<String>,
    /// Description of an argument.
    pub description: Option<String>,
}

/// A command whose arguments have all been checked.
#[derive(Clone, Debug, PartialEq, Eq)]
pub struct ZxcCommandDef {
    /// Command name.
    pub name: String,
    /// Shell command.
    pub command: String,
    /// Command description.
    pub description: Option<String>,
    /// Arguments used by the command.
    pub arguments: Vec<ZxcArgumentDef>,
}

/// The checked commands, in the order of their declarations.
pub type ZxcCommandDefs = Vec<ZxcCommandDef>;

/// The rule of the flag grammar that a declaration breaks.
#[derive(Clone, Copy, Debug, PartialEq, Eq, Structural)]
pub enum ValidationErrorKind {
    /// Nothing follows the '--' of a long flag.
    MalformedLongFlag,
    /// A flag that starts with '-' is not exactly two characters long.
    MalformedShortFlag,
    /// The argument declares no flag.
    NoFlags,
    /// The argument declares more than two flags.
    TooManyFlags,
    /// The argument declares both a positional and a named flag.
    PositionalWithNamed,
    /// The argument declares two positional flags.
    DuplicatePositional,
    /// The argument declares two short flags.
    DuplicateShortFlag,
    /// The argument declares two long flags.
    DuplicateLongFlag,
}

/// A broken rule, with the argument that breaks it and its flags as declared.
#[derive(Clone, Debug, PartialEq, Eq)]
pub struct ValidationError {
    /// The rule that is broken.
    pub kind: ValidationErrorKind,
    /// Name of the command that declares the argument.
    pub command: String,
    /// Name of the offending argument.
    pub argument: String,
    /// The argument's flags as they were declared.
    pub flags: Vec<String>,
}

/// What a named flag is: a short flag by its character, a long flag by its
/// text.
pub enum FlagKind {
    Short(char),
    Long(Seq<char>),
}

/// What one flag of an argument declares.
pub enum ArgumentKind {
    Named(FlagKind),
    Positional,
}

/// What a checked argument says.
pub struct ValidatedArgument {
    pub name: Seq<char>,
    pub kinds: Seq<ArgumentKind>,
    pub default: Option<Seq<char>>,
    pub description: Option<Seq<char>>,
}

/// What a checked command says.
pub struct NormalizedCommand {
    pub name: Seq<char>,
    pub template: Seq<char>,
    pub description: Option<Seq<char>>,
    pub arguments: Seq<ValidatedArgument>,
}

/// What a fault says: the broken rule, the command and the argument that
/// break it, and the flags of the argument as declared.
pub struct Violation {
    pub kind: ValidationErrorKind,
    pub command: Seq<char>,
    pub argument: Seq<char>,
    pub flags: Seq<Seq<char>>,
}

impl DeepView for FlagType {
    type V = FlagKind;

    open spec fn deep_view(&self) -> FlagKind {
        match self {
            FlagType::Short(c) => FlagKind::Short(*c),
            FlagType::Long(s) => FlagKind::Long(s@),
        }
    }
}

impl DeepView for ArgumentType {
    type V = ArgumentKind;

    open spec fn deep_view(&self) -> ArgumentKind {
        match self {
            ArgumentType::Named(flag) => ArgumentKind::Named(flag.deep_view()),
            ArgumentType::Positional => ArgumentKind::Positional,
        }
    }
}

impl DeepView for ZxcArgumentDef {
    type V = ValidatedArgument;

    open spec fn deep_view(&self) -> ValidatedArgument {
        ValidatedArgument {
            name: self.name@,
            kinds: self.flags.deep_view(),
            default: self.default.deep_view(),
            description: self.description.deep_view(),
        }
    }
}

impl DeepView for ZxcCommandDef {
    type V = NormalizedCommand;

    open spec fn deep_view(&self) -> NormalizedCommand {
        NormalizedCommand {
            name: self.name@,
            template: self.command@,
            description: self.description.deep_view(),
            arguments: self.arguments.deep_view(),
        }
    }
}

impl DeepView for ValidationError {
    type V = Violation;

    open spec fn deep_view(&self) -> Violation {
        Violation {
            kind: self.kind,
            command: self.command@,
            argument: self.argument@,
            flags: self.flags.deep_view(),
        }
    }
}

/// What is said of a broken rule.
pub open spec fn description_of(kind: ValidationErrorKind) -> Seq<char> {
    match kind {
        ValidationErrorKind::MalformedLongFlag => "Long flag must name something after '--'"@,
        ValidationErrorKind::MalformedShortFlag => "Short flag must consist of two characters"@,
        ValidationErrorKind::NoFlags => "No flags are defined"@,
        ValidationErrorKind::TooManyFlags => "More than two flags defined"@,
        ValidationErrorKind::PositionalWithNamed =>
            "Both positional and named argument flags are defined"@,
        ValidationErrorKind::DuplicatePositional => "Multiple positional arguments are defined"@,
        ValidationErrorKind::DuplicateShortFlag =>
            "Multiple named argument short flags are defined"@,
        ValidationErrorKind::DuplicateLongFlag =>
            "Multiple named argument long flags are defined"@,
    }
}

/// The parts one after the other, with ", " between two of them.
pub open spec fn comma_separated(parts: Seq<Seq<char>>) -> Seq<char>
    decreases parts.len(),
{
    if parts.len() == 0 {
        Seq::empty()
    } else if parts.len() == 1 {
        parts[0]
    } else {
        comma_separated(parts.drop_last()) + ", "@ + parts.last()
    }
}

/// The whole message of a fault: the broken rule, then the command, the
/// argument and the flags as declared.
pub open spec fn message_of(fault: Violation) -> Seq<char> {
    description_of(fault.kind) + ": command '"@ + fault.command + "', argument '"@ + fault.argument
        + "', flags ["@ + comma_separated(fault.flags) + "]"@
}

impl ValidationErrorKind {
    /// What is said of the broken rule.
    pub fn description(&self) -> (text: &'static str)
        ensures
            text@ == description_of(*self),
    {
        match self {
            ValidationErrorKind::MalformedLongFlag => "Long flag must name something after '--'",
            ValidationErrorKind::MalformedShortFlag => "Short flag must consist of two characters",
            ValidationErrorKind::NoFlags => "No flags are defined",
            ValidationErrorKind::TooManyFlags => "More than two flags defined",
            ValidationErrorKind::PositionalWithNamed => {
                "Both positional and named argument flags are defined"
            },
            ValidationErrorKind::DuplicatePositional => "Multiple positional arguments are defined",
            ValidationErrorKind::DuplicateShortFlag => {
                "Multiple named argument short flags are defined"
            },
            ValidationErrorKind::DuplicateLongFlag => {
                "Multiple named argument long flags are defined"
            },
        }
    }
}

impl ValidationError {
    /// The whole message of the fault.
    pub fn message(&self) -> (text: String)
        ensures
            text@ == message_of(self.deep_view()),
    {
        let mut text = String::new();
        text.append(self.kind.description());
        text.append(": command '");
        text.append(self.command.as_str());
        text.append("', argument '");
        text.append(self.argument.as_str());
        text.append("', flags [");
        let ghost head = text@;
        let ghost parts = self.flags.deep_view();
        let mut i: usize = 0;
        assert(parts.take(0) =~= Seq::empty());
        while i < self.flags.len()
            invariant
                i <= self.flags.len(),
                parts == self.flags.deep_view(),
                text@ == head + comma_separated(parts.take(i as int)),
            decreases self.flags.len() - i,
        {
            assert(parts.take(i + 1).drop_last() =~= parts.take(i as int));
            if i > 0 {
                text.append(", ");
            }
            text.append(self.flags[i].as_str());
            i += 1;
        }
        assert(parts.take(self.flags.len() as int) =~= parts);
        text.append("]");
        text
    }
}

/// The checked form of argument `name` of command `command`.
pub open spec fn validated_argument(
    command: Seq<char>,
    name: Seq<char>,
    raw: RawArgument,
) -> Result<ValidatedArgument, Violation> {
    match validate(raw.flags) {
        Err(kind) => Err(Violation { kind, command, argument: name, flags: raw.flags }),
        Ok(kinds) => Ok(
            ValidatedArgument { name, kinds, default: raw.default, description: raw.description },
        ),
    }
}

/// The checked arguments of a command, in the order of their declaration, or
/// the fault of the first bad one.
pub open spec fn validated_arguments(
    command: Seq<char>,
    raw: Seq<(Seq<char>, RawArgument)>,
) -> Result<Seq<ValidatedArgument>, Violation> {
    try_all(raw, |entry: (Seq<char>, RawArgument)| validated_argument(command, entry.0, entry.1))
}

/// The normalized form of command `name`. A command without an argument
/// table has no arguments.
pub open spec fn normalized_command(name: Seq<char>, raw: RawCommand) -> Result<
    NormalizedCommand,
    Violation,
> {
    let declared = match raw.arguments {
        Some(arguments) => arguments,
        None => Seq::empty(),
    };
    match validated_arguments(name, declared) {
        Err(fault) => Err(fault),
        Ok(arguments) => Ok(
            NormalizedCommand {
                name,
                template: raw.command,
                description: raw.description,
                arguments,
            },
        ),
    }
}

/// The normalized commands, in the order of the declarations, or the fault of
/// the first bad command.
pub open spec fn normalized_commands(raw: Seq<(Seq<char>, RawCommand)>) -> Result<
    Seq<NormalizedCommand>,
    Violation,
> {
    try_all(raw, |entry: (Seq<char>, RawCommand)| normalized_command(entry.0, entry.1))
}

/// The argument names of a command, in order.
pub open spec fn argument_names(arguments: Seq<ValidatedArgument>) -> Seq<Seq<char>> {
    Seq::new(arguments.len(), |i: int| arguments[i].name)
}

/// The names of a list of commands, in order.
pub open spec fn command_names(commands: Seq<NormalizedCommand>) -> Seq<Seq<char>> {
    Seq::new(commands.len(), |i: int| commands[i].name)
}

impl ValidatedArgument {
    /// One or two flags, positional never beside named, no kind twice.
    pub open spec fn well_formed(self) -> bool {
        violation(self.kinds) is None
    }
}

impl NormalizedCommand {
    /// Every argument is well formed and no two arguments share a name.
    pub open spec fn well_formed(self) -> bool {
        &&& forall|i: int|
            0 <= i < self.arguments.len() ==> (#[trigger] self.arguments[i]).well_formed()
        &&& argument_names(self.arguments).no_duplicates()
    }
}

/// Every command is well formed and no two commands share a name.
pub open spec fn well_formed_commands(commands: Seq<NormalizedCommand>) -> bool {
    &&& forall|i: int| 0 <= i < commands.len() ==> (#[trigger] commands[i]).well_formed()
    &&& command_names(commands).no_duplicates()
}

/// Checks one declared argument of command `command`: its flags are
/// classified and held to the grammar. A fault names the command, the
/// argument and the flags as declared.
pub fn validate_argument(command: &str, name: String, def: YamlArgumentDef) -> (checked: Result<
    ZxcArgumentDef,
    ValidationError,
>)
    ensures
        match checked {
            Ok(argument) => validated_argument(command@, name@, def.deep_view()) == Ok::<
                ValidatedArgument,
                Violation,
            >(argument.deep_view()) && argument.deep_view().well_formed(),
            Err(fault) => validated_argument(command@, name@, def.deep_view()) == Err::<
                ValidatedArgument,
                Violation,
            >(fault.deep_view()),
        },
{
    let YamlArgumentDef { flags, default, description } = def;
    match validate_flags(&flags) {
        Err(kind) => Err(
            ValidationError { kind, command: command.to_owned(), argument: name, flags },
        ),
        Ok(kinds) => Ok(ZxcArgumentDef { name, flags: kinds, default, description }),
    }
}

/// Normalizes one declared command: its arguments are checked in the order
/// of their declaration, and the first fault ends the work.
pub fn normalize_command(name: String, def: YamlCommandDef) -> (normalized: Result<
    ZxcCommandDef,
    ValidationError,
>)
    ensures
        match normalized {
            Ok(command) => normalized_command(name@, def.deep_view()) == Ok::<
                NormalizedCommand,
                Violation,
            >(command.deep_view()) && command.deep_view().well_formed(),
            Err(fault) => normalized_command(name@, def.deep_view()) == Err::<
                NormalizedCommand,
                Violation,
            >(fault.deep_view()),
        },
{
    let YamlCommandDef { command, description, arguments } = def;
    let mut checked: Vec<ZxcArgumentDef> = Vec::new();
    assert(checked.deep_view() =~= Seq::empty());
    match arguments {
        None => {},
        Some(declared) => {
            let ghost raw = declared.deep_view();
            let entries = declared.into_entries();
            let ghost stored = entries@;
            assert(raw.take(0) =~= Seq::empty());
            for entry in it: entries
                invariant
                    it.seq() == stored,
                    def.deep_view().arguments == Some(raw),
                    raw.len() == stored.len(),
                    forall|k: int|
                        0 <= k < stored.len() ==> #[trigger] raw[k] == (
                            stored[k].0@,
                            stored[k].1.deep_view(),
                        ),
                    validated_arguments(name@, raw.take(it.index() as int)) == Ok::<
                        Seq<ValidatedArgument>,
                        Violation,
                    >(checked.deep_view()),
            {
                let ghost n: int = it.index() as int;
                proof {
                    lemma_try_all_step(
                        raw,
                        |entry: (Seq<char>, RawArgument)|
                            validated_argument(name@, entry.0, entry.1),
                        n,
                    );
                    assert(raw[n] == (stored[n].0@, stored[n].1.deep_view()));
                }
                let (argument_name, argument_def) = entry;
                match validate_argument(name.as_str(), argument_name, argument_def) {
                    Err(fault) => {
                        proof {
                            lemma_try_all_prefix_err(
                                raw,
                                |entry: (Seq<char>, RawArgument)|
                                    validated_argument(name@, entry.0, entry.1),
                                n + 1,
                            );
                        }
                        return Err(fault);
                    },
                    Ok(argument) => {
                        let ghost before = checked.deep_view();
                        checked.push(argument);
                        assert(checked.deep_view() =~= before.push(argument.deep_view()));
                    },
                }
            }
            assert(raw.take(stored.len() as int) =~= raw);
            proof {
                lemma_validated_arguments_well_formed(name@, raw);
                assert(entry_views(stored) =~= Seq::new(
                    raw.len(),
                    |k: int| (raw[k].0, stored[k].1),
                ));
                assert forall|a: int, b: int| 0 <= a < b < raw.len() implies raw[a].0
                    != raw[b].0 by {
                    assert(entry_views(stored)[a].0 != entry_views(stored)[b].0);
                }
            }
        },
    }
    Ok(ZxcCommandDef { name, command, description, arguments: checked })
}

/// Arguments that pass the check are well formed, keep the names and the
/// order of their declarations, and so have distinct names where those have.
pub proof fn lemma_validated_arguments_well_formed(
    command: Seq<char>,
    raw: Seq<(Seq<char>, RawArgument)>,
)
    requires
        validated_arguments(command, raw) is Ok,
    ensures
        validated_arguments(command, raw)->Ok_0.len() == raw.len(),
        forall|i: int|
            0 <= i < raw.len() ==> {
                let argument = #[trigger] validated_arguments(command, raw)->Ok_0[i];
                argument.well_formed() && argument.name == raw[i].0
            },
        distinct_names(raw) ==> argument_names(
            validated_arguments(command, raw)->Ok_0,
        ).no_duplicates(),
{
    let f = |entry: (Seq<char>, RawArgument)| validated_argument(command, entry.0, entry.1);
    lemma_try_all_ok(raw, f);
    let checked = validated_arguments(command, raw)->Ok_0;
    assert forall|i: int| 0 <= i < raw.len() implies {
        let argument = #[trigger] checked[i];
        argument.well_formed() && argument.name == raw[i].0
    } by {
        assert(f(raw[i]) == Ok::<ValidatedArgument, Violation>(checked[i]));
    }
}

/// Commands that pass keep the names and the order of their declarations.
pub proof fn lemma_normalized_commands_names(raw: Seq<(Seq<char>, RawCommand)>)
    requires
        normalized_commands(raw) is Ok,
    ensures
        normalized_commands(raw)->Ok_0.len() == raw.len(),
        forall|i: int|
            0 <= i < raw.len() ==> (#[trigger] normalized_commands(raw)->Ok_0[i]).name == raw[i].0,
        distinct_names(raw) ==> command_names(normalized_commands(raw)->Ok_0).no_duplicates(),
{
    let f = |entry: (Seq<char>, RawCommand)| normalized_command(entry.0, entry.1);
    lemma_try_all_ok(raw, f);
    let commands = normalized_commands(raw)->Ok_0;
    assert forall|i: int| 0 <= i < raw.len() implies (#[trigger] commands[i]).name == raw[i].0 by {
        assert(f(raw[i]) == Ok::<NormalizedCommand, Violation>(commands[i]));
    }
}

/// Change representation from declared to checked: every command is
/// normalized, in the order of the declarations. Nothing is handed out
/// unless the whole set is valid: the first fault found is the result.
pub fn load_zxc_defs(yaml_command_defs: YamlCommandDefs) -> (loaded: Result<
    ZxcCommandDefs,
    ValidationError,
>)
    ensures
        match loaded {
            Ok(commands) => normalized_commands(yaml_command_defs.deep_view()) == Ok::<
                Seq<NormalizedCommand>,
                Violation,
            >(commands.deep_view()) && well_formed_commands(commands.deep_view()),
            Err(fault) => normalized_commands(yaml_command_defs.deep_view()) == Err::<
                Seq<NormalizedCommand>,
                Violation,
            >(fault.deep_view()),
        },
{
    let ghost raw = yaml_command_defs.deep_view();
    let entries = yaml_command_defs.into_entries();
    let ghost stored = entries@;
    let mut zxc_command_defs: Vec<ZxcCommandDef> = Vec::new();
    assert(zxc_command_defs.deep_view() =~= Seq::empty());
    assert(raw.take(0) =~= Seq::empty());
    for entry in it: entries
        invariant
            it.seq() == stored,
            raw == yaml_command_defs.deep_view(),
            raw.len() == stored.len(),
            forall|k: int|
                0 <= k < stored.len() ==> #[trigger] raw[k] == (
                    stored[k].0@,
                    stored[k].1.deep_view(),
                ),
            normalized_commands(raw.take(it.index() as int)) == Ok::<
                Seq<NormalizedCommand>,
                Violation,
            >(zxc_command_defs.deep_view()),
            forall|k: int|
                0 <= k < zxc_command_defs.len() ==> (
                #[trigger] zxc_command_defs.deep_view()[k]).well_formed(),
    {
        let ghost n: int = it.index() as int;
        proof {
            lemma_try_all_step(
                raw,
                |entry: (Seq<char>, RawCommand)| normalized_command(entry.0, entry.1),
                n,
            );
            assert(raw[n] == (stored[n].0@, stored[n].1.deep_view()));
        }
        let (name, def) = entry;
        match normalize_command(name, def) {
            Err(fault) => {
                proof {
                    lemma_try_all_prefix_err(
                        raw,
                        |entry: (Seq<char>, RawCommand)| normalized_command(entry.0, entry.1),
                        n + 1,
                    );
                }
                return Err(fault);
            },
            Ok(command) => {
                let ghost before = zxc_command_defs.deep_view();
                zxc_command_defs.push(command);
                assert(zxc_command_defs.deep_view() =~= before.push(command.deep_view()));
            },
        }
    }
    assert(raw.take(stored.len() as int) =~= raw);
    proof {
        lemma_normalized_commands_names(raw);
        assert(entry_views(stored) =~= Seq::new(raw.len(), |k: int| (raw[k].0, stored[k].1)));
        assert forall|a: int, b: int| 0 <= a < b < raw.len() implies raw[a].0 != raw[b].0 by {
            assert(entry_views(stored)[a].0 != entry_views(stored)[b].0);
        }
    }
    Ok(zxc_command_defs)
}

/// The commands as entries under their names.
pub open spec fn by_name(commands: Seq<ZxcCommandDef>) -> Seq<(Seq<char>, ZxcCommandDef)> {
    Seq::new(commands.len(), |i: int| (commands[i].name@, commands[i]))
}

/// Find command definition using name: the first command of that name, or
/// nothing where no command has it.
pub fn find_zxc_command_def(zxc_command_defs: ZxcCommandDefs, command_name: &str) -> (found: Option<
    ZxcCommandDef,
>)
    ensures
        found == lookup(by_name(zxc_command_defs@), command_name@),
{
    let mut commands = zxc_command_defs;
    let mut i: usize = 0;
    while i < commands.len()
        invariant
            i <= commands.len(),
            commands@ == zxc_command_defs@,
            forall|j: int| 0 <= j < i ==> (#[trigger] by_name(commands@)[j]).0 != command_name@,
        decreases commands.len() - i,
    {
        assert(by_name(commands@)[i as int].0 == commands@[i as int].name@);
        if same_text(commands[i].name.as_str(), command_name) {
            proof {
                lemma_first_index_is(by_name(commands@), command_name@, i as int);
            }
            return Some(commands.remove(i));
        }
        i += 1;
    }
    proof {
        lemma_first_index_is(by_name(commands@), command_name@, i as int);
    }
    None
}

} // verus!
