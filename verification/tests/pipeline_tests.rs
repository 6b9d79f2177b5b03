use zxc::cli::build_cli;
use zxc::command_resolver::{Bindings, TemplateError, TemplateErrorKind};
use zxc::name_map::NameMap;
use zxc::pipeline::{
    exit_code, invocation_of, load_commands, prepare_invocation, DispatchError, StartupError,
};
use zxc::yaml_command_defs::{YamlArgumentDef, YamlCommandDef, YamlCommandDefs};
use zxc::zxc_command_defs::{ArgumentType, FlagType, ValidationErrorKind};

fn greet_declaration() -> YamlCommandDefs {
    let mut arguments = NameMap::new();
    arguments.insert(
        "name".to_string(),
        YamlArgumentDef {
            flags: vec!["--name".to_string(), "-n".to_string()],
            default: Some("World".to_string()),
            description: None,
        },
    );
    let mut defs = YamlCommandDefs::new();
    defs.insert(
        "greet".to_string(),
        YamlCommandDef {
            command: "echo {{name}}".to_string(),
            description: None,
            arguments: Some(arguments),
        },
    );
    defs
}

fn bound(pairs: &[(&str, &str)]) -> Bindings {
    let mut bindings = Bindings::new();
    for (name, value) in pairs {
        bindings.insert(name.to_string(), value.to_string());
    }
    bindings
}

#[test]
fn greet_from_declaration_to_command_line() {
    let commands = load_commands(vec![greet_declaration()]).unwrap();
    assert_eq!(commands.len(), 1);
    assert_eq!(commands[0].name, "greet");
    assert_eq!(
        commands[0].arguments[0].flags,
        vec![
            ArgumentType::Named(FlagType::Long("name".to_string())),
            ArgumentType::Named(FlagType::Short('n')),
        ]
    );

    let cli = build_cli(&commands);
    assert_eq!(cli.subcommands.len(), 1);
    let greet = &cli.subcommands[0];
    assert_eq!(greet.name, "greet");
    assert_eq!(greet.arguments[0].long, Some("name".to_string()));
    assert_eq!(greet.arguments[0].short, Some('n'));
    assert_eq!(greet.arguments[0].default_value, Some("World".to_string()));
    assert!(!greet.arguments[0].required);

    // No flag on the command line: the parser hands back the default.
    let line = prepare_invocation(commands, "greet", &bound(&[("name", "World")]));
    assert_eq!(line, Ok("echo World".to_string()));
    assert_eq!(exit_code(Some(0)), Ok(0));
}

#[test]
fn no_source_is_a_startup_fault() {
    assert_eq!(load_commands(vec![]), Err(StartupError::NoDefinitions));
}

#[test]
fn an_empty_source_gives_an_empty_command_set() {
    assert_eq!(load_commands(vec![YamlCommandDefs::new()]), Ok(vec![]));
}

#[test]
fn a_later_source_overrides_before_the_check() {
    let mut broken = YamlCommandDefs::new();
    broken.insert(
        "greet".to_string(),
        YamlCommandDef {
            command: "echo".to_string(),
            description: None,
            arguments: Some({
                let mut arguments = NameMap::new();
                arguments.insert(
                    "name".to_string(),
                    YamlArgumentDef { flags: vec!["--".to_string()], default: None, description: None },
                );
                arguments
            }),
        },
    );
    // Alone the broken source fails.
    match load_commands(vec![broken.clone()]) {
        Err(StartupError::Invalid(fault)) => {
            assert_eq!(fault.kind, ValidationErrorKind::MalformedLongFlag);
            assert_eq!(fault.command, "greet");
            assert_eq!(fault.argument, "name");
            assert_eq!(fault.flags, vec!["--".to_string()]);
        }
        other => panic!("unexpected {other:?}"),
    }
    // Overridden whole by a later source it does not.
    let commands = load_commands(vec![broken.clone(), greet_declaration()]).unwrap();
    assert_eq!(commands[0].command, "echo {{name}}");
    // And as the later source it fails again.
    assert!(load_commands(vec![greet_declaration(), broken]).is_err());
}

#[test]
fn an_unknown_subcommand_is_not_found() {
    let commands = load_commands(vec![greet_declaration()]).unwrap();
    assert_eq!(
        prepare_invocation(commands, "part", &bound(&[])),
        Err(DispatchError::CommandNotFound)
    );
}

#[test]
fn a_template_fault_stops_the_invocation() {
    let commands = load_commands(vec![greet_declaration()]).unwrap();
    match prepare_invocation(commands, "greet", &bound(&[])) {
        Err(DispatchError::Template(fault)) => assert_eq!(fault.kind, TemplateErrorKind::Undefined),
        other => panic!("unexpected {other:?}"),
    }
}

#[test]
fn given_values_go_into_the_template() {
    let commands = load_commands(vec![greet_declaration()]).unwrap();
    let line = prepare_invocation(commands, "greet", &bound(&[("name", "you there")]));
    assert_eq!(line, Ok("echo you there".to_string()));
}

#[test]
fn a_resolved_template_is_the_invocation() {
    assert_eq!(invocation_of(Ok("echo hi".to_string())), Ok("echo hi".to_string()));
    assert_eq!(invocation_of(Ok(String::new())), Ok(String::new()));
}

#[test]
fn a_template_fault_is_the_fault_of_the_invocation() {
    let fault = TemplateError { kind: TemplateErrorKind::Syntax, message: "bad".to_string() };
    assert_eq!(invocation_of(Err(fault.clone())), Err(DispatchError::Template(fault)));
    let fault = TemplateError { kind: TemplateErrorKind::Undefined, message: String::new() };
    assert_eq!(invocation_of(Err(fault.clone())), Err(DispatchError::Template(fault)));
}

#[test]
fn the_exit_code_is_that_of_the_process() {
    assert_eq!(exit_code(Some(0)), Ok(0));
    assert_eq!(exit_code(Some(1)), Ok(1));
    assert_eq!(exit_code(Some(127)), Ok(127));
    assert_eq!(exit_code(Some(-1)), Ok(-1));
}

#[test]
fn a_process_ended_by_a_signal_has_no_exit_code() {
    assert_eq!(exit_code(None), Err(DispatchError::AbnormalTermination));
}
