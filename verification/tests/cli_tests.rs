use zxc::cli::{build_argument, build_cli, build_subcommand, Cli, CliArgument, CliCommand};
use zxc::zxc_command_defs::{ArgumentType, FlagType, ZxcArgumentDef, ZxcCommandDef};

fn argument(name: &str, flags: Vec<ArgumentType>, default: Option<&str>) -> ZxcArgumentDef {
    ZxcArgumentDef {
        name: name.to_string(),
        flags,
        default: default.map(|text| text.to_string()),
        description: None,
    }
}

fn long(text: &str) -> ArgumentType {
    ArgumentType::Named(FlagType::Long(text.to_string()))
}

fn short(c: char) -> ArgumentType {
    ArgumentType::Named(FlagType::Short(c))
}

#[test]
fn long_and_short_flags_become_the_two_forms() {
    let built = build_argument(&argument("name", vec![long("name"), short('n')], Some("World")));
    assert_eq!(
        built,
        CliArgument {
            name: "name".to_string(),
            long: Some("name".to_string()),
            short: Some('n'),
            default_value: Some("World".to_string()),
            required: false,
            help: None,
        }
    );
}

#[test]
fn an_argument_without_default_is_required() {
    let built = build_argument(&argument("name", vec![short('n')], None));
    assert!(built.required);
    assert_eq!(built.default_value, None);
    assert_eq!(built.short, Some('n'));
    assert_eq!(built.long, None);
}

#[test]
fn an_empty_default_is_still_a_default() {
    let built = build_argument(&argument("parameters", vec![long("parameters")], Some("")));
    assert!(!built.required);
    assert_eq!(built.default_value, Some(String::new()));
}

#[test]
fn a_positional_argument_has_neither_form_and_goes_by_its_name() {
    let built = build_argument(&argument("file", vec![ArgumentType::Positional], None));
    assert_eq!(built.name, "file");
    assert_eq!(built.long, None);
    assert_eq!(built.short, None);
    assert!(built.required);
}

#[test]
fn the_description_becomes_the_help() {
    let mut def = argument("name", vec![long("name")], None);
    def.description = Some("Whom to greet".to_string());
    assert_eq!(build_argument(&def).help, Some("Whom to greet".to_string()));
}

#[test]
fn a_later_flag_of_a_kind_replaces_an_earlier_one() {
    let built = build_argument(&argument(
        "name",
        vec![long("first"), short('a'), long("second"), short('b')],
        None,
    ));
    assert_eq!(built.long, Some("second".to_string()));
    assert_eq!(built.short, Some('b'));
}

fn greet() -> ZxcCommandDef {
    ZxcCommandDef {
        name: "greet".to_string(),
        command: "echo {{ name }}".to_string(),
        description: Some("Say hello".to_string()),
        arguments: vec![argument("name", vec![long("name"), short('n')], Some("World"))],
    }
}

#[test]
fn about_is_description_blank_line_and_template() {
    let built = build_subcommand(&greet());
    assert_eq!(built.name, "greet");
    assert_eq!(built.about, "Say hello\n\nCommand: echo {{ name }}");
    assert_eq!(built.arguments.len(), 1);
    assert_eq!(built.arguments[0].name, "name");
}

#[test]
fn about_without_description_is_the_template_alone() {
    let mut def = greet();
    def.description = None;
    assert_eq!(build_subcommand(&def).about, "Command: echo {{ name }}");
}

#[test]
fn arguments_keep_their_order() {
    let def = ZxcCommandDef {
        name: "copy".to_string(),
        command: "cp {{ from }} {{ to }}".to_string(),
        description: None,
        arguments: vec![
            argument("from", vec![ArgumentType::Positional], None),
            argument("to", vec![ArgumentType::Positional], Some(".")),
        ],
    };
    let built = build_subcommand(&def);
    assert_eq!(built.arguments[0].name, "from");
    assert_eq!(built.arguments[1].name, "to");
    assert!(built.arguments[0].required);
    assert!(!built.arguments[1].required);
}

#[test]
fn one_subcommand_for_each_command() {
    let mut test = greet();
    test.name = "test".to_string();
    test.command = "cargo test".to_string();
    test.arguments = vec![];
    let cli = build_cli(&vec![greet(), test.clone()]);
    assert!(cli.subcommand_required);
    assert_eq!(cli.subcommands, vec![build_subcommand(&greet()), build_subcommand(&test)]);
}

#[test]
fn no_command_gives_no_subcommand() {
    assert_eq!(build_cli(&vec![]), Cli { subcommand_required: true, subcommands: vec![] });
}

#[test]
fn a_command_without_arguments_has_none() {
    let def = ZxcCommandDef {
        name: "test".to_string(),
        command: "cargo test".to_string(),
        description: None,
        arguments: vec![],
    };
    assert_eq!(
        build_subcommand(&def),
        CliCommand {
            name: "test".to_string(),
            about: "Command: cargo test".to_string(),
            arguments: vec![],
        }
    );
}
