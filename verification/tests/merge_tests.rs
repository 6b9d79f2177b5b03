use zxc::command_defs::{merge_definitions, ArgumentDef, CommandDef, CommandDefs};
use zxc::name_map::{merge, NameMap};
use zxc::yaml_command_defs::{merge_yaml_defs, YamlArgumentDef, YamlCommandDef, YamlCommandDefs};

#[test]
fn command_defs_valid_defs() {
    let mut defs1 = CommandDefs::new();
    defs1.insert(
        "build".to_string(),
        CommandDef {
            command: "cargo build".to_string(),
            description: Some("Build the project".to_string()),
            arguments: None,
        },
    );

    let mut defs2 = CommandDefs::new();
    defs2.insert(
        "test".to_string(),
        CommandDef {
            command: "cargo test".to_string(),
            description: Some("Run tests".to_string()),
            arguments: None,
        },
    );

    let merged_defs = merge_definitions(vec![defs1.clone(), defs2.clone()]);
    assert_eq!(merged_defs.len(), 2);
    assert!(merged_defs.contains_key("build"));
    assert!(merged_defs.contains_key("test"));

    assert_eq!(defs1.len(), 1);
    assert_eq!(defs2.len(), 1);
}

#[test]
fn command_defs_command_overwrite() {
    let mut defs1 = CommandDefs::new();
    defs1.insert(
        "run".to_string(),
        CommandDef {
            command: "cargo run".to_string(),
            description: Some("Run the project".to_string()),
            arguments: None,
        },
    );

    let mut defs2 = CommandDefs::new();
    defs2.insert(
        "run".to_string(),
        CommandDef {
            command: "custom run".to_string(),
            description: Some("Custom run command".to_string()),
            arguments: None,
        },
    );

    let merged_defs = merge_definitions(vec![defs1, defs2]);
    assert_eq!(merged_defs.len(), 1);
    assert_eq!(merged_defs.get("run").unwrap().command, "custom run");
}

#[test]
fn command_defs_empty_input() {
    let empty_defs = vec![];
    let merged_defs = merge_definitions(empty_defs);
    assert!(merged_defs.is_empty());
}

#[test]
fn command_defs_overwrite_replaces_arguments_too() {
    let mut arguments = NameMap::new();
    arguments.insert(
        "target".to_string(),
        ArgumentDef {
            description: Some("What to build".to_string()),
            default: None,
            long: Some("target".to_string()),
            short: Some("t".to_string()),
        },
    );
    let mut defs1 = CommandDefs::new();
    defs1.insert(
        "build".to_string(),
        CommandDef {
            command: "make {{ target }}".to_string(),
            description: Some("Build".to_string()),
            arguments: Some(arguments),
        },
    );
    let mut defs2 = CommandDefs::new();
    defs2.insert(
        "build".to_string(),
        CommandDef { command: "make".to_string(), description: None, arguments: None },
    );

    let merged_defs = merge_definitions(vec![defs1, defs2]);
    let build = merged_defs.get("build").unwrap();
    assert_eq!(build.command, "make");
    assert!(build.description.is_none());
    assert!(build.arguments.is_none());
}

#[test]
fn yaml_command_defs_valid_defs() {
    let mut defs1 = YamlCommandDefs::new();
    defs1.insert(
        "build".to_string(),
        YamlCommandDef {
            command: "cargo build".to_string(),
            description: Some("Build the project".to_string()),
            arguments: None,
        },
    );

    let mut defs2 = YamlCommandDefs::new();
    defs2.insert(
        "test".to_string(),
        YamlCommandDef {
            command: "cargo test".to_string(),
            description: Some("Run tests".to_string()),
            arguments: None,
        },
    );

    let merged_defs = merge_yaml_defs(vec![defs1.clone(), defs2.clone()]);
    assert_eq!(merged_defs.len(), 2);
    assert!(merged_defs.contains_key("build"));
    assert!(merged_defs.contains_key("test"));

    assert_eq!(defs1.len(), 1);
    assert_eq!(defs2.len(), 1);
}

#[test]
fn yaml_command_defs_command_overwrite() {
    let mut defs1 = YamlCommandDefs::new();
    defs1.insert(
        "run".to_string(),
        YamlCommandDef {
            command: "cargo run".to_string(),
            description: Some("Run the project".to_string()),
            arguments: None,
        },
    );

    let mut defs2 = YamlCommandDefs::new();
    defs2.insert(
        "run".to_string(),
        YamlCommandDef {
            command: "custom run".to_string(),
            description: Some("Custom run command".to_string()),
            arguments: None,
        },
    );

    let merged_defs = merge_yaml_defs(vec![defs1, defs2]);
    assert_eq!(merged_defs.len(), 1);
    assert_eq!(merged_defs.get("run").unwrap().command, "custom run");
}

#[test]
fn yaml_command_defs_empty_input() {
    let empty_defs = vec![];
    let merged_defs = merge_yaml_defs(empty_defs);
    assert!(merged_defs.is_empty());
}

fn plain(command: &str) -> YamlCommandDef {
    YamlCommandDef { command: command.to_string(), description: None, arguments: None }
}

#[test]
fn merge_last_source_wins_whole_command() {
    let mut first = YamlCommandDefs::new();
    first.insert("a".to_string(), plain("1"));
    let mut second = YamlCommandDefs::new();
    second.insert("a".to_string(), plain("2"));
    second.insert("b".to_string(), plain("3"));

    let merged = merge_yaml_defs(vec![first, second]);
    assert_eq!(merged.len(), 2);
    assert_eq!(merged.get("a").unwrap().command, "2");
    assert_eq!(merged.get("b").unwrap().command, "3");
}

#[test]
fn merge_keeps_the_place_of_an_overridden_command() {
    let mut first = YamlCommandDefs::new();
    first.insert("a".to_string(), plain("1"));
    first.insert("b".to_string(), plain("2"));
    let mut second = YamlCommandDefs::new();
    second.insert("c".to_string(), plain("3"));
    second.insert("a".to_string(), plain("4"));

    let merged = merge_yaml_defs(vec![first, second]);
    assert_eq!(merged.len(), 3);
    let entries = merged.entries();
    assert_eq!(entries[0].0, "a");
    assert_eq!(entries[0].1.command, "4");
    assert_eq!(entries[1].0, "b");
    assert_eq!(entries[2].0, "c");
}

#[test]
fn merge_of_three_sources_takes_the_last_that_binds() {
    let mut first = YamlCommandDefs::new();
    first.insert("a".to_string(), plain("1"));
    let mut second = YamlCommandDefs::new();
    second.insert("a".to_string(), plain("2"));
    let mut third = YamlCommandDefs::new();
    third.insert("b".to_string(), plain("3"));

    let merged = merge_yaml_defs(vec![first, second, third]);
    assert_eq!(merged.get("a").unwrap().command, "2");
    assert_eq!(merged.get("b").unwrap().command, "3");
    assert!(merged.get("c").is_none());
}

#[test]
fn merge_carries_arguments_along() {
    let mut arguments = NameMap::new();
    arguments.insert(
        "name".to_string(),
        YamlArgumentDef {
            flags: vec!["--name".to_string()],
            default: Some("World".to_string()),
            description: None,
        },
    );
    let mut only = YamlCommandDefs::new();
    only.insert(
        "greet".to_string(),
        YamlCommandDef {
            command: "echo {{ name }}".to_string(),
            description: None,
            arguments: Some(arguments),
        },
    );
    let merged = merge_yaml_defs(vec![only]);
    let greet = merged.get("greet").unwrap();
    let name = greet.arguments.as_ref().unwrap().get("name").unwrap();
    assert_eq!(name.flags, vec!["--name".to_string()]);
    assert_eq!(name.default, Some("World".to_string()));
}

#[test]
fn name_map_insert_hands_back_the_old_value() {
    let mut map: NameMap<u32> = NameMap::new();
    assert!(map.is_empty());
    assert_eq!(map.insert("x".to_string(), 1), None);
    assert_eq!(map.insert("y".to_string(), 2), None);
    assert_eq!(map.insert("x".to_string(), 3), Some(1));
    assert_eq!(map.len(), 2);
    assert_eq!(map.get("x"), Some(&3));
    assert_eq!(map.get("y"), Some(&2));
    assert_eq!(map.get("z"), None);
    assert!(map.contains_key("y"));
    assert!(!map.contains_key("Y"));
    assert_eq!(map.entries()[0], ("x".to_string(), 3));
    assert_eq!(map.entries()[1], ("y".to_string(), 2));
}

#[test]
fn name_map_append_empties_the_other() {
    let mut map: NameMap<u32> = NameMap::new();
    map.insert("x".to_string(), 1);
    let mut other: NameMap<u32> = NameMap::new();
    other.insert("y".to_string(), 2);
    other.insert("x".to_string(), 3);
    map.append(&mut other);
    assert!(other.is_empty());
    assert_eq!(map.into_entries(), vec![("x".to_string(), 3), ("y".to_string(), 2)]);
}

#[test]
fn name_map_clone_is_equal_entry_by_entry() {
    let mut map: NameMap<String> = NameMap::new();
    map.insert("x".to_string(), "1".to_string());
    map.insert("y".to_string(), "2".to_string());
    let copy = map.clone();
    assert_eq!(copy.entries(), map.entries());
}

#[test]
fn generic_merge_of_nothing_is_empty() {
    let merged: NameMap<u8> = merge(Vec::new());
    assert_eq!(merged.len(), 0);
}
