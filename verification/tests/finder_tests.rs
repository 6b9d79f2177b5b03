use zxc::config::{app_home_step, home_env_name, require_home, AppHomeStep, Config, ConfigError};
use zxc::def_file_finder::{
    allowed_names, find_def_file, find_definition_files, get_external_dir, Candidate, Directory,
    FindError,
};

/// A directory at `base` in which the files called `existing` lie.
fn directory(base: &str, existing: &[&str]) -> Directory {
    Directory {
        exists: true,
        is_dir: true,
        candidates: allowed_names()
            .into_iter()
            .map(|name| Candidate { path: format!("{base}/{name}"), exists: existing.contains(&name) })
            .collect(),
    }
}

fn missing() -> Directory {
    Directory { exists: false, is_dir: false, candidates: vec![] }
}

#[test]
fn file_not_found() {
    let dir = directory("/tmp/dir", &[]);
    let result = find_def_file(&dir);
    assert!(result.is_ok());
    assert!(result.unwrap().is_none());
}

#[test]
fn file_found() {
    let file_path = "/tmp/dir/.zxc.yml".to_string();
    let dir = directory("/tmp/dir", &[".zxc.yml"]);

    let result = find_def_file(&dir);
    assert!(result.is_ok());
    assert_eq!(result.unwrap(), Some(file_path));
}

#[test]
fn multiple_file_found() {
    let dir = directory("/tmp/dir", &[".zxc.yml", "zxc.yaml"]);

    let result = find_def_file(&dir);
    assert!(result.is_err());
    assert_eq!(result.unwrap_err(), FindError::MultipleFiles);
}

#[test]
fn invalid_path() {
    let invalid_path = missing();
    let result = find_def_file(&invalid_path);
    assert!(result.is_err());
    assert_eq!(result.unwrap_err(), FindError::NotFound);
}

#[test]
fn each_allowed_name_is_found() {
    for name in allowed_names() {
        let dir = directory("/work", &[name]);
        assert_eq!(find_def_file(&dir), Ok(Some(format!("/work/{name}"))));
    }
}

#[test]
fn all_four_files_are_too_many() {
    let dir = directory("/work", &[".zxc.yml", ".zxc.yaml", "zxc.yml", "zxc.yaml"]);
    assert_eq!(find_def_file(&dir), Err(FindError::MultipleFiles));
}

#[test]
fn a_file_in_place_of_a_directory_is_no_directory() {
    let file = Directory { exists: true, is_dir: false, candidates: vec![] };
    assert_eq!(find_def_file(&file), Err(FindError::NotADirectory));
}

#[test]
fn a_missing_path_comes_before_any_other_fault() {
    let mut odd = directory("/work", &[".zxc.yml", "zxc.yml"]);
    odd.exists = false;
    assert_eq!(find_def_file(&odd), Err(FindError::NotFound));
    odd.is_dir = false;
    assert_eq!(find_def_file(&odd), Err(FindError::NotFound));
    odd.exists = true;
    assert_eq!(find_def_file(&odd), Err(FindError::NotADirectory));
}

#[test]
fn ok() {
    let cwd = "/opt/app".to_string();
    let app_home = "/home/user/.zxc".to_string();
    let config = Config { cwd, app_home };

    let expected_path = "/home/user/.zxc/opt/app".to_string();
    let result = get_external_dir(&config);
    assert_eq!(result, expected_path);
}

#[test]
fn local_and_external() {
    let local_def = "/work/.zxc.yml".to_string();
    let external_def = "/home/user/.zxc/work/zxc.yaml".to_string();
    let local = directory("/work", &[".zxc.yml"]);
    let external = directory("/home/user/.zxc/work", &["zxc.yaml"]);

    let result = find_definition_files(&local, &external).unwrap();
    assert_eq!(result.len(), 2);
    assert!(result.contains(&local_def));
    assert!(result.contains(&external_def));
    assert_eq!(result, vec![local_def, external_def]);
}

#[test]
fn no_files() {
    let local = directory("/work", &[]);
    let external = missing();

    let result = find_definition_files(&local, &external).unwrap();
    assert!(result.is_empty());
}

#[test]
fn multiple_local_files() {
    let local = directory("/work", &[".zxc.yml", "zxc.yaml"]);
    let external = missing();

    let result = find_definition_files(&local, &external);
    assert!(result.is_err());
    assert_eq!(result, Err(FindError::MultipleFiles));
}

#[test]
fn multiple_external_files_are_a_fault_too() {
    let local = directory("/work", &[".zxc.yml"]);
    let external = directory("/ext", &[".zxc.yml", "zxc.yml"]);
    assert_eq!(find_definition_files(&local, &external), Err(FindError::MultipleFiles));
}

#[test]
fn an_external_path_that_is_no_directory_is_passed_over() {
    let local = directory("/work", &["zxc.yml"]);
    let mut external = directory("/ext", &["zxc.yml"]);
    external.is_dir = false;
    assert_eq!(find_definition_files(&local, &external), Ok(vec!["/work/zxc.yml".to_string()]));
}

#[test]
fn only_an_external_file() {
    let local = directory("/work", &[]);
    let external = directory("/ext", &["zxc.yaml"]);
    assert_eq!(find_definition_files(&local, &external), Ok(vec!["/ext/zxc.yaml".to_string()]));
}

#[test]
fn a_missing_local_directory_is_a_fault() {
    let external = directory("/ext", &["zxc.yaml"]);
    assert_eq!(find_definition_files(&missing(), &external), Err(FindError::NotFound));
    let file = Directory { exists: true, is_dir: false, candidates: vec![] };
    assert_eq!(find_definition_files(&file, &external), Err(FindError::NotADirectory));
}

#[test]
fn the_allowed_names_in_their_order() {
    assert_eq!(allowed_names(), vec![".zxc.yml", ".zxc.yaml", "zxc.yml", "zxc.yaml"]);
}

#[test]
fn external_dir_is_plain_concatenation() {
    let config = Config { cwd: "work".to_string(), app_home: "/home/.zxc/".to_string() };
    assert_eq!(get_external_dir(&config), "/home/.zxc/work");
    let empty = Config { cwd: String::new(), app_home: String::new() };
    assert_eq!(get_external_dir(&empty), "");
}

#[test]
fn home_variable_by_operating_system() {
    assert_eq!(home_env_name("windows"), "USERPROFILE");
    assert_eq!(home_env_name("linux"), "HOME");
    assert_eq!(home_env_name("macos"), "HOME");
    assert_eq!(home_env_name("Windows"), "HOME");
    assert_eq!(home_env_name(""), "HOME");
}

#[test]
fn home_must_be_set() {
    assert_eq!(require_home(Some("/home/user".to_string())), Ok("/home/user".to_string()));
    assert_eq!(require_home(None), Err(ConfigError::HomeNotFound));
}

#[test]
fn app_home_is_created_kept_or_refused() {
    assert_eq!(app_home_step(false, false), Ok(AppHomeStep::Create));
    assert_eq!(app_home_step(false, true), Ok(AppHomeStep::Create));
    assert_eq!(app_home_step(true, true), Ok(AppHomeStep::Keep));
    assert_eq!(app_home_step(true, false), Err(ConfigError::NotADirectory));
}

#[test]
fn a_configuration_comes_with_the_step_for_the_app_home() {
    let config = Config { cwd: "/opt/app".to_string(), app_home: "/home/user/.zxc".to_string() };
    assert_eq!(
        Config::new("/opt/app".to_string(), "/home/user/.zxc".to_string(), false, false),
        Ok((config.clone(), AppHomeStep::Create))
    );
    assert_eq!(
        Config::new("/opt/app".to_string(), "/home/user/.zxc".to_string(), true, true),
        Ok((config, AppHomeStep::Keep))
    );
    assert_eq!(
        Config::new("/opt/app".to_string(), "/home/user/.zxc".to_string(), true, false),
        Err(ConfigError::NotADirectory)
    );
}
