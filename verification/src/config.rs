use crate::text::same_text;
use vstd::prelude::*;

verus! {

/// `zxc` app configuration.
#[derive(Clone, Debug, PartialEq, Eq)]
pub struct Config {
    /// Current working directory.
    pub cwd: String,
    /// `zxc` app home directory.
    pub app_home: String,
}

/// Why no configuration could be made.
#[derive(Clone, Copy, Debug, PartialEq, Eq, Structural)]
pub enum ConfigError {
    /// The environment names no home directory.
    HomeNotFound,
    /// The app home exists and is no directory.
    NotADirectory,
}

/// What is to be done about the app home directory.
#[derive(Clone, Copy, Debug, PartialEq, Eq, Structural)]
pub enum AppHomeStep {
    /// It does not exist: create it.
    Create,
    /// It is there: use it.
    Keep,
}

/// The environment variable that names the home directory on `os`.
pub open spec fn home_env(os: Seq<char>) -> Seq<char> {
    if os == "windows"@ {
        "USERPROFILE"@
    } else {
        "HOME"@
    }
}

/// The name of the environment variable that holds the home directory on the
/// operating system called `os`.
pub fn home_env_name(os: &str) -> (name: &'static str)
    ensures
        name@ == home_env(os@),
{
    if same_text(os, "windows") {
        "USERPROFILE"
    } else {
        "HOME"
    }
}

/// The home directory that the environment gave, or the fault of its absence.
pub fn require_home(home: Option<String>) -> (found: Result<String, ConfigError>)
    ensures
        match home {
            Some(path) => found == Ok::<String, ConfigError>(path),
            None => found == Err::<String, ConfigError>(ConfigError::HomeNotFound),
        },
{
    match home {
        Some(path) => Ok(path),
        None => Err(ConfigError::HomeNotFound),
    }
}

/// What is to be done about the app home: it is created where nothing is at
/// its path and kept where a directory is; anything else at its path is a
/// fault.
pub open spec fn app_home_plan(exists: bool, is_dir: bool) -> Result<AppHomeStep, ConfigError> {
    if !exists {
        Ok(AppHomeStep::Create)
    } else if !is_dir {
        Err(ConfigError::NotADirectory)
    } else {
        Ok(AppHomeStep::Keep)
    }
}

/// What to do about the app home, given what is at its path.
pub fn app_home_step(exists: bool, is_dir: bool) -> (step: Result<AppHomeStep, ConfigError>)
    ensures
        step == app_home_plan(exists, is_dir),
{
    if !exists {
        Ok(AppHomeStep::Create)
    } else if !is_dir {
        Err(ConfigError::NotADirectory)
    } else {
        Ok(AppHomeStep::Keep)
    }
}

impl Config {
    /// Create configuration for the working directory `cwd` and the app
    /// home `app_home`, given what is at the path of the app home. With the
    /// configuration comes what is to be done about the app home.
    pub fn new(cwd: String, app_home: String, exists: bool, is_dir: bool) -> (made: Result<
        (Config, AppHomeStep),
        ConfigError,
    >)
        ensures
            match app_home_plan(exists, is_dir) {
                Ok(step) => made == Ok::<(Config, AppHomeStep), ConfigError>(
                    (Config { cwd, app_home }, step),
                ),
                Err(fault) => made == Err::<(Config, AppHomeStep), ConfigError>(fault),
            },
    {
        match app_home_step(exists, is_dir) {
            Ok(step) => Ok((Config { cwd, app_home }, step)),
            Err(fault) => Err(fault),
        }
    }
}

} // verus!
