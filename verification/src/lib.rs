pub mod cli;
pub mod command_defs;
pub mod command_resolver;
pub mod config;
pub mod def_file_finder;
pub mod fallible;
pub mod flag_grammar;
pub mod name_map;
pub mod pipeline;
pub mod template;
pub mod text;
pub mod yaml_command_defs;
pub mod zxc_command_defs;
