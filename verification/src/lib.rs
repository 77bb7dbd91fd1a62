//! A compiler-invocation cache: the argument, path and code analysis behind it.

pub mod ar_args;
pub mod args_processing;
pub mod code_language;
pub mod error;
pub mod gcc_args;
pub mod gcc_round_trip;
pub mod parse_ar;
pub mod parse_gcc;
pub mod path_utils;
pub mod source_file;
pub mod text;
pub mod wrapped_binary;
pub mod wire;
pub mod command;
pub mod command_output;
pub mod task_rows;
pub mod directives;
pub mod directive_laws;
pub mod config;
pub mod local_code;
pub mod compile_object;
pub mod routing;
pub mod config_lookup;
pub mod link_objects;
pub mod header_code;
pub mod tui_keys;
