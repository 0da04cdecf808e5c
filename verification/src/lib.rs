//! A reader for package-manager configuration files: an INI-like text with a
//! section of global options and one section for each repository.
//!
//! [`parse`] resolves such a text to a [`Config`], or to the first error that
//! stands in the way. The library reads no file itself. [`include_paths`] says
//! which mirror lists the repositories of a text include; the caller reads
//! them and hands over what came of it.

pub mod config;
pub mod error;
pub mod model;
pub mod options;
pub mod paths;
pub mod repository;
pub mod sections;
pub mod text;
pub mod values;

pub use config::{include_paths, parse, resolve_config, resolve_repositories};
pub use error::ConfigError;
pub use model::{default_options, Architecture, CleanMethod, Config, Options, Repository, Usage};
pub use options::resolve_options;
pub use repository::{mirrors, resolve_repository, Loaded, MirrorList};
pub use sections::{parse_sections, Entry, Line, Section};
pub use values::{
    parse_architecture, parse_bool, parse_clean_method, parse_number, parse_parallel_downloads,
    parse_usage, NumberFault,
};
