//! What stops the reading of a configuration.

use vstd::prelude::*;
use vstd::string::StringExecFns;

verus! {

/// The reason a configuration was not read. Reading stops at the first one.
#[derive(Debug, PartialEq, Eq)]
pub enum ConfigError {
    /// A file was opened, or should have been, and could not be read.
    Io { path: String, reason: String },
    /// The text of a typed setting does not spell a value of its type.
    InvalidValue { field: String, value: String, reason: String },
    /// A mirror list that a repository includes could not be opened.
    IncludeNotFound { path: String, reason: String },
}

/// What a `ConfigError` holds, with every text as a sequence of characters.
pub enum ConfigErrorView {
    Io { path: Seq<char>, reason: Seq<char> },
    InvalidValue { field: Seq<char>, value: Seq<char>, reason: Seq<char> },
    IncludeNotFound { path: Seq<char>, reason: Seq<char> },
}

impl View for ConfigError {
    type V = ConfigErrorView;

    open spec fn view(&self) -> ConfigErrorView {
        match self {
            ConfigError::Io { path, reason } => ConfigErrorView::Io {
                path: path@,
                reason: reason@,
            },
            ConfigError::InvalidValue { field, value, reason } => ConfigErrorView::InvalidValue {
                field: field@,
                value: value@,
                reason: reason@,
            },
            ConfigError::IncludeNotFound { path, reason } => ConfigErrorView::IncludeNotFound {
                path: path@,
                reason: reason@,
            },
        }
    }
}

/// The error in one line: what failed, on which file or setting, and why.
pub open spec fn message_of(e: ConfigErrorView) -> Seq<char> {
    match e {
        ConfigErrorView::Io { path, reason } => "Failed to read "@ + path + ": "@ + reason,
        ConfigErrorView::InvalidValue { field, value: _, reason } => field + ": "@ + reason,
        ConfigErrorView::IncludeNotFound { path, reason } => "Failed to open mirrorlist "@ + path
            + ": "@ + reason,
    }
}

impl ConfigError {
    /// The error in one line: what failed, on which file or setting, and why.
    pub fn message(&self) -> (r: String)
        ensures
            r@ == message_of(self@),
    {
        match self {
            ConfigError::Io { path, reason } => {
                let mut r = "Failed to read ".to_owned();
                r.append(path.as_str());
                r.append(": ");
                r.append(reason.as_str());
                r
            },
            ConfigError::InvalidValue { field, value: _, reason } => {
                let mut r = field.clone();
                r.append(": ");
                r.append(reason.as_str());
                r
            },
            ConfigError::IncludeNotFound { path, reason } => {
                let mut r = "Failed to open mirrorlist ".to_owned();
                r.append(path.as_str());
                r.append(": ");
                r.append(reason.as_str());
                r
            },
        }
    }
}

} // verus!
