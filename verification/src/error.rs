//! The typed failures every core operation returns: the first failure aborts
//! the remaining steps of an install or remove and is surfaced to the caller.

use vstd::prelude::*;
use vstd::string::StringExecFns;

verus! {

/// A configuration failure.
#[derive(Debug)]
pub enum ConfigError {
    /// A configuration file this provider would place already exists.
    AlreadyExists(String),
    /// A required executable or the package manifest is absent.
    MissingPrerequisite(String),
    /// Writing a configuration file failed.
    FileWriteError(String),
    /// A document failed to parse as structured data.
    ValidationError(String),
    /// The package-manager subprocess failed; carries its captured stderr.
    DependencyError(String),
    /// A mutually-exclusive provider's packages are already present.
    ConflictError(String),
    /// A required system directory cannot be resolved.
    PathError(String),
    /// Reading a file failed.
    FileReadError(String),
}

/// The text a [`ConfigError`] renders to.
pub open spec fn error_message(e: ConfigError) -> Seq<char> {
    match e {
        ConfigError::AlreadyExists(s) => "Configuration '"@ + s@ + "' already exists"@,
        ConfigError::MissingPrerequisite(s) => "Missing prerequisite: "@ + s@,
        ConfigError::FileWriteError(s) => "Failed to write configuration file: "@ + s@,
        ConfigError::ValidationError(s) => "Configuration validation failed: "@ + s@,
        ConfigError::DependencyError(s) => "Dependency installation failed: "@ + s@,
        ConfigError::ConflictError(s) => "Conflict with existing configuration: "@ + s@,
        ConfigError::PathError(s) => "Path error: "@ + s@,
        ConfigError::FileReadError(s) => "File read error: "@ + s@,
    }
}

impl ConfigError {
    /// Renders the error for display to the user.
    pub fn message(&self) -> (r: String)
        ensures
            r@ == error_message(*self),
    {
        match self {
            ConfigError::AlreadyExists(s) => {
                let mut m = "Configuration '".to_owned();
                m.append(s.as_str());
                m.append("' already exists");
                m
            },
            ConfigError::MissingPrerequisite(s) => {
                let mut m = "Missing prerequisite: ".to_owned();
                m.append(s.as_str());
                m
            },
            ConfigError::FileWriteError(s) => {
                let mut m = "Failed to write configuration file: ".to_owned();
                m.append(s.as_str());
                m
            },
            ConfigError::ValidationError(s) => {
                let mut m = "Configuration validation failed: ".to_owned();
                m.append(s.as_str());
                m
            },
            ConfigError::DependencyError(s) => {
                let mut m = "Dependency installation failed: ".to_owned();
                m.append(s.as_str());
                m
            },
            ConfigError::ConflictError(s) => {
                let mut m = "Conflict with existing configuration: ".to_owned();
                m.append(s.as_str());
                m
            },
            ConfigError::PathError(s) => {
                let mut m = "Path error: ".to_owned();
                m.append(s.as_str());
                m
            },
            ConfigError::FileReadError(s) => {
                let mut m = "File read error: ".to_owned();
                m.append(s.as_str());
                m
            },
        }
    }
}

} // verus!
