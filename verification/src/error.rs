//! The ways in which a run can fail.

use vstd::prelude::*;

verus! {

/// A document that is well-formed TOML but not shaped as a manifest or a
/// lockfile must be.
#[derive(Clone, Copy, Debug, PartialEq, Eq, Structural)]
pub enum SchemaError {
    /// The manifest has no `package` table.
    MissingPackage,
    /// The manifest's `package` table has no `name` string.
    MissingName,
    /// The lockfile has no `package` array.
    MissingPackages,
    /// A lockfile record met while looking for the top package has no `name`
    /// string.
    UnnamedPackage,
    /// No lockfile record is named as the top package.
    TopPackageNotFound,
    /// The top package's record has no `dependencies` array.
    MissingDependencies,
    /// An entry of the `dependencies` array is not a string.
    DependencyNotText,
    /// A dependency entry holds no space, so no version follows the name.
    MalformedDependency,
}

impl SchemaError {
    /// What went wrong, in words.
    pub open spec fn message_spec(self) -> Seq<char> {
        match self {
            SchemaError::MissingPackage => "failed to parse package"@,
            SchemaError::MissingName => "failed to parse name"@,
            SchemaError::MissingPackages => "failed to find packages"@,
            SchemaError::UnnamedPackage => "failed to parse name of a locked package"@,
            SchemaError::TopPackageNotFound => "failed to find top package"@,
            SchemaError::MissingDependencies => "error parsing dependencies table"@,
            SchemaError::DependencyNotText => "failed to parse dependency string"@,
            SchemaError::MalformedDependency => "failed to parse name/version from dependency string"@,
        }
    }

    /// What went wrong, in words.
    pub fn message(self) -> (r: &'static str)
        ensures
            r@ == self.message_spec(),
    {
        match self {
            SchemaError::MissingPackage => "failed to parse package",
            SchemaError::MissingName => "failed to parse name",
            SchemaError::MissingPackages => "failed to find packages",
            SchemaError::UnnamedPackage => "failed to parse name of a locked package",
            SchemaError::TopPackageNotFound => "failed to find top package",
            SchemaError::MissingDependencies => "error parsing dependencies table",
            SchemaError::DependencyNotText => "failed to parse dependency string",
            SchemaError::MalformedDependency => "failed to parse name/version from dependency string",
        }
    }
}

/// One of the two documents that a run reads.
#[derive(Clone, Copy, Debug, PartialEq, Eq, Structural)]
pub enum Source {
    /// The manifest, which names the top package.
    Manifest,
    /// The lockfile, which lists the resolved packages.
    Lockfile,
}

impl Source {
    /// The path of the document, relative to the working directory.
    pub open spec fn path_spec(self) -> Seq<char> {
        match self {
            Source::Manifest => "Cargo.toml"@,
            Source::Lockfile => "Cargo.lock"@,
        }
    }

    /// The path of the document, relative to the working directory.
    pub fn path(self) -> (r: &'static str)
        ensures
            r@ == self.path_spec(),
    {
        match self {
            Source::Manifest => "Cargo.toml",
            Source::Lockfile => "Cargo.lock",
        }
    }
}

/// Why a run was aborted. Every failure is final: nothing is retried.
#[derive(Clone, Copy, Debug, PartialEq, Eq, Structural)]
pub enum Failure {
    /// A document could not be read.
    Unreadable(Source),
    /// A document is not well-formed TOML.
    Malformed(Source),
    /// A document is well-formed but not shaped as expected.
    Schema(SchemaError),
    /// The build command could not be started.
    Spawn,
    /// The build command was started but could not be waited for.
    Wait,
    /// The build command exited with this status, and not successfully.
    ExitCode(i32),
    /// The build command was ended by a signal, so it has no exit status.
    Signal,
    /// The driver reported something that the run was not waiting for.
    OutOfTurn,
}

impl Failure {
    /// What went wrong, in words. The document's path, or the exit status,
    /// is for the caller to add.
    pub open spec fn message_spec(self) -> Seq<char> {
        match self {
            Failure::Unreadable(_) => "failed to read file"@,
            Failure::Malformed(_) => "failed to parse toml"@,
            Failure::Schema(e) => e.message_spec(),
            Failure::Spawn => "failed to execute process"@,
            Failure::Wait => "failed to run command"@,
            Failure::ExitCode(_) => "Exited with status code"@,
            Failure::Signal => "Process terminated by signal"@,
            Failure::OutOfTurn => "unexpected report from the driver"@,
        }
    }

    /// What went wrong, in words.
    pub fn message(self) -> (r: &'static str)
        ensures
            r@ == self.message_spec(),
    {
        match self {
            Failure::Unreadable(_) => "failed to read file",
            Failure::Malformed(_) => "failed to parse toml",
            Failure::Schema(e) => e.message(),
            Failure::Spawn => "failed to execute process",
            Failure::Wait => "failed to run command",
            Failure::ExitCode(_) => "Exited with status code",
            Failure::Signal => "Process terminated by signal",
            Failure::OutOfTurn => "unexpected report from the driver",
        }
    }
}

} // verus!
