//! Resolves the direct dependencies of a project's top-level package from its
//! lockfile and plans one build invocation per dependency.

pub mod args;
pub mod command;
pub mod document;
pub mod error;
pub mod manifest;
pub mod run;
pub mod scan;
pub mod text;
