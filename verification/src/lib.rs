//! Small collection of command-line helpers: a unix permission codec that
//! converts between octal and symbolic form, the pure part of the git remote
//! URL flipper, and the classification step of the git status scanner.

pub mod git_remote;
pub mod git_status;
pub mod permissions;
