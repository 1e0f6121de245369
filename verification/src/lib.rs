//! A conditional command gate. It reads the compiler's version and release
//! channel from what the compiler prints, takes a snapshot of the environment,
//! judges a predicate over both, and decides whether a wrapped command is to
//! run.
//!
//! A predicate has up to four kinds of condition: release channels, version
//! requirements, environment variables that are set, and environment
//! variables that have a given value. Within one kind any candidate may
//! satisfy the condition; across kinds every condition must hold.
//!
//! - [`text`] and [`version`] hold what is taken on trust from the standard
//!   library and from `semver`.
//! - [`words`] finds the words of a text.
//! - [`kinds`] settles one kind of condition from what its candidates come to.
//! - [`rustc`] and [`env`] hold the conditions on the compiler and on the
//!   environment.
//! - [`predicate`] combines the four kinds.
//! - [`dispatch`] turns the result into what is done, and into an exit code.

pub mod dispatch;
pub mod env;
pub mod kinds;
pub mod predicate;
pub mod rustc;
pub mod text;
pub mod version;
pub mod words;
