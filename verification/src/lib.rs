//! Reading kconfig-style configuration dumps and turning selected options into
//! conditional-compilation flags, for one build step and for its dependents.
//!
//! A dump is a text of lines `KEY=VALUE`, where a value is `y`, `n`, `m` or a
//! quoted string. [`load`] reads one, and [`CfgArgs`] holds what was read.
//! From a set of options, [`CfgArgs::gather`] names one flag for each option
//! that is set to true, [`CfgArgs::output`] asks for these flags to be set
//! for the current build step, and [`CfgArgs::propagate`] publishes them, so
//! that a dependent step can set them too with
//! [`CfgArgs::output_propagated`].
//!
//! The library reads no file, no environment and talks to no build
//! orchestrator. It takes bytes and pairs of strings, and it returns
//! [`Directive`]s for the caller to carry out.
//!
//! Every function is verified against its contract. Two functions of the
//! standard library are taken on trust, with the contracts that the module
//! [`unicode`] gives them.

pub mod cfg_args;
pub mod channel;
pub mod directive;
pub mod loader;
pub mod text;
pub mod unicode;
pub mod value;

pub use cfg_args::{CfgArgs, Error};
pub use channel::VAR_CFG_ARGS_KEY;
pub use directive::Directive;
pub use loader::load;
pub use value::{Tristate, Value};
