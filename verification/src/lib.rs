//! Validation of a command line against a registry of recognised arguments.
//!
//! A registry describes each argument: whether it is required, whether it
//! takes a value, its default, the values it accepts, and the arguments it
//! conflicts with or depends on. [`validate`] scans an invocation against a
//! registry and yields the resolved values, or the first rule that the
//! invocation breaks.

pub mod argument;
pub mod catalog;
pub mod error;
pub mod laws;
pub mod registry;
pub mod rules;
pub mod store;
pub mod text;
pub mod tokenizer;
pub mod validator;

pub use argument::ArgumentInfo;
pub use catalog::firecracker_registry;
pub use error::ArgError;
pub use registry::ArgumentRegistry;
pub use store::ValueStore;
pub use tokenizer::tokenize;
pub use tokenizer::Tokens;
pub use validator::check_is_valid;
pub use validator::report_steps;
pub use validator::validate;
pub use validator::Outcome;
