//! Safety checks and execution steps for user-authored usage providers: the
//! fetch-command policy, `${VAR}` substitution and word splitting, the
//! admission of transform scripts, and the steps that turn a fetch into a result.
pub mod ccusage;
pub mod display;
pub mod error;
pub mod policy;
pub mod provider;
pub mod shell;
pub mod text;
pub mod transform;
