//! Translation of a loosely structured debug-session configuration into the
//! exact command sequence a remote-attach debugger backend understands.
//!
//! The library classifies the session request (attach vs. launch), infers a
//! home directory from a workspace root, expands `${HOME}`/`$HOME` and
//! `${USER}`/`$USER` placeholders in path-like strings, and assembles the
//! ordered attach-command, init-command and path-mapping lists plus forwarded
//! environment variables.

pub mod json;
pub mod strutil;
pub mod translate;

pub use json::Json;
pub use strutil::expand_variables;
pub use strutil::infer_home_from_path;
pub use translate::AttachBundle;
pub use translate::RequestKind;
pub use translate::Translator;
