//! Fetches key-value secrets from a Vault server across several paths, merges
//! them into one set of variables, and encodes that set as a dotenv file.
//!
//! The library decides; its caller performs the requests and the file write
//! that a [`Run`] asks for.

pub mod address;
pub mod config;
pub mod dotenv;
pub mod json;
pub mod merge;
pub mod normalize;
pub mod pipeline;
pub mod stringify;
pub mod text;

pub use address::request_url;
pub use config::Args;
pub use dotenv::{has_line_break, push_dotenv_line, render_dotenv};
pub use json::{JsonNumber, JsonValue};
pub use merge::{merge_secrets, merge_variables, MergedVariableSet, PathSecrets, UnsupportedValue};
pub use normalize::{detect_kv_shape, normalize_response, KvShape};
pub use pipeline::{request_action, Action, FetchOutcome, Run, RunError, VaultResponseError};
pub use stringify::stringify_json_value;
