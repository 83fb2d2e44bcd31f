//! Authdog CLI core: session flows, REST listing helpers, JWT claim previews and
//! the text rendering used by the terminal shell.

pub mod text;
pub mod json;
pub mod seqs;
pub mod tenants;
pub mod urls;
pub mod cli_login;
pub mod api;
pub mod organizations;
pub mod projects;
pub mod commands;
pub mod browse;
pub mod tui_output;
pub mod whoami;
pub mod identity;
pub mod wasm;
pub mod session_store;
pub mod shell;
pub mod keys;
pub mod flow;
