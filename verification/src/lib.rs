//! Verified core of a tool that defines chat rooms, renders the files that
//! run each room in its own container (`astra.toml`, `docker-compose.yml`,
//! `Caddyfile`), and drives a terminal interface over them.

pub mod text;
pub mod slug;
pub mod model;
pub mod generate;
pub mod toml_doc;
pub mod reconcile;
pub mod json;
pub mod docker;
pub mod tui;
