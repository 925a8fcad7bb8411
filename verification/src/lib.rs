//! Verified core of the NTU COOL command-line client, MCP server and TUI.

pub mod assignments;
pub mod attachments;
pub mod browser;
pub mod cache;
pub mod cli_args;
pub mod client;
pub mod config;
pub mod courses;
pub mod credentials;
pub mod dashboard;
pub mod error;
pub mod file_server;
pub mod files;
pub mod fuzzy_select;
pub mod listings;
pub mod modules;
pub mod num;
pub mod paths;
pub mod pdf;
pub mod saml;
pub mod screens;
pub mod search;
pub mod session;
pub mod strs;
pub mod submissions;
pub mod submit_flow;
pub mod text;
pub mod tui;
pub mod tui_app;
pub mod types;
pub mod views;
