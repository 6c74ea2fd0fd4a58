//! The decision logic of an AI-assisted interactive shell.

pub mod accounts;
pub mod animation;
pub mod archive;
pub mod audit;
pub mod browser;
pub mod budget;
pub mod cancellation;
pub mod commands;
pub mod compaction;
pub mod correction;
pub mod diagnose;
pub mod display;
pub mod environment;
pub mod install;
pub mod json;
pub mod language;
pub mod live;
pub mod memory;
pub mod mention;
pub mod message;
pub mod models;
pub mod moment;
pub mod panel;
pub mod pattern;
pub mod question;
pub mod registries;
pub mod remote;
pub mod repair;
pub mod repl;
pub mod screen;
pub mod script;
pub mod sessions;
pub mod settings;
pub mod shell;
pub mod skills;
pub mod startup;
pub mod stream;
pub mod text;
pub mod width;
