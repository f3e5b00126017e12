//! What a local development machine is running, read from plain values.
//!
//! Every decision lives here: what a tool printed means, which command to run,
//! what a table row says. Reading files, talking to a daemon and drawing on a
//! terminal stay with the program around it.

pub mod answers;
pub mod arguments;
pub mod backup;
pub mod catalog;
pub mod cli;
pub mod config;
pub mod db;
pub mod docker;
pub mod domain;
pub mod dotenv;
pub mod entries;
pub mod environment;
pub mod frames;
pub mod framework;
pub mod git;
pub mod json;
pub mod launch;
pub mod lifecycle;
pub mod listen;
pub mod logs;
pub mod memory;
pub mod open;
pub mod order;
pub mod overlay;
pub mod platform;
pub mod ports;
pub mod recipe;
pub mod report;
pub mod routes;
pub mod scan;
pub mod search;
pub mod sections;
pub mod session;
pub mod settings;
pub mod starter;
pub mod table;
pub mod text;
pub mod toolchain;
pub mod transfer;
pub mod tui;
