//! Session registry and message routing for a two-party chat relay.

pub mod auth;
pub mod calls;
pub mod config;
pub mod database;
pub mod directory;
pub mod flows;
pub mod handlers;
pub mod health;
pub mod records;
pub mod registry;
pub mod seqs;
pub mod steps;
pub mod text;
pub mod types;
