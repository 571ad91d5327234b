//! Verified decision logic of the task steward.
pub mod acp;
pub mod api;
pub mod candidates;
pub mod codex;
pub mod command;
pub mod control;
pub mod conversation;
pub mod dispatch;
pub mod display;
pub mod endings;
pub mod fields;
pub mod history;
pub mod isolation;
pub mod json;
pub mod labels;
pub mod launch;
pub mod lookup;
pub mod models;
pub mod names;
pub mod order;
pub mod overview;
pub mod paths;
pub mod probe;
pub mod profile;
pub mod projects;
pub mod prompts;
pub mod qoder;
pub mod queries;
pub mod reasoning;
pub mod reconcile;
pub mod reports;
pub mod rows;
pub mod sessions;
pub mod setup;
pub mod stdio;
pub mod sync;
pub mod tasks;
pub mod text;
pub mod titles;
