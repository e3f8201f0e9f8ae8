//! A terminal view of where changes are: the pull requests, the merge queue, the builds on
//! main and what each environment runs. This crate holds the verified logic of that view.

pub mod strs;
pub mod text;
pub mod wrap;
pub mod time;
pub mod json;
pub mod model;
pub mod app;
pub mod keys;
pub mod cli;
pub mod config;
pub mod github;
pub mod paths;
pub mod command;
pub mod kube;
pub mod open;
pub mod ui;
