//! What the operations of the crate are for, as laws: each speaks of the inputs
//! and the results of a function, by its contract, and of nothing in between.

pub mod api;
pub mod archives;
pub mod client;
pub mod commands;
pub mod editor;
pub mod engines;
pub mod files;
pub mod inputs;
pub mod lines;
pub mod loading;
pub mod measures;
pub mod messages;
pub mod names;
pub mod path_names;
pub mod registries;
pub mod replies;
pub mod requests;
pub mod selection;
pub mod session;
pub mod tables;
pub mod texts;
pub mod tools;
