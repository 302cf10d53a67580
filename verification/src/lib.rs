//! Task tracking: event-sourced task records, a registry that queries them, and
//! the layout computations that turn a listing into terminal columns.

pub mod time;
pub mod text;
pub mod metadata;
pub mod task;
pub mod registry;
pub mod filter;
pub mod config;
pub mod display;
pub mod markup;
pub mod cli;
pub mod command;
