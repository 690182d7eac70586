//! A Discord bot's logic: its commands, live embeds, host readings and
//! animation files, as data and decisions that the bot's runtime carries out.
pub mod commands;
pub mod handlers;
pub mod status;
pub mod task;
pub mod text;
pub mod ui;
pub mod workspace;
