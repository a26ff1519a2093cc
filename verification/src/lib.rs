pub mod audit;
pub mod cmd;
pub mod config;
pub mod context;
pub mod git;
pub mod index;
pub mod json;
pub mod keywords;
pub mod model;
pub mod plugin;
pub mod security;
pub mod session;
pub mod text;
pub mod tool;
pub mod tui;
pub mod util;
