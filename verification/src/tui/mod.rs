pub mod app;
pub mod markdown;
pub mod action;
pub mod ui;
