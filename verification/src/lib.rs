//! Monitor input and desktop layout switching: the verified core.
pub mod text;
pub mod monitor;
pub mod display;
pub mod config;
pub mod app;
pub mod discovery;
pub mod enable;
pub mod cache;
pub mod window;
pub mod layout;
pub mod state;
pub mod switcher;
pub mod icon;
pub mod paths;
pub mod switcher_icon;
pub mod switcher_text;
