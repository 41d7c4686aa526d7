//! The logic of a terminal viewer for the logs of a compose project: what is
//! kept of each service's output, what a key does, what is attached to, and
//! what is drawn where.
pub mod app;
pub mod app_laws;
pub mod app_model;
pub mod config;
pub mod emulator;
pub mod filter;
pub mod focus;
pub mod help;
pub mod key_laws;
pub mod keys;
pub mod layout;
pub mod list_laws;
pub mod paint;
pub mod pane;
pub mod render;
pub mod service;
pub mod split_laws;
pub mod status_bar;
pub mod store;
pub mod store_laws;
pub mod stores;
pub mod stream;
pub mod stream_laws;
pub mod text;
pub mod time_laws;
