//! The logic of a terminal client for Volt chat servers.

pub mod auth;
pub mod chat_laws;
pub mod chat_view;
pub mod clock;
pub mod commands;
pub mod connected;
pub mod effect;
pub mod events;
pub mod input;
pub mod input_laws;
pub mod json;
pub mod keys;
pub mod laws;
pub mod layout;
pub mod list_laws;
pub mod live;
pub mod matrix;
pub mod menu_view;
pub mod menus;
pub mod message_view;
pub mod msg;
pub mod names;
pub mod outside;
pub mod panel;
pub mod panel_laws;
pub mod ready_laws;
pub mod render;
pub mod show_laws;
pub mod state;
pub mod style;
pub mod talk_laws;
pub mod text;
pub mod text_laws;
pub mod view_laws;
pub mod wire;
pub mod words;
pub mod wrap;
pub mod wrap_laws;
