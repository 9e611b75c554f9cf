//! Quire: the logic of an e-ink reader.
pub mod card;
pub mod charts;
pub mod device;
pub mod draw;
pub mod firstrun;
pub mod firstrun_draw;
pub mod http;
pub mod index;
pub mod input;
pub mod jump;
pub mod jump_draw;
pub mod keyboard;
pub mod keyboard_draw;
pub mod keys;
pub mod layout;
pub mod multipart;
pub mod net;
pub mod order;
pub mod platform;
pub mod routes;
pub mod tabs;
pub mod text;
pub mod ui;
pub mod upload;
pub mod widgets;
