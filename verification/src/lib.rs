//! An X11 client library: wire-protocol decoding and encoding, key symbol tables, and the
//! drawing, layout and game logic of the programs built on it.
pub mod bytes;
pub mod error;
pub mod setup;
pub mod ids;
pub mod events;
pub mod replies;
pub mod canvas;
pub mod draw;
pub mod keysym;
pub mod keys;
pub mod geometry;
pub mod layout;
pub mod xauth;
pub mod randr;
pub mod render;
pub mod randr_replies;
pub mod randr_requests;
pub mod mit_shm_replies;
pub mod mit_shm_requests;
pub mod keyboard;
pub mod display_var;
pub mod bdf_chars;
pub mod bdf;
pub mod bdf_lexer;
pub mod bdf_parser;
pub mod ui;
pub mod pong;
pub mod window_hints;
pub mod xrandr_names;
pub mod glyph;
pub mod window_manager;
pub mod configure_window;
pub mod text_input;
pub mod canvas_events;
pub mod reply_tracking;
pub mod reply_decoding;
pub mod text;
