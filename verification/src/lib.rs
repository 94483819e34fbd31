//! TermPlex: the window manager, protocol and screen logic of a terminal
//! multiplexer with a client and a server.

pub mod agreement;
pub mod arrange;
pub mod capture;
pub mod client;
pub mod client_laws;
pub mod clipboard;
pub mod color;
pub mod command;
pub mod emulator;
pub mod events;
pub mod framing;
pub mod geometry;
pub mod hits;
pub mod input;
pub mod layout;
pub mod mouse;
pub mod protocol;
pub mod scene;
pub mod screen;
pub mod server;
pub mod session;
pub mod session_laws;
pub mod snapshot;
pub mod solo;
pub mod store;
pub mod terminal;
pub mod terminal_screen;
pub mod text;
pub mod tiling;
pub mod widgets;
pub mod window;
