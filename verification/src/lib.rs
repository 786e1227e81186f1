//! The core of an SSH server that plays back terminal recordings in the
//! asciicast format (versions 2 and 3).
//!
//! Everything that decides what a session does lives here, with contracts:
//! reading a recording, playing it with pause, seek and overlay, choosing what
//! a user gets to see, and reacting to keys. Sockets, files, clocks and the
//! terminal itself are left to the program around this library.
pub mod cast;
pub mod config;
pub mod decimal;
pub mod overlay;
pub mod player;
pub mod screen;
pub mod session;
pub mod terminal;
