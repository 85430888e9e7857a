//! Terminal toolkit core: key and mouse input decoding, Unicode display
//! width, a virtual screen buffer with a diff renderer, and the decision
//! logic behind raw mode, size probing and event framing.

pub mod console;
pub mod entry;
pub mod error;
pub mod event;
pub mod host;
pub mod key;
pub mod raw_mode;
pub mod renderer;
pub mod size;
pub mod text;
pub mod tty;
pub mod utf8;
pub mod width;
pub mod write;

