//! Session engine of a terminal text editor: key bindings, open buffers,
//! scrolling, the session lifecycle and the key dispatcher.

pub mod key;
pub mod actions;
pub mod text;
pub mod open_files_data;
pub mod scroll;
pub mod state;
pub mod session;
pub mod utils;
