//! A two-list todo manager: item lists with cursors, a line-oriented file
//! codec, an immediate-mode frame builder and the key dispatch of the main
//! loop. Terminal and file access live outside this library.

pub mod codec;
pub mod list;
pub mod session;
pub mod status;
pub mod ui;

pub use status::Status;
