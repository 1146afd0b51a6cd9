//! The scan as each host goes about it, and the one entry point that picks
//! between them.

pub mod linux_scanner;
pub mod macos_scanner;
pub mod port;
