//! Verified core of a desktop resource opener: given one path or URL,
//! determine its MIME type, find the registered default handler, locate and
//! parse the handler's desktop entry file, and build the exact command line
//! to launch, or report precisely why that is impossible.

pub mod desktop_entry;
pub mod exec_args;
pub mod query;
pub mod resolve;
pub mod text;
