//! Teletext page reader: a scanner for the two page dialects served by the
//! teletext site, page addressing, navigation history and the fetch state
//! machine that drives page loads.

pub mod text;
pub mod cursor;
pub mod yle_text;
pub mod yle_image;
pub mod page;
pub mod history;
pub mod fetch;
pub mod controller;
