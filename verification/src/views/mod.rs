//! HTML views: the page layout and the session and span views.

pub mod layout;
pub mod error_flag;
pub mod trace;
