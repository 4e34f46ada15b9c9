//! Verified core of a Windows screenshot tool: command-line decisions,
//! display metadata bookkeeping, pixel buffer packing and report rendering.

pub mod text;
pub mod cli;
pub mod utf16;
pub mod display_info;
pub mod window_query;
pub mod output;
pub mod capture;
