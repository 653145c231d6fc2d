//! Helpers around the neofetch-family backends used by hyfetch: measuring
//! ascii art, preparing backend invocations and reading their output.

pub mod ascii;
pub mod external;
pub mod laws;
pub mod neofetch_util;
pub mod text;
pub mod theme;
pub mod types;
