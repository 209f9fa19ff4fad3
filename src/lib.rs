//! Numbers as people read them: digits in groups of three, the minus character, a precision
//! budget shared by the integer and the fractional part, and the shortest text that still
//! reads back as the value shown.
pub mod format;
pub mod grouping;
pub mod options;
pub mod parse;
pub mod search;
mod text;
