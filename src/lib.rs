//! Line-oriented text utilities: display with caret views, numbering and
//! blank squeezing; head by lines or bytes; line, word, byte and character
//! counts; echo. Callers read the sources and write what these functions
//! return.

pub mod caret;
pub mod text;
pub mod numfmt;
pub mod display;
pub mod count;
pub mod head;
pub mod echo;
pub mod source;
