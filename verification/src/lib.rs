//! A typing-practice core: a word list, a cursor over a word, and the
//! keystroke matching rules that decide when a word has been typed.

pub mod engine;
pub mod input;
pub mod session;
pub mod word_cursor;
