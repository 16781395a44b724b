//! Printing Lua: the printer's state and the text around the tree's
//! expressions and statements.

pub mod name_texts;
pub mod printer;
