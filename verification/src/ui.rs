//! What the view writes: the help, the footer, the words and glyphs of the cards.

pub mod card;
pub mod columns;
pub mod details;
pub mod footer;
pub mod help;
pub mod rows;
pub mod style;
