//! A scrollable single-column terminal list that picks one of Alacritty's
//! color schemes, and the configuration rewriting that applies the choice.
pub mod parser;
pub mod schemes;
pub mod ui;
