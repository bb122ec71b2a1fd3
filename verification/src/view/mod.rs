//! What the display shows.

pub mod player_ui;
pub mod scroll_textblock;
