//! Track information for a network audio player shown on a small display:
//! decoding of the player's hex-encoded status fields, change detection of
//! the current track, and the scrolling of text lines that do not fit the
//! display.

pub mod device;
pub mod encoding;
pub mod model;
pub mod view;
