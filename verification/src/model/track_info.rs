//! Track information with a play time, filled with placeholders.

use vstd::prelude::*;

use crate::encoding::DecodeError;

verus! {

/// Artist, album, title and play time of a track, as plain text.
#[derive(Debug, Clone)]
pub struct TrackInfo {
    pub artist: String,
    pub album: String,
    pub title: String,
    pub time: String,
}

impl TrackInfo {
    /// Placeholder information: "Artist", "Album", "Title" and "00:00".
    pub fn new() -> (info: Result<TrackInfo, DecodeError>)
        ensures
            info matches Ok(t) && t.artist@ == "Artist"@ && t.album@ == "Album"@ && t.title@
                == "Title"@ && t.time@ == "00:00"@,
    {
        Ok(TrackInfo {
            artist: "Artist".to_owned(),
            album: "Album".to_owned(),
            title: "Title".to_owned(),
            time: "00:00".to_owned(),
        })
    }
}

} // verus!
