//! The status that the player reports, and the track information decoded from it.

use vstd::prelude::*;

use vstd::utf8::encode_utf8;

use crate::encoding::{
    ascii_lowercase, decoding_error, hex_decode, hex_encoding, hex_text_decoding,
    lemma_decoding_recovers_text_any_case, str_from_utf8, DecodeError,
};

verus! {

/// Title, artist and album of a track, as plain text.
#[derive(Debug, Clone, PartialEq, Eq)]
pub struct TrackInfo {
    pub title: String,
    pub artist: String,
    pub album: String,
}

/// The text of a track's title, artist and album.
pub struct TrackView {
    pub title: Seq<char>,
    pub artist: Seq<char>,
    pub album: Seq<char>,
}

impl View for TrackInfo {
    type V = TrackView;

    open spec fn view(&self) -> TrackView {
        TrackView { title: self.title@, artist: self.artist@, album: self.album@ }
    }
}

impl TrackInfo {
    /// Whether `self` and `other` describe the same track, field by field.
    pub fn same_track(&self, other: &TrackInfo) -> (same: bool)
        ensures
            same == (self@ == other@),
    {
        self.title == other.title && self.artist == other.artist && self.album == other.album
    }
}

/// The player's status: title, artist and album, each as hex digits of
/// its UTF-8 text.
#[derive(Debug)]
pub struct PlayerStatus {
    pub title: String,
    pub artist: String,
    pub album: String,
}

/// `res` is what decoding the hex text `data` gives: its text if it decodes,
/// else the error of `decoding_error`.
pub open spec fn decodes_as(data: Seq<char>, res: Result<String, DecodeError>) -> bool {
    match res {
        Ok(text) => hex_text_decoding(data) == Some(text@),
        Err(e) => hex_text_decoding(data) is None && decoding_error(data, e),
    }
}

impl PlayerStatus {
    /// The track that the three fields decode to, if all of them decode.
    pub open spec fn decoded_track(&self) -> Option<TrackView> {
        match (
            hex_text_decoding(self.title@),
            hex_text_decoding(self.artist@),
            hex_text_decoding(self.album@),
        ) {
            (Some(title), Some(artist), Some(album)) => Some(TrackView { title, artist, album }),
            _ => None,
        }
    }

    /// `error` is the error of the first field that does not decode, in the
    /// order title, artist, album.
    pub open spec fn first_decoding_error(&self, error: DecodeError) -> bool {
        if hex_text_decoding(self.title@) is None {
            decoding_error(self.title@, error)
        } else if hex_text_decoding(self.artist@) is None {
            decoding_error(self.artist@, error)
        } else {
            decoding_error(self.album@, error)
        }
    }

    /// Decodes title, artist and album into a `TrackInfo`.
    pub fn get_track_info(&self) -> (res: Result<TrackInfo, DecodeError>)
        ensures
            res matches Ok(info) ==> self.decoded_track() == Some(info@),
            res matches Err(e) ==> self.decoded_track() is None && self.first_decoding_error(e),
            res is Ok <==> (hex_text_decoding(self.title@) is Some && hex_text_decoding(
                self.artist@,
            ) is Some && hex_text_decoding(self.album@) is Some),
            res matches Ok(info) ==> {
                &&& hex_text_decoding(self.title@) == Some(info.title@)
                &&& hex_text_decoding(self.artist@) == Some(info.artist@)
                &&& hex_text_decoding(self.album@) == Some(info.album@)
            },
    {
        let title = match self.get_title() {
            Ok(t) => t,
            Err(e) => return Err(e),
        };
        let artist = match self.get_artist() {
            Ok(a) => a,
            Err(e) => return Err(e),
        };
        let album = match self.get_album() {
            Ok(a) => a,
            Err(e) => return Err(e),
        };
        Ok(TrackInfo { title, artist, album })
    }

    /// Decodes the title.
    pub fn get_title(&self) -> (res: Result<String, DecodeError>)
        ensures
            decodes_as(self.title@, res),
    {
        Self::decode_data_to_string(&self.title)
    }

    /// Decodes the artist.
    pub fn get_artist(&self) -> (res: Result<String, DecodeError>)
        ensures
            decodes_as(self.artist@, res),
    {
        Self::decode_data_to_string(&self.artist)
    }

    /// Decodes the album.
    pub fn get_album(&self) -> (res: Result<String, DecodeError>)
        ensures
            decodes_as(self.album@, res),
    {
        Self::decode_data_to_string(&self.album)
    }

    /// Decodes hex digits whose pairs are the UTF-8 bytes of a text.
    pub fn decode_data_to_string(data: &String) -> (res: Result<String, DecodeError>)
        ensures
            decodes_as(data@, res),
    {
        let decoded = match hex_decode(data.as_str()) {
            Ok(bytes) => bytes,
            Err(e) => return Err(DecodeError::Hex(e)),
        };
        match str_from_utf8(decoded.as_slice()) {
            Ok(output) => Ok(output.to_owned()),
            Err(fault) => Err(DecodeError::Utf8(fault)),
        }
    }
}

/// A status whose fields are the hex digits, in either case, of the UTF-8
/// bytes of a title, an artist and an album decodes to that title, artist
/// and album.
pub proof fn lemma_status_decodes_to_encoded_track(status: PlayerStatus, track: TrackView)
    requires
        ascii_lowercase(encode_utf8(status.title@)) == hex_encoding(encode_utf8(track.title)),
        ascii_lowercase(encode_utf8(status.artist@)) == hex_encoding(encode_utf8(track.artist)),
        ascii_lowercase(encode_utf8(status.album@)) == hex_encoding(encode_utf8(track.album)),
    ensures
        status.decoded_track() == Some(track),
{
    lemma_decoding_recovers_text_any_case(status.title@, track.title);
    lemma_decoding_recovers_text_any_case(status.artist@, track.artist);
    lemma_decoding_recovers_text_any_case(status.album@, track.album);
}

/// A status decodes to a track exactly when each field decodes on its own,
/// whatever the case of its hex digits, and the track holds the decoded
/// fields.
pub proof fn lemma_track_decodes_fieldwise(
    status: PlayerStatus,
    title: Seq<char>,
    artist: Seq<char>,
    album: Seq<char>,
)
    requires
        hex_text_decoding(status.title@) == Some(title),
        hex_text_decoding(status.artist@) == Some(artist),
        hex_text_decoding(status.album@) == Some(album),
    ensures
        status.decoded_track() == Some(TrackView { title, artist, album }),
{
}

/// A status with a field that does not decode has no track.
pub proof fn lemma_track_fails_with_any_field(status: PlayerStatus)
    requires
        hex_text_decoding(status.title@) is None || hex_text_decoding(status.artist@) is None
            || hex_text_decoding(status.album@) is None,
    ensures
        status.decoded_track() is None,
{
}

} // verus!
