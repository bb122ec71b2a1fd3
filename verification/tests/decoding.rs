use wiim_display::device::http::response_message;
use wiim_display::encoding::{DecodeError, HexError, Utf8Fault};
use wiim_display::model::player_status::{PlayerStatus, TrackInfo};
use wiim_display::model::track_info;

fn status(title: &str, artist: &str, album: &str) -> PlayerStatus {
    PlayerStatus {
        title: title.to_string(),
        artist: artist.to_string(),
        album: album.to_string(),
    }
}

#[test]
fn decodes_ascii_hex() {
    let data = "48656c6c6f".to_string();
    assert_eq!(PlayerStatus::decode_data_to_string(&data), Ok("Hello".to_string()));
}

#[test]
fn decodes_upper_and_mixed_case_hex() {
    let upper = "48454C4C4F".to_string();
    assert_eq!(PlayerStatus::decode_data_to_string(&upper), Ok("HELLO".to_string()));
    let mixed = "4a4B".to_string();
    assert_eq!(PlayerStatus::decode_data_to_string(&mixed), Ok("JK".to_string()));
}

#[test]
fn decodes_multibyte_utf8() {
    let data = "43c3a9".to_string();
    assert_eq!(PlayerStatus::decode_data_to_string(&data), Ok("Cé".to_string()));
}

#[test]
fn decodes_empty_text() {
    let data = String::new();
    assert_eq!(PlayerStatus::decode_data_to_string(&data), Ok(String::new()));
}

#[test]
fn odd_number_of_digits_is_invalid_hex() {
    let data = "486".to_string();
    assert_eq!(
        PlayerStatus::decode_data_to_string(&data),
        Err(DecodeError::Hex(HexError::OddLength))
    );
    let odd_and_bad = "zz4".to_string();
    assert_eq!(
        PlayerStatus::decode_data_to_string(&odd_and_bad),
        Err(DecodeError::Hex(HexError::OddLength))
    );
}

#[test]
fn non_hex_character_is_invalid_hex() {
    let data = "4g".to_string();
    assert_eq!(
        PlayerStatus::decode_data_to_string(&data),
        Err(DecodeError::Hex(HexError::InvalidHexCharacter { c: 'g', index: 1 }))
    );
    let later = "414x4y".to_string();
    assert_eq!(
        PlayerStatus::decode_data_to_string(&later),
        Err(DecodeError::Hex(HexError::InvalidHexCharacter { c: 'x', index: 3 }))
    );
    let non_ascii = "é1".to_string();
    assert_eq!(
        PlayerStatus::decode_data_to_string(&non_ascii),
        Err(DecodeError::Hex(HexError::OddLength))
    );
    let non_ascii_even = "é".to_string();
    assert_eq!(
        PlayerStatus::decode_data_to_string(&non_ascii_even),
        Err(DecodeError::Hex(HexError::InvalidHexCharacter { c: '\u{c3}', index: 0 }))
    );
}

#[test]
fn bytes_that_are_not_utf8_are_invalid_utf8() {
    let data = "41ff".to_string();
    assert_eq!(
        PlayerStatus::decode_data_to_string(&data),
        Err(DecodeError::Utf8(Utf8Fault { valid_up_to: 1, error_len: Some(1) }))
    );
    let truncated = "c3".to_string();
    assert_eq!(
        PlayerStatus::decode_data_to_string(&truncated),
        Err(DecodeError::Utf8(Utf8Fault { valid_up_to: 0, error_len: None }))
    );
}

#[test]
fn hex_of_utf8_text_decodes_back() {
    for text in ["Hello", "Motörhead", "", "日本語", "a b c"] {
        let hex_text: String = text.bytes().map(|b| format!("{:02x}", b)).collect();
        assert_eq!(PlayerStatus::decode_data_to_string(&hex_text), Ok(text.to_string()));
    }
}

#[test]
fn track_info_from_status() {
    let s = status("5469746c65", "417274697374", "416c62756d");
    assert_eq!(s.get_title(), Ok("Title".to_string()));
    assert_eq!(s.get_artist(), Ok("Artist".to_string()));
    assert_eq!(s.get_album(), Ok("Album".to_string()));
    assert_eq!(
        s.get_track_info(),
        Ok(TrackInfo {
            title: "Title".to_string(),
            artist: "Artist".to_string(),
            album: "Album".to_string(),
        })
    );
}

#[test]
fn track_info_reports_first_failing_field() {
    assert_eq!(
        status("zz", "ff", "41").get_track_info(),
        Err(DecodeError::Hex(HexError::InvalidHexCharacter { c: 'z', index: 0 }))
    );
    assert_eq!(
        status("41", "ff", "zz").get_track_info(),
        Err(DecodeError::Utf8(Utf8Fault { valid_up_to: 0, error_len: Some(1) }))
    );
    assert_eq!(
        status("41", "42", "4").get_track_info(),
        Err(DecodeError::Hex(HexError::OddLength))
    );
}

#[test]
fn same_track_compares_all_fields() {
    let a = TrackInfo { title: "T".to_string(), artist: "A".to_string(), album: "B".to_string() };
    let b = a.clone();
    assert!(a.same_track(&b));
    let c = TrackInfo { album: "C".to_string(), ..a.clone() };
    assert!(!a.same_track(&c));
}

#[test]
fn placeholder_track_info() {
    let info = track_info::TrackInfo::new().unwrap();
    assert_eq!(info.artist, "Artist");
    assert_eq!(info.album, "Album");
    assert_eq!(info.title, "Title");
    assert_eq!(info.time, "00:00");
}

#[test]
fn response_message_reads_the_bytes_read() {
    let mut buf = [0u8; 16];
    buf[..5].copy_from_slice(b"{\"a\"}");
    assert_eq!(response_message(&buf, 5), Ok("{\"a\"}".to_string()));
    assert_eq!(response_message(&buf, 0), Ok(String::new()));
    assert_eq!(response_message(&buf, 2), Ok("{\"".to_string()));
}

#[test]
fn response_message_rejects_invalid_utf8() {
    let buf = [0x41u8, 0xc3, 0x28];
    assert_eq!(
        response_message(&buf, 3),
        Err(DecodeError::Utf8(Utf8Fault { valid_up_to: 1, error_len: Some(1) }))
    );
    assert_eq!(
        response_message(&buf, 2),
        Err(DecodeError::Utf8(Utf8Fault { valid_up_to: 1, error_len: None }))
    );
    assert_eq!(response_message(&buf, 1), Ok("A".to_string()));
}

#[test]
fn decoded_text_reencodes_to_the_lower_cased_input() {
    for data in ["48454C4C4F", "4d6F74C3B67268656164", "", "e697a5"] {
        let text = PlayerStatus::decode_data_to_string(&data.to_string()).unwrap();
        let again: String = text.bytes().map(|b| format!("{:02x}", b)).collect();
        assert_eq!(again, data.to_ascii_lowercase());
    }
}
