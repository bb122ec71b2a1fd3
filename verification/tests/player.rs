use wiim_display::model::audio_player;
use wiim_display::model::player_status::{PlayerStatus, TrackInfo};
use wiim_display::model::{AudioPlayer, UPDATE_TIME_US};
use wiim_display::view::player_ui::PlayerUi;
use wiim_display::view::scroll_textblock::TextDraw;

fn hex(text: &str) -> String {
    text.bytes().map(|b| format!("{:02x}", b)).collect()
}

fn status(title: &str, artist: &str, album: &str) -> PlayerStatus {
    PlayerStatus { title: hex(title), artist: hex(artist), album: hex(album) }
}

fn track(title: &str, artist: &str, album: &str) -> TrackInfo {
    TrackInfo { title: title.to_string(), artist: artist.to_string(), album: album.to_string() }
}

#[test]
fn first_track_is_reported() {
    let mut player = audio_player::AudioPlayer::new();
    assert_eq!(player.update(None), None);
    assert_eq!(
        player.update(Some(status("Song", "Band", "Record"))),
        Some(&track("Song", "Band", "Record"))
    );
}

#[test]
fn same_track_is_reported_once() {
    let mut player = audio_player::AudioPlayer::new();
    assert!(player.update(Some(status("Song", "Band", "Record"))).is_some());
    assert_eq!(player.update(Some(status("Song", "Band", "Record"))), None);
    assert_eq!(player.update(Some(status("Song", "Band", "Record"))), None);
}

#[test]
fn changed_track_is_reported() {
    let mut player = audio_player::AudioPlayer::new();
    player.update(Some(status("Song", "Band", "Record")));
    assert_eq!(
        player.update(Some(status("Song", "Band", "Live"))),
        Some(&track("Song", "Band", "Live"))
    );
    assert_eq!(
        player.update(Some(status("Song", "Band", "Record"))),
        Some(&track("Song", "Band", "Record"))
    );
}

#[test]
fn failed_fetch_or_decode_keeps_the_track() {
    let mut player = audio_player::AudioPlayer::new();
    player.update(Some(status("Song", "Band", "Record")));
    assert_eq!(player.update(None), None);
    let broken = PlayerStatus {
        title: "zz".to_string(),
        artist: hex("Band"),
        album: hex("Record"),
    };
    assert_eq!(player.update(Some(broken)), None);
    assert_eq!(player.update(Some(status("Song", "Band", "Record"))), None);
}

#[test]
fn refresh_is_due_after_the_update_time() {
    let player = AudioPlayer::new(1_000);
    assert!(!player.should_refresh(1_000));
    assert!(!player.should_refresh(1_000 + UPDATE_TIME_US - 1));
    assert!(player.should_refresh(1_000 + UPDATE_TIME_US));
    assert!(player.should_refresh(u64::MAX));
}

#[test]
fn update_restarts_the_refresh_time() {
    let mut player = AudioPlayer::new(0);
    assert_eq!(
        player.update(Some(status("Song", "Band", "Record")), 10_000_000),
        Some(&track("Song", "Band", "Record"))
    );
    assert!(!player.should_refresh(15_000_000));
    assert!(player.should_refresh(20_000_000));
    assert_eq!(player.update(Some(status("Song", "Band", "Record")), 20_000_000), None);
    assert_eq!(player.update(None, 30_000_000), None);
    assert!(!player.should_refresh(35_000_000));
}

fn draw(text: &str, y: i32) -> TextDraw {
    TextDraw { text: text.to_string(), x: 0, y }
}

#[test]
fn screen_starts_waiting() {
    let mut ui = PlayerUi::new();
    let frame = ui.update(None);
    assert!(!frame.clear_display);
    assert_eq!(frame.draws, vec![draw("Waiting for Wifi", 80), draw("", 120), draw("", 160)]);
    let frame = ui.update(None);
    assert!(!frame.clear_display);
    assert!(frame.draws.is_empty());
}

#[test]
fn received_track_is_shown_artist_title_album() {
    let mut ui = PlayerUi::new();
    ui.update(None);
    let frame = ui.update(Some(track("Song", "Band", "Record")));
    assert!(frame.clear_display);
    assert_eq!(frame.draws, vec![draw("Band", 80), draw("Song", 120), draw("Record", 160)]);
    assert!(ui.update(None).draws.is_empty());
}

#[test]
fn long_line_scrolls_alone() {
    let mut ui = PlayerUi::new();
    ui.update(Some(track("Song", "A band with a very long name", "Record")));
    for _ in 0..20 {
        assert!(ui.update(None).draws.is_empty());
    }
    let frame = ui.update(None);
    assert_eq!(frame.draws, vec![draw(" band with a very lo", 80)]);
}

#[test]
fn last_update_is_the_time_of_the_last_update() {
    let mut player = AudioPlayer::new(7);
    assert_eq!(player.last_update(), 7);
    player.update(None, 7 + UPDATE_TIME_US);
    assert_eq!(player.last_update(), 7 + UPDATE_TIME_US);
    assert!(!player.should_refresh(8 + UPDATE_TIME_US));
}

#[test]
fn update_before_a_refresh_is_due_changes_nothing() {
    let mut player = AudioPlayer::new(1_000);
    assert_eq!(player.update(Some(status("Song", "Band", "Record")), 2_000), None);
    assert_eq!(player.last_update(), 1_000);
    assert_eq!(
        player.update(Some(status("Song", "Band", "Record")), 1_000 + UPDATE_TIME_US),
        Some(&track("Song", "Band", "Record"))
    );
    assert_eq!(player.last_update(), 1_000 + UPDATE_TIME_US);
    assert_eq!(player.update(Some(status("Other", "Band", "Record")), 2_000 + UPDATE_TIME_US), None);
    assert_eq!(player.last_update(), 1_000 + UPDATE_TIME_US);
}
