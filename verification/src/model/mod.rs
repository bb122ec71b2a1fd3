//! The model: what the player reports, what of it changes, and when to ask
//! the player again.

pub mod audio_player;
pub mod player_status;
pub mod track_info;

use vstd::prelude::*;

use self::audio_player::{fetched_track, track_change};
use self::player_status::{PlayerStatus, TrackInfo, TrackView};

verus! {

/// How long, in microseconds, a fetched status counts as current.
pub const UPDATE_TIME_US: u64 = 10_000_000;

/// At system time `now`, a player last asked at `last_update` is due to be
/// asked again.
pub open spec fn refresh_due(last_update: u64, now: u64) -> bool {
    last_update <= now && now - last_update >= UPDATE_TIME_US
}

/// What an `AudioPlayer` holds: the last reported track, and when, in
/// microseconds of system time, the player was last asked.
pub struct PlayerView {
    pub track: Option<TrackView>,
    pub last_update: u64,
}

/// The track that the player last reported, asked for at most once every
/// `UPDATE_TIME_US`.
pub struct AudioPlayer {
    tracker: audio_player::AudioPlayer,
    last_update: u64,
}

impl View for AudioPlayer {
    type V = PlayerView;

    closed spec fn view(&self) -> PlayerView {
        PlayerView { track: self.tracker@, last_update: self.last_update }
    }
}

impl AudioPlayer {
    /// A player that knows of no track yet, created at system time `now`.
    pub fn new(now: u64) -> (player: Self)
        ensures
            player@.track is None,
            player@.last_update == now,
    {
        AudioPlayer { tracker: audio_player::AudioPlayer::new(), last_update: now }
    }

    /// The system time at which the player was last asked.
    pub fn last_update(&self) -> (time: u64)
        ensures
            time == self@.last_update,
    {
        self.last_update
    }

    /// Whether at system time `now` the player is due to be asked again.
    pub fn should_refresh(&self, now: u64) -> (due: bool)
        requires
            self@.last_update <= now,
        ensures
            due == refresh_due(self@.last_update, now),
    {
        let diff = now - self.last_update;
        diff >= UPDATE_TIME_US
    }

    /// At system time `now`, if a refresh is due, takes in the status fetched
    /// from the player (`None` when fetching or parsing failed), records
    /// `now` as the time of this update, and returns the track if it is new.
    /// If no refresh is due, it returns `None` and changes nothing; callers
    /// check `should_refresh` first so as not to fetch in vain.
    pub fn update(&mut self, fetched: Option<PlayerStatus>, now: u64) -> (updated: Option<&TrackInfo>)
        requires
            old(self)@.last_update <= now,
        ensures
            !refresh_due(old(self)@.last_update, now) ==> updated is None && final(self)@ == old(
                self,
            )@,
            refresh_due(old(self)@.last_update, now) ==> {
                &&& final(self)@.last_update == now
                &&& final(self)@.track == track_change(old(self)@.track, fetched_track(fetched)).0
                &&& (updated is Some <==> track_change(old(self)@.track, fetched_track(fetched)).1 is Some)
                &&& (updated matches Some(info) ==> track_change(
                    old(self)@.track,
                    fetched_track(fetched),
                ).1 == Some(info@))
            },
    {
        if !self.should_refresh(now) {
            return None;
        }
        self.last_update = now;
        self.tracker.update(fetched)
    }
}

} // verus!
