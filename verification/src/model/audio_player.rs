//! The track that the player last reported, and whether a new report changes it.

use vstd::prelude::*;

use super::player_status::{PlayerStatus, TrackInfo, TrackView};

verus! {

/// The track that a fetched status reports, if it was fetched and decodes.
pub open spec fn fetched_track(fetched: Option<PlayerStatus>) -> Option<TrackView> {
    match fetched {
        Some(status) => status.decoded_track(),
        None => None,
    }
}

/// The status after `received` arrived, and what is reported as new: a track
/// that differs from the one held replaces it and is reported; nothing
/// received, or the same track again, changes nothing and reports nothing.
pub open spec fn track_change(held: Option<TrackView>, received: Option<TrackView>) -> (
    Option<TrackView>,
    Option<TrackView>,
) {
    match received {
        None => (held, None),
        Some(current) => if held == Some(current) {
            (held, None)
        } else {
            (Some(current), Some(current))
        },
    }
}

/// The track that the player last reported.
pub struct AudioPlayer {
    status: Option<TrackInfo>,
}

impl View for AudioPlayer {
    type V = Option<TrackView>;

    closed spec fn view(&self) -> Option<TrackView> {
        match self.status {
            Some(info) => Some(info@),
            None => None,
        }
    }
}

impl AudioPlayer {
    /// A player that knows of no track yet.
    pub fn new() -> (player: Self)
        ensures
            player@ is None,
    {
        AudioPlayer { status: None }
    }

    /// Takes in the status fetched from the player (`None` when fetching or
    /// parsing it failed) and returns the track if it is new.
    pub fn update(&mut self, fetched: Option<PlayerStatus>) -> (updated: Option<&TrackInfo>)
        ensures
            final(self)@ == track_change(old(self)@, fetched_track(fetched)).0,
            updated is Some <==> track_change(old(self)@, fetched_track(fetched)).1 is Some,
            updated matches Some(info) ==> track_change(old(self)@, fetched_track(fetched)).1
                == Some(info@),
            fetched_track(fetched) matches Some(track) ==> {
                &&& final(self)@ == Some(track)
                &&& (updated is Some <==> old(self)@ != Some(track))
            },
            fetched_track(fetched) is None ==> final(self)@ == old(self)@ && updated is None,
            updated matches Some(info) ==> fetched_track(fetched) == Some(info@),
    {
        let data = match fetched {
            Some(status) => match status.get_track_info() {
                Ok(track) => Some(track),
                Err(_) => None,
            },
            None => None,
        };
        let mut updated = None;
        if let Some(current) = data {
            match self.status.as_ref() {
                Some(prev) => {
                    if !current.same_track(prev) {
                        updated = self.update_track_data(current);
                    }
                },
                None => {
                    updated = self.update_track_data(current);
                },
            }
        }
        updated
    }

    fn update_track_data(&mut self, data: TrackInfo) -> (held: Option<&TrackInfo>)
        ensures
            final(self)@ == Some(data@),
            held matches Some(info) && info@ == data@,
    {
        self.status = Some(data);
        self.status.as_ref()
    }
}

/// A track that is reported as new differs from the track held before.
pub proof fn lemma_reported_track_is_new(held: Option<TrackView>, received: Option<TrackView>)
    ensures
        track_change(held, received).1 matches Some(track) ==> held != Some(track),
{
}

/// A received track that differs from the held one in any field replaces it
/// and is reported.
pub proof fn lemma_changed_track_reported(held: Option<TrackView>, track: TrackView)
    requires
        held != Some(track),
    ensures
        track_change(held, Some(track)) == (Some(track), Some(track)),
{
}

/// After a track is received it is the one held, whether or not it is
/// reported; when nothing is received, nothing changes and nothing is
/// reported.
pub proof fn lemma_holds_latest_track(held: Option<TrackView>, received: Option<TrackView>)
    ensures
        received matches Some(track) ==> track_change(held, received).0 == Some(track),
        received is None ==> track_change(held, received) == (held, None::<TrackView>),
{
}

/// Receiving the same track a second time changes nothing and reports
/// nothing.
pub proof fn lemma_same_track_reported_once(held: Option<TrackView>, received: Option<TrackView>)
    ensures
        track_change(track_change(held, received).0, received) == (
            track_change(held, received).0,
            None::<TrackView>,
        ),
{
}

} // verus!
