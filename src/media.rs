//! Playback samples as the media poller reports them.
use vstd::prelude::*;

verus! {

/// Playback state of the media session.
#[derive(Debug, Clone, Copy, PartialEq, Eq, Structural)]
pub enum MediaStatus {
    Closed,
    Opened,
    Changing,
    Stopped,
    Playing,
    Paused,
}

/// Kind of media being played.
#[derive(Debug, Clone, Copy, PartialEq, Eq, Structural)]
pub enum MediaType {
    Unknown,
    Music,
    Video,
    Image,
}

/// The four names that identify a track, as text.
pub struct TrackKey {
    pub player: Seq<char>,
    pub artist: Seq<char>,
    pub song: Seq<char>,
    pub album: Seq<char>,
}

/// The identity of a track: which player plays which song by whom, on which album.
#[derive(Debug, Clone)]
pub struct TrackIdentity {
    pub player_name: String,
    pub artist_name: String,
    pub song_name: String,
    pub album_name: String,
}

impl View for TrackIdentity {
    type V = TrackKey;

    open spec fn view(&self) -> TrackKey {
        TrackKey {
            player: self.player_name@,
            artist: self.artist_name@,
            song: self.song_name@,
            album: self.album_name@,
        }
    }
}

impl PartialEq for TrackIdentity {
    fn eq(&self, other: &TrackIdentity) -> (r: bool) {
        self.album_name == other.album_name && self.artist_name == other.artist_name
            && self.song_name == other.song_name && self.player_name == other.player_name
    }
}

impl vstd::std_specs::cmp::PartialEqSpecImpl for TrackIdentity {
    open spec fn obeys_eq_spec() -> bool {
        true
    }

    open spec fn eq_spec(&self, other: &TrackIdentity) -> bool {
        self@ == other@
    }
}

/// One sample of what is playing.
#[derive(Debug, Clone)]
pub struct MediaInfo {
    /// Name of the app or executable that started playing this media
    pub player_name: String,
    pub artist_name: String,
    pub song_name: String,
    pub album_name: String,
    pub status: MediaStatus,
    pub media_type: MediaType,
    /// Length of media in microseconds
    pub end_time: i64,
    /// Amount of time having watched / listened to media in microseconds
    pub current_position: i64,
}

impl MediaInfo {
    /// The track this sample is of; timing and status play no part.
    pub open spec fn key(&self) -> TrackKey {
        TrackKey {
            player: self.player_name@,
            artist: self.artist_name@,
            song: self.song_name@,
            album: self.album_name@,
        }
    }

    /// The identity of the sampled track.
    pub fn identity(&self) -> (id: TrackIdentity)
        ensures
            id@ == self.key(),
    {
        TrackIdentity {
            player_name: self.player_name.clone(),
            artist_name: self.artist_name.clone(),
            song_name: self.song_name.clone(),
            album_name: self.album_name.clone(),
        }
    }
}

/// Two samples are equal when they are of the same track, whatever their timing.
impl PartialEq for MediaInfo {
    fn eq(&self, other: &MediaInfo) -> (r: bool) {
        self.album_name == other.album_name && self.artist_name == other.artist_name
            && self.song_name == other.song_name && self.player_name == other.player_name
    }
}

impl vstd::std_specs::cmp::PartialEqSpecImpl for MediaInfo {
    open spec fn obeys_eq_spec() -> bool {
        true
    }

    open spec fn eq_spec(&self, other: &MediaInfo) -> bool {
        self.key() == other.key()
    }
}

impl MediaStatus {
    /// The status for a raw playback-status code of the media session.
    pub fn from_raw(code: i32) -> (s: MediaStatus)
        requires
            0 <= code <= 5,
        ensures
            code == 0 ==> s == MediaStatus::Closed,
            code == 1 ==> s == MediaStatus::Opened,
            code == 2 ==> s == MediaStatus::Changing,
            code == 3 ==> s == MediaStatus::Stopped,
            code == 4 ==> s == MediaStatus::Playing,
            code == 5 ==> s == MediaStatus::Paused,
    {
        match code {
            0 => MediaStatus::Closed,
            1 => MediaStatus::Opened,
            2 => MediaStatus::Changing,
            3 => MediaStatus::Stopped,
            4 => MediaStatus::Playing,
            _ => MediaStatus::Paused,
        }
    }
}

impl MediaType {
    /// The media type for a raw playback-type code of the media session.
    pub fn from_raw(code: i32) -> (t: MediaType)
        requires
            0 <= code <= 3,
        ensures
            code == 0 ==> t == MediaType::Unknown,
            code == 1 ==> t == MediaType::Music,
            code == 2 ==> t == MediaType::Video,
            code == 3 ==> t == MediaType::Image,
    {
        match code {
            0 => MediaType::Unknown,
            1 => MediaType::Music,
            2 => MediaType::Video,
            _ => MediaType::Image,
        }
    }
}

} // verus!
