use vstd::prelude::*;

verus! {

/// Where a track stands in the progress through its tracklist.
#[derive(Debug, Clone, Copy, PartialEq, Eq, Structural)]
pub enum TrackStatus {
    Played,
    Playing,
    Unplayed,
    Unplayable,
}

impl Default for TrackStatus {
    fn default() -> (r: Self)
        ensures
            r == TrackStatus::Unplayed,
    {
        TrackStatus::Unplayed
    }
}

/// A track of the remote catalogue, with its playback status.
#[derive(Debug, Clone, PartialEq)]
pub struct Track {
    pub id: u32,
    pub number: u32,
    pub title: String,
    pub artist_name: Option<String>,
    pub artist_id: Option<u32>,
    pub album_title: Option<String>,
    pub album_id: Option<String>,
    pub duration_seconds: u32,
    pub explicit: bool,
    pub hires_available: bool,
    pub available: bool,
    pub image: Option<String>,
    pub image_thumbnail: Option<String>,
    pub status: TrackStatus,
}

impl Track {
    /// The same track with another status.
    pub open spec fn with_status(self, status: TrackStatus) -> Track {
        Track { status: status, ..self }
    }

    pub open spec fn is_playing(self) -> bool {
        self.status == TrackStatus::Playing
    }
}

/// An album with its tracks.
#[derive(Debug, Clone, PartialEq)]
pub struct Album {
    pub id: String,
    pub title: String,
    pub image: String,
    pub tracks: Vec<Track>,
}

/// A playlist with its tracks.
#[derive(Debug, Clone, PartialEq)]
pub struct Playlist {
    pub id: u32,
    pub title: String,
    pub image: Option<String>,
    pub tracks: Vec<Track>,
}

/// An artist with the artist's most played tracks.
#[derive(Debug, Clone, PartialEq)]
pub struct ArtistPage {
    pub id: u32,
    pub name: String,
    pub image: Option<String>,
    pub top_tracks: Vec<Track>,
}

} // verus!
