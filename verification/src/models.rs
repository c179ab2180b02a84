//! The load-tracks result model: what `/v4/loadtracks` answers.

use vstd::prelude::*;
use crate::track::DecodedTrack;

verus! {

/// The kind of result a load yielded.
#[derive(Clone, Copy, Debug, PartialEq, Eq, Structural)]
pub enum LoadType {
    Track,
    Playlist,
    Search,
    Empty,
    Error,
}

/// The payload that goes with each load type.
pub enum LoadResultData {
    Track(DecodedTrack),
    Playlist(PlaylistData),
    Search(Vec<DecodedTrack>),
    Empty,
    Error(ErrorData),
}

/// A load answer: its kind and the matching payload.
pub struct LoadTracksResponse {
    pub load_type: LoadType,
    pub data: LoadResultData,
}

/// A playlist result.
pub struct PlaylistData {
    pub info: PlaylistInfo,
    pub tracks: Vec<DecodedTrack>,
}

/// A playlist's descriptor.
pub struct PlaylistInfo {
    pub name: String,
    pub selected_track: i32,
}

/// A load failure report.
pub struct ErrorData {
    pub message: String,
    pub severity: String,
    pub cause: String,
}

impl LoadTracksResponse {
    /// The empty answer.
    pub fn empty() -> (r: Self)
        ensures
            r.load_type == LoadType::Empty,
            r.data is Empty,
    {
        LoadTracksResponse { load_type: LoadType::Empty, data: LoadResultData::Empty }
    }
}

} // verus!
