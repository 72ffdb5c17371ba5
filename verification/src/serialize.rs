//! What a backup holds.

use vstd::prelude::*;

verus! {

/// The name that the music service knows a playlist by.
pub type PlaylistId = String;

/// The albums and the playlists of one user's library.
#[derive(Debug, Clone, PartialEq)]
pub struct Backup {
    pub albums: Vec<Album>,
    pub playlists: Vec<Playlist>,
}

/// Who made an album.
#[derive(Debug, Clone, PartialEq)]
pub struct Artist {
    pub name: String,
}

/// The kind of release that an album is.
#[derive(Debug, Clone, Copy, PartialEq, Eq, Structural)]
pub enum AlbumType {
    Album,
    Single,
    AppearsOn,
    Compilation,
}

/// An album, as far as a backup keeps it.
#[derive(Debug, Clone, PartialEq)]
pub struct Album {
    pub title: String,
    pub artists: Vec<Artist>,
    pub album_type: Option<AlbumType>,
    pub release_date: Option<String>,
}

/// A track of a playlist, with the album that it is on.
#[derive(Debug, Clone, PartialEq)]
pub struct Track {
    pub name: String,
    pub album: Album,
}

/// A playlist with its tracks. `track_count` is their number.
#[derive(Debug, Clone, PartialEq)]
pub struct Playlist {
    pub id: PlaylistId,
    pub name: String,
    pub tracks: Vec<Track>,
    pub track_count: usize,
}

} // verus!
