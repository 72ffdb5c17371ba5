//! The capabilities that the daemon is handed: what makes a backup, and
//! where backups are kept.

use crate::albums::{albums_backed_up, albums_failed, backup_albums};
use crate::client::{Page, SpotifyClient};
use crate::error::QueueError;
use crate::playlists::{backup_playlists, playlists_backed_up, playlists_failed};
use crate::serialize::{Album, Backup, PlaylistId};
use crate::token::TokenInfo;
use vstd::prelude::*;

verus! {

/// What makes a backup. The daemon knows nothing of how: whatever error comes
/// back is the failure of the request.
pub trait BackupFn {
    /// Makes the backup of the library that `token_info` gives access to.
    fn apply(&self, token_info: TokenInfo) -> Result<Backup, QueueError>;
}

/// Where backups are kept: a directory of files, or what stands for one.
pub trait ArtifactStore {
    /// Keeps `backup` under `path`.
    fn write(&mut self, path: &str, backup: &Backup) -> Result<(), QueueError>;

    /// Forgets what is kept under `path`.
    fn delete(&mut self, path: &str) -> Result<(), QueueError>;
}

/// The backup of a user's library.
#[derive(Debug, Clone, Copy)]
pub struct DefaultBackup;

impl DefaultBackup {
    /// Reads the backup of the user `user_id` from `spotify`: first all the
    /// saved albums, then all the playlists. Whatever fails on the way fails
    /// the backup, with that failure. Every playlist of the backup counts its
    /// tracks rightly.
    pub fn full_backup<C: SpotifyClient>(user_id: &str, spotify: &C) -> (res: Result<
        Backup,
        QueueError,
    >)
        ensures
            match res {
                Ok(backup) => {
                    &&& albums_backed_up(spotify, backup.albums@)
                    &&& playlists_backed_up(spotify, user_id, backup.playlists@)
                    &&& forall|i: int|
                        0 <= i < backup.playlists@.len() ==> (
                        #[trigger] backup.playlists@[i]).track_count
                            == backup.playlists@[i].tracks@.len()
                },
                Err(e) => {
                    ||| exists|pages: Seq<Page<Album>>| #[trigger]
                        albums_failed(spotify, pages, e)
                    ||| (exists|albums: Seq<Album>| #[trigger] albums_backed_up(spotify, albums))
                        && exists|pages: Seq<Page<PlaylistId>>| #[trigger]
                        playlists_failed(spotify, user_id, pages, e)
                },
            },
    {
        let albums = match backup_albums(spotify) {
            Ok(albums) => albums,
            Err(e) => {
                return Err(e);
            },
        };
        let playlists = match backup_playlists(user_id, spotify) {
            Ok(playlists) => playlists,
            Err(e) => {
                assert(albums_backed_up(spotify, albums@));
                return Err(e);
            },
        };
        Ok(Backup { albums, playlists })
    }
}

} // verus!
