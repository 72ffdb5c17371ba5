//! The music service as a backup sees it: a user's library, read page by
//! page.

use crate::error::QueueError;
use crate::serialize::{Album, Playlist, PlaylistId, Track};
use vstd::prelude::*;

verus! {

/// One page of a listing.
#[derive(Debug, Clone, PartialEq)]
pub struct Page<T> {
    pub href: String,
    pub items: Vec<T>,
    pub limit: u32,
    /// Where in the listing the page starts.
    pub offset: u32,
    /// The address of the page after this one, if there is one.
    pub next: Option<String>,
    pub previous: Option<String>,
    pub total: u32,
}

/// The number of entries that a backup asks for at a time.
pub const PAGE_SIZE: u32 = 50;

/// Where a listing is read on after a page, if at all. The page says whether
/// more follows (`more`). The next page is then asked for at `start`, which
/// has to lie past `asked`, where the last page was asked for, and within
/// the range of offsets: a listing that goes on without going forward is
/// given up.
pub open spec fn after_page(more: bool, start: int, asked: Option<u32>) -> Result<
    Option<u32>,
    QueueError,
> {
    if !more {
        Ok(None)
    } else if start <= u32::MAX && (asked matches Some(last) ==> last < start) {
        Ok(Some(start as u32))
    } else {
        Err(QueueError::ListingStalled)
    }
}

/// Where a listing is read on after a page that starts at `from` and says
/// whether `more` follows: `step` entries on.
pub fn next_start(more: bool, from: u32, step: u32, asked: Option<u32>) -> (res: Result<
    Option<u32>,
    QueueError,
>)
    ensures
        res == after_page(more, from + step, asked),
{
    if !more {
        return Ok(None);
    }
    match from.checked_add(step) {
        Some(start) => {
            let forward = match asked {
                Some(last) => last < start,
                None => true,
            };
            if forward {
                Ok(Some(start))
            } else {
                Err(QueueError::ListingStalled)
            }
        },
        None => Err(QueueError::ListingStalled),
    }
}

/// How far a listing that was last asked for at `asked` may still go.
pub open spec fn room(asked: Option<u32>) -> int {
    match asked {
        Some(last) => u32::MAX - last,
        None => u32::MAX + 1,
    }
}

/// The entries of the pages `pages`, one page after the other.
pub open spec fn all_items<T>(pages: Seq<Page<T>>) -> Seq<T>
    decreases pages.len(),
{
    if pages.len() == 0 {
        Seq::empty()
    } else {
        all_items(pages.drop_last()) + pages.last().items@
    }
}

/// The entries of pages and of a page read after them are those of the
/// pages, and then those of the page.
pub proof fn lemma_all_items_push<T>(pages: Seq<Page<T>>, page: Page<T>)
    ensures
        all_items(pages.push(page)) == all_items(pages) + page.items@,
{
    assert(pages.push(page).drop_last() =~= pages);
}

/// The entries of a listing that are there, in their order: the service
/// lists an entry that it cannot show as none.
pub open spec fn present<T>(items: Seq<Option<T>>) -> Seq<T>
    decreases items.len(),
{
    if items.len() == 0 {
        Seq::empty()
    } else {
        match items.last() {
            Some(item) => present(items.drop_last()).push(item),
            None => present(items.drop_last()),
        }
    }
}

/// Leaves out of `items` the entries that are not there.
pub fn flatten<T>(items: Vec<Option<T>>) -> (res: Vec<T>)
    ensures
        res@ == present(items@),
{
    let mut rest = items;
    let mut found: Vec<T> = Vec::new();
    let ghost all = rest@;
    let ghost mut done: int = 0;
    while rest.len() > 0
        invariant
            0 <= done <= all.len(),
            rest@ == all.skip(done),
            found@ == present(all.take(done)),
        decreases rest.len(),
    {
        let item = rest.remove(0);
        proof {
            assert(all.take(done + 1).drop_last() =~= all.take(done));
            assert(all.take(done + 1).last() == item);
            assert(rest@ =~= all.skip(done + 1));
            done = done + 1;
        }
        match item {
            Some(item) => {
                found.push(item);
            },
            None => {},
        }
    }
    assert(all.take(done) =~= all);
    found
}

/// What a backup asks of the music service.
pub trait SpotifyClient {
    /// A page of the albums that the user has saved: `limit` entries at
    /// most, from the entry `offset` on.
    fn saved_albums(&self, limit: Option<u32>, offset: Option<u32>) -> Result<
        Page<Album>,
        QueueError,
    >;

    /// A page of the identifiers of the playlists of the user `user_id`.
    fn playlists(&self, user_id: &str, limit: Option<u32>, offset: Option<u32>) -> Result<
        Page<PlaylistId>,
        QueueError,
    >;

    /// The playlist `playlist_id`, without its tracks, and the first page of
    /// its tracks.
    fn playlist(&self, playlist_id: &PlaylistId) -> Result<(Playlist, Page<Track>), QueueError>;

    /// A page of the tracks of the playlist `playlist_id`.
    fn playlist_tracks(
        &self,
        user_id: &str,
        playlist_id: &PlaylistId,
        limit: Option<u32>,
        offset: Option<u32>,
    ) -> Result<Page<Track>, QueueError>;
}

} // verus!
