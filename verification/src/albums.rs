//! The albums that a user has saved.

use crate::client::{
    after_page, all_items, lemma_all_items_push, next_start, room, Page, SpotifyClient, PAGE_SIZE,
};
use crate::error::QueueError;
use crate::serialize::Album;
use vstd::prelude::*;

verus! {

/// Puts the albums of `page` behind those in `parsed`, and says where the
/// listing is read on: `PAGE_SIZE` entries past the start of `page`, if
/// `page` says that more follows.
pub fn take_albums(parsed: &mut Vec<Album>, page: Page<Album>, asked: u32) -> (res: Result<
    Option<u32>,
    QueueError,
>)
    ensures
        final(parsed)@ == old(parsed)@ + page.items@,
        res == after_page(page.next is Some, page.offset + PAGE_SIZE, Some(asked)),
{
    let mut items = page.items;
    parsed.append(&mut items);
    next_start(page.next.is_some(), page.offset, PAGE_SIZE, Some(asked))
}

/// `answer` is what `spotify` may answer when it is asked for a page of the
/// saved albums from the entry `offset` on.
pub open spec fn answers_albums<C: SpotifyClient>(
    spotify: &C,
    offset: u32,
    answer: Result<Page<Album>, QueueError>,
) -> bool {
    call_ensures(C::saved_albums, (spotify, Some(PAGE_SIZE), Some(offset)), answer)
}

/// Where the page after the first `i` of the pages `pages` is asked for: at
/// the start of the listing, and then `PAGE_SIZE` entries past the start of
/// the page before.
pub open spec fn albums_start(pages: Seq<Page<Album>>, i: int) -> int {
    if i == 0 {
        0
    } else {
        pages[i - 1].offset + PAGE_SIZE
    }
}

/// `pages` are pages of the saved albums as `spotify` answered them, read
/// one after the other from the start of the listing: each was asked for
/// where the one before led to, and each but the last says that more
/// follows.
pub open spec fn albums_listed<C: SpotifyClient>(spotify: &C, pages: Seq<Page<Album>>) -> bool {
    forall|i: int| 0 <= i < pages.len() ==> #[trigger] album_page_listed(spotify, pages, i)
}

/// Page `i` of `pages` is one that `spotify` answered where the page before
/// led to, and it says that more follows unless it is the last.
pub open spec fn album_page_listed<C: SpotifyClient>(
    spotify: &C,
    pages: Seq<Page<Album>>,
    i: int,
) -> bool {
    &&& albums_start(pages, i) <= u32::MAX
    &&& answers_albums(spotify, albums_start(pages, i) as u32, Ok(pages[i]))
    &&& i + 1 < pages.len() ==> pages[i].next is Some
}

/// `albums` are the saved albums as `spotify` lists them: the entries of the
/// pages of the listing, read to the page that says that none follows.
pub open spec fn albums_backed_up<C: SpotifyClient>(spotify: &C, albums: Seq<Album>) -> bool {
    exists|pages: Seq<Page<Album>>|
        pages.len() > 0 && #[trigger] albums_listed(spotify, pages) && pages.last().next is None
            && albums == all_items(pages)
}

/// The listing of the saved albums has come to nothing with the failure `e`
/// after the pages `pages`: `spotify` has failed so when it was asked for
/// the page after them, or the last of them leads on to nowhere past itself.
pub open spec fn albums_failed<C: SpotifyClient>(
    spotify: &C,
    pages: Seq<Page<Album>>,
    e: QueueError,
) -> bool {
    &&& albums_listed(spotify, pages)
    &&& pages.len() > 0 ==> pages.last().next is Some
    &&& {
        ||| albums_start(pages, pages.len() as int) <= u32::MAX && answers_albums(
            spotify,
            albums_start(pages, pages.len() as int) as u32,
            Err(e),
        )
        ||| pages.len() > 0 && e is ListingStalled && after_page(
            true,
            pages.last().offset + PAGE_SIZE,
            Some(albums_start(pages, pages.len() - 1) as u32),
        ) is Err
    }
}

/// All the albums that the user has saved, read from `spotify` page by page
/// from the start of the listing, in the order of the listing. The first
/// page that fails, and a listing that does not advance, fail the whole.
pub fn backup_albums<C: SpotifyClient>(spotify: &C) -> (res: Result<Vec<Album>, QueueError>)
    ensures
        match res {
            Ok(albums) => albums_backed_up(spotify, albums@),
            Err(e) => exists|pages: Seq<Page<Album>>| #[trigger] albums_failed(spotify, pages, e),
        },
{
    let mut parsed_albums: Vec<Album> = Vec::new();
    let mut offset: u32 = 0;
    let ghost mut pages: Seq<Page<Album>> = Seq::empty();
    loop
        invariant
            albums_listed(spotify, pages),
            pages.len() > 0 ==> pages.last().next is Some,
            offset == albums_start(pages, pages.len() as int),
            parsed_albums@ == all_items(pages),
        decreases room(Some(offset)),
    {
        let albums = match spotify.saved_albums(Some(PAGE_SIZE), Some(offset)) {
            Ok(page) => page,
            Err(e) => {
                assert(albums_failed(spotify, pages, e));
                return Err(e);
            },
        };
        let ghost read = pages.push(albums);
        proof {
            lemma_all_items_push(pages, albums);
            assert forall|i: int| 0 <= i < read.len() implies #[trigger] album_page_listed(
                spotify,
                read,
                i,
            ) by {
                if i < pages.len() {
                    assert(album_page_listed(spotify, pages, i));
                }
            }
        }
        match take_albums(&mut parsed_albums, albums, offset) {
            Ok(Some(next)) => {
                proof {
                    pages = read;
                }
                offset = next;
            },
            Ok(None) => {
                assert(albums_backed_up(spotify, parsed_albums@)) by {
                    assert(albums_listed(spotify, read) && read.last().next is None);
                }
                return Ok(parsed_albums);
            },
            Err(e) => {
                assert(albums_failed(spotify, read, e));
                return Err(e);
            },
        }
    }
}

} // verus!
