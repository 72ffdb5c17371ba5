//! The playlists of a user, each with all of its tracks.

use crate::client::{
    after_page, all_items, lemma_all_items_push, next_start, room, Page, SpotifyClient, PAGE_SIZE,
};
use crate::error::QueueError;
use crate::serialize::{Playlist, PlaylistId, Track};
use vstd::prelude::*;

verus! {

/// Puts the tracks of `page` behind those in `tracks`, and says where the
/// listing is read on: behind the entries that `page` had room for, if
/// `page` says that more follows. `asked` is where `page` was asked for,
/// unless it came with the playlist.
pub fn take_tracks(tracks: &mut Vec<Track>, page: Page<Track>, asked: Option<u32>) -> (res: Result<
    Option<u32>,
    QueueError,
>)
    ensures
        final(tracks)@ == old(tracks)@ + page.items@,
        res == after_page(page.next is Some, page.offset + page.limit, asked),
{
    let mut items = page.items;
    tracks.append(&mut items);
    next_start(page.next.is_some(), page.offset, page.limit, asked)
}

/// The playlist `p` once its tracks are read: the same playlist, with
/// `tracks` for its tracks and their number for its track count.
pub fn with_tracks(p: &Playlist, tracks: Vec<Track>) -> (res: Playlist)
    ensures
        res.id@ == p.id@,
        res.name@ == p.name@,
        res.tracks == tracks,
        res.track_count == tracks.len(),
{
    let track_count = tracks.len();
    Playlist { id: p.id.clone(), name: p.name.clone(), tracks, track_count }
}

/// `answer` is what `spotify` may answer when it is asked for a page of the
/// tracks of the playlist `id` of the user `user_id`, with room for `limit`
/// entries, from the entry `offset` on.
pub open spec fn answers_tracks<C: SpotifyClient>(
    spotify: &C,
    user_id: &str,
    id: &PlaylistId,
    limit: u32,
    offset: u32,
    answer: Result<Page<Track>, QueueError>,
) -> bool {
    call_ensures(C::playlist_tracks, (spotify, user_id, id, Some(limit), Some(offset)), answer)
}

/// Where page `i` of the pages `pages` is asked for, unless it is the first:
/// behind the entries that the page before had room for.
pub open spec fn tracks_start(pages: Seq<Page<Track>>, i: int) -> int {
    pages[i - 1].offset + pages[i - 1].limit
}

/// Page `i` of `pages` is one that `spotify` answered where the page before
/// led to, with the room that the page before had, unless it is the first;
/// and it says that more follows unless it is the last.
pub open spec fn track_page_listed<C: SpotifyClient>(
    spotify: &C,
    user_id: &str,
    id: &PlaylistId,
    pages: Seq<Page<Track>>,
    i: int,
) -> bool {
    &&& i > 0 ==> tracks_start(pages, i) <= u32::MAX && answers_tracks(
        spotify,
        user_id,
        id,
        pages[i - 1].limit,
        tracks_start(pages, i) as u32,
        Ok(pages[i]),
    )
    &&& i + 1 < pages.len() ==> pages[i].next is Some
}

/// `pages` are pages of the tracks of the playlist `id`, read one after the
/// other: each but the first is what `spotify` answered where the one before
/// led to, and each but the last says that more follows.
pub open spec fn tracks_listed<C: SpotifyClient>(
    spotify: &C,
    user_id: &str,
    id: &PlaylistId,
    pages: Seq<Page<Track>>,
) -> bool {
    forall|i: int|
        0 <= i < pages.len() ==> #[trigger] track_page_listed(spotify, user_id, id, pages, i)
}

/// `done` is the playlist `p` with its tracks read: it has the name and the
/// identifier of `p`, its tracks are the entries of the pages of their
/// listing, from `first`, the page that came with the playlist, to the page
/// that says that none follows, and its track count is their number.
pub open spec fn is_read<C: SpotifyClient>(
    spotify: &C,
    user_id: &str,
    done: Playlist,
    p: Playlist,
    first: Page<Track>,
) -> bool {
    &&& done.id@ == p.id@
    &&& done.name@ == p.name@
    &&& done.track_count == done.tracks@.len()
    &&& exists|pages: Seq<Page<Track>>|
        pages.len() > 0 && pages[0] == first && #[trigger] tracks_listed(
            spotify,
            user_id,
            &p.id,
            pages,
        ) && pages.last().next is None && done.tracks@ == all_items(pages)
}

/// Where the last of the pages `pages` was asked for, unless it is the
/// first.
pub open spec fn tracks_asked(pages: Seq<Page<Track>>) -> Option<u32> {
    if pages.len() <= 1 {
        None
    } else {
        Some(tracks_start(pages, pages.len() - 1) as u32)
    }
}

/// The listing of the tracks of the playlist `id` has come to nothing with
/// the failure `e`: after pages read from `first` on, each with more to
/// follow, `spotify` has failed so when it was asked for the next, or the
/// last of them leads on to nowhere past itself.
pub open spec fn tracks_failed<C: SpotifyClient>(
    spotify: &C,
    user_id: &str,
    id: &PlaylistId,
    first: Page<Track>,
    e: QueueError,
) -> bool {
    exists|pages: Seq<Page<Track>>|
        pages.len() > 0 && pages[0] == first && #[trigger] tracks_listed(
            spotify,
            user_id,
            id,
            pages,
        ) && pages.last().next is Some && {
            ||| tracks_start(pages, pages.len() as int) <= u32::MAX && answers_tracks(
                spotify,
                user_id,
                id,
                pages.last().limit,
                tracks_start(pages, pages.len() as int) as u32,
                Err(e),
            )
            ||| e is ListingStalled && after_page(
                true,
                tracks_start(pages, pages.len() as int),
                tracks_asked(pages),
            ) is Err
        }
}

/// Reads the tracks of one playlist to the end, starting with the page that
/// came with the playlist. Where that page says that none follows, nothing is
/// asked of `spotify`, and nothing can fail.
fn read_playlist<C: SpotifyClient>(
    user_id: &str,
    spotify: &C,
    p: &Playlist,
    page: Page<Track>,
) -> (res: Result<Playlist, QueueError>)
    ensures
        page.next is None ==> res is Ok,
        match res {
            Ok(done) => is_read(spotify, user_id, done, *p, page),
            Err(e) => tracks_failed(spotify, user_id, &p.id, page, e),
        },
{
    let mut tracks: Vec<Track> = Vec::new();
    let mut asked: Option<u32> = None;
    let mut next_page = page;
    let ghost mut pages: Seq<Page<Track>> = Seq::empty();
    loop
        invariant_except_break
            tracks_listed(spotify, user_id, &p.id, pages.push(next_page)),
            pages.push(next_page)[0] == page,
            pages.len() == 0 ==> next_page == page,
            asked == tracks_asked(pages.push(next_page)),
            tracks@ == all_items(pages),
        ensures
            pages.len() > 0,
            pages[0] == page,
            tracks_listed(spotify, user_id, &p.id, pages),
            pages.last().next is None,
            tracks@ == all_items(pages),
        decreases room(asked),
    {
        let limit = next_page.limit;
        let ghost current = next_page;
        let ghost read = pages.push(current);
        let step = take_tracks(&mut tracks, next_page, asked);
        proof {
            lemma_all_items_push(pages, current);
            assert(track_page_listed(spotify, user_id, &p.id, read, 0));
        }
        match step {
            Ok(Some(offset)) => {
                match spotify.playlist_tracks(user_id, &p.id, Some(limit), Some(offset)) {
                    Ok(answer) => {
                        proof {
                            let longer = read.push(answer);
                            assert forall|i: int| 0 <= i < longer.len() implies #[trigger] track_page_listed(
                                spotify,
                                user_id,
                                &p.id,
                                longer,
                                i,
                            ) by {
                                if i < read.len() {
                                    assert(track_page_listed(spotify, user_id, &p.id, read, i));
                                }
                            }
                            pages = read;
                        }
                        next_page = answer;
                        asked = Some(offset);
                    },
                    Err(e) => {
                        assert(tracks_listed(spotify, user_id, &p.id, read) && answers_tracks(
                            spotify,
                            user_id,
                            &p.id,
                            read.last().limit,
                            tracks_start(read, read.len() as int) as u32,
                            Err(e),
                        ));
                        return Err(e);
                    },
                }
            },
            Ok(None) => {
                proof {
                    pages = read;
                }
                break ;
            },
            Err(e) => {
                assert(tracks_listed(spotify, user_id, &p.id, read) && e is ListingStalled);
                return Err(e);
            },
        }
    }
    let done = with_tracks(p, tracks);
    Ok(done)
}

/// Puts behind the playlists in `dest` each of `playlists` with all of its
/// tracks: those of the page that it came with, and those of the pages that
/// follow, read from `spotify`. What was in `dest` stays, whatever happens.
/// Where every page that came with a playlist says that none follows,
/// nothing is asked of `spotify`, and nothing can fail.
pub fn extract_playlists<C: SpotifyClient>(
    user_id: &str,
    spotify: &C,
    dest: &mut Vec<Playlist>,
    playlists: Vec<(Playlist, Page<Track>)>,
) -> (res: Result<(), QueueError>)
    ensures
        old(dest)@.is_prefix_of(final(dest)@),
        (forall|k: int| 0 <= k < playlists@.len() ==> (#[trigger] playlists@[k]).1.next is None)
            ==> res is Ok,
        res is Ok ==> {
            &&& final(dest)@.len() == old(dest)@.len() + playlists@.len()
            &&& forall|k: int|
                0 <= k < playlists@.len() ==> is_read(
                    spotify,
                    user_id,
                    #[trigger] final(dest)@[old(dest)@.len() + k],
                    playlists@[k].0,
                    playlists@[k].1,
                )
        },
        res matches Err(e) ==> exists|k: int|
            0 <= k < playlists@.len() && final(dest)@.len() == old(dest)@.len() + k
                && #[trigger] tracks_failed(
                spotify,
                user_id,
                &playlists@[k].0.id,
                playlists@[k].1,
                e,
            ),
{
    let ghost before = dest@;
    let mut rest = playlists;
    let ghost mut done: int = 0;
    while rest.len() > 0
        invariant
            before == old(dest)@,
            0 <= done <= playlists@.len(),
            rest@ == playlists@.skip(done),
            dest@.len() == before.len() + done,
            before.is_prefix_of(dest@),
            forall|k: int|
                0 <= k < done ==> is_read(
                    spotify,
                    user_id,
                    #[trigger] dest@[before.len() + k],
                    playlists@[k].0,
                    playlists@[k].1,
                ),
        decreases rest.len(),
    {
        let (p, page) = rest.remove(0);
        assert(playlists@[done] == (p, page));
        let parsed_playlist = match read_playlist(user_id, spotify, &p, page) {
            Ok(read) => read,
            Err(e) => {
                assert(tracks_failed(spotify, user_id, &playlists@[done].0.id, playlists@[done].1, e));
                return Err(e);
            },
        };
        dest.push(parsed_playlist);
        proof {
            assert(rest@ =~= playlists@.skip(done + 1));
            done = done + 1;
        }
    }
    Ok(())
}

/// `answer` is what `spotify` may answer when it is asked for the playlist
/// `id`.
pub open spec fn answers_playlist<C: SpotifyClient>(
    spotify: &C,
    id: &PlaylistId,
    answer: Result<(Playlist, Page<Track>), QueueError>,
) -> bool {
    call_ensures(C::playlist, (spotify, id), answer)
}

/// Asks `spotify` for each of the playlists `playlist_ids`, in their order,
/// and comes back with its answers. The first playlist that `spotify` fails
/// on fails the whole, with that failure.
pub fn get_full_playlists<C: SpotifyClient>(spotify: &C, playlist_ids: Vec<PlaylistId>) -> (res:
    Result<Vec<(Playlist, Page<Track>)>, QueueError>)
    ensures
        match res {
            Ok(full) => full@.len() == playlist_ids@.len() && forall|i: int|
                0 <= i < full@.len() ==> answers_playlist(
                    spotify,
                    &playlist_ids@[i],
                    Ok(#[trigger] full@[i]),
                ),
            Err(e) => exists|i: int|
                0 <= i < playlist_ids@.len() && #[trigger] answers_playlist(
                    spotify,
                    &playlist_ids@[i],
                    Err(e),
                ),
        },
{
    let mut full: Vec<(Playlist, Page<Track>)> = Vec::new();
    let mut i: usize = 0;
    while i < playlist_ids.len()
        invariant
            i <= playlist_ids.len(),
            full@.len() == i,
            forall|k: int|
                0 <= k < full@.len() ==> answers_playlist(
                    spotify,
                    &playlist_ids@[k],
                    Ok(#[trigger] full@[k]),
                ),
        decreases playlist_ids.len() - i,
    {
        match spotify.playlist(&playlist_ids[i]) {
            Ok(playlist) => {
                full.push(playlist);
            },
            Err(e) => {
                assert(answers_playlist(spotify, &playlist_ids@[i as int], Err(e)));
                return Err(e);
            },
        }
        i += 1;
    }
    Ok(full)
}

/// `answer` is what `spotify` may answer when it is asked for a page of the
/// playlists of the user `user_id` from the entry `offset` on.
pub open spec fn answers_playlists<C: SpotifyClient>(
    spotify: &C,
    user_id: &str,
    offset: u32,
    answer: Result<Page<PlaylistId>, QueueError>,
) -> bool {
    call_ensures(C::playlists, (spotify, user_id, Some(PAGE_SIZE), Some(offset)), answer)
}

/// Page `i` of `pages` is one that `spotify` answered when it was asked for
/// the playlists from the entry `i * PAGE_SIZE` on, and it says that more
/// follows unless it is the last.
pub open spec fn playlists_page_listed<C: SpotifyClient>(
    spotify: &C,
    user_id: &str,
    pages: Seq<Page<PlaylistId>>,
    i: int,
) -> bool {
    &&& i * PAGE_SIZE <= u32::MAX
    &&& answers_playlists(spotify, user_id, (i * PAGE_SIZE) as u32, Ok(pages[i]))
    &&& i + 1 < pages.len() ==> pages[i].next is Some
}

/// `pages` are pages of the playlists of the user, read one after the other
/// from the start of the listing, `PAGE_SIZE` entries on each time.
pub open spec fn playlists_listed<C: SpotifyClient>(
    spotify: &C,
    user_id: &str,
    pages: Seq<Page<PlaylistId>>,
) -> bool {
    forall|i: int|
        0 <= i < pages.len() ==> #[trigger] playlists_page_listed(spotify, user_id, pages, i)
}

/// `done` is the playlist `id` as `spotify` has it, with its tracks read.
pub open spec fn playlist_backed_up<C: SpotifyClient>(
    spotify: &C,
    user_id: &str,
    id: PlaylistId,
    done: Playlist,
) -> bool {
    exists|full: (Playlist, Page<Track>)| #[trigger]
        answers_playlist(spotify, &id, Ok(full)) && is_read(
            spotify,
            user_id,
            done,
            full.0,
            full.1,
        )
}

/// The playlists `ids` are backed up in `playlists`, one for one.
pub open spec fn each_backed_up<C: SpotifyClient>(
    spotify: &C,
    user_id: &str,
    ids: Seq<PlaylistId>,
    playlists: Seq<Playlist>,
) -> bool {
    &&& playlists.len() == ids.len()
    &&& forall|j: int|
        0 <= j < playlists.len() ==> playlist_backed_up(
            spotify,
            user_id,
            ids[j],
            #[trigger] playlists[j],
        )
}

/// `playlists` are the playlists of the user as `spotify` lists them: one
/// for every entry of the pages of the listing, read to the page that says
/// that none follows, each with its tracks read.
pub open spec fn playlists_backed_up<C: SpotifyClient>(
    spotify: &C,
    user_id: &str,
    playlists: Seq<Playlist>,
) -> bool {
    exists|pages: Seq<Page<PlaylistId>>|
        pages.len() > 0 && #[trigger] playlists_listed(spotify, user_id, pages)
            && pages.last().next is None && each_backed_up(
            spotify,
            user_id,
            all_items(pages),
            playlists,
        )
}

/// The playlist `id` could not be backed up, with the failure `e`: `spotify`
/// has failed so when it was asked for the playlist, or the listing of the
/// tracks of the playlist has come to nothing so.
pub open spec fn playlist_failed<C: SpotifyClient>(
    spotify: &C,
    user_id: &str,
    id: PlaylistId,
    e: QueueError,
) -> bool {
    ||| answers_playlist(spotify, &id, Err(e))
    ||| exists|full: (Playlist, Page<Track>)| #[trigger]
        answers_playlist(spotify, &id, Ok(full)) && tracks_failed(
            spotify,
            user_id,
            &full.0.id,
            full.1,
            e,
        )
}

/// The backup of the playlists has come to nothing with the failure `e`
/// after the pages `pages` of their listing: `spotify` has failed so when it
/// was asked for the page after them, or a playlist of the last of them
/// could not be backed up, or the listing goes on past the range of offsets.
pub open spec fn playlists_failed<C: SpotifyClient>(
    spotify: &C,
    user_id: &str,
    pages: Seq<Page<PlaylistId>>,
    e: QueueError,
) -> bool {
    &&& playlists_listed(spotify, user_id, pages)
    &&& {
        ||| (pages.len() > 0 ==> pages.last().next is Some) && pages.len() * PAGE_SIZE
            <= u32::MAX && answers_playlists(
            spotify,
            user_id,
            (pages.len() * PAGE_SIZE) as u32,
            Err(e),
        )
        ||| pages.len() > 0 && exists|i: int|
            0 <= i < pages.last().items@.len() && #[trigger] playlist_failed(
                spotify,
                user_id,
                pages.last().items@[i],
                e,
            )
        ||| pages.len() > 0 && pages.last().next is Some && e is ListingStalled && pages.len()
            * PAGE_SIZE > u32::MAX
    }
}

/// All the playlists of the user `user_id`, each with all of its tracks,
/// read from `spotify` page by page from the start of the listing, in the
/// order of the listing. The first request that fails, and a listing that
/// does not advance, fail the whole. Every playlist that comes back counts
/// its tracks rightly.
pub fn backup_playlists<C: SpotifyClient>(user_id: &str, spotify: &C) -> (res: Result<
    Vec<Playlist>,
    QueueError,
>)
    ensures
        res matches Ok(parsed) ==> playlists_backed_up(spotify, user_id, parsed@),
        res matches Err(e) ==> exists|pages: Seq<Page<PlaylistId>>| #[trigger]
            playlists_failed(spotify, user_id, pages, e),
        res matches Ok(parsed) ==> forall|i: int|
            0 <= i < parsed@.len() ==> (#[trigger] parsed@[i]).track_count
                == parsed@[i].tracks@.len(),
{
    let mut parsed_playlists: Vec<Playlist> = Vec::new();
    let mut offset: u32 = 0;
    let ghost mut pages: Seq<Page<PlaylistId>> = Seq::empty();
    loop
        invariant
            playlists_listed(spotify, user_id, pages),
            pages.len() > 0 ==> pages.last().next is Some,
            offset == pages.len() * PAGE_SIZE,
            each_backed_up(spotify, user_id, all_items(pages), parsed_playlists@),
        decreases room(Some(offset)),
    {
        let ghost before = parsed_playlists@;
        let playlists = match spotify.playlists(user_id, Some(PAGE_SIZE), Some(offset)) {
            Ok(page) => page,
            Err(e) => {
                assert(playlists_failed(spotify, user_id, pages, e));
                return Err(e);
            },
        };
        let ghost page = playlists;
        let ghost read = pages.push(page);
        proof {
            lemma_all_items_push(pages, page);
            assert forall|i: int| 0 <= i < read.len() implies #[trigger] playlists_page_listed(
                spotify,
                user_id,
                read,
                i,
            ) by {
                if i < pages.len() {
                    assert(playlists_page_listed(spotify, user_id, pages, i));
                }
            }
        }
        let more = playlists.next.is_some();
        let full_playlists = match get_full_playlists(spotify, playlists.items) {
            Ok(full) => full,
            Err(e) => {
                proof {
                    let i = choose|i: int|
                        0 <= i < page.items@.len() && #[trigger] answers_playlist(
                            spotify,
                            &page.items@[i],
                            Err(e),
                        );
                    assert(playlist_failed(spotify, user_id, read.last().items@[i], e));
                    assert(playlists_failed(spotify, user_id, read, e));
                }
                return Err(e);
            },
        };
        let ghost full = full_playlists@;
        match extract_playlists(user_id, spotify, &mut parsed_playlists, full_playlists) {
            Ok(_) => {},
            Err(e) => {
                proof {
                    let k = choose|k: int|
                        0 <= k < full.len() && #[trigger] tracks_failed(
                            spotify,
                            user_id,
                            &full[k].0.id,
                            full[k].1,
                            e,
                        );
                    assert(answers_playlist(spotify, &page.items@[k], Ok(full[k])));
                    assert(playlist_failed(spotify, user_id, read.last().items@[k], e));
                    assert(playlists_failed(spotify, user_id, read, e));
                }
                return Err(e);
            },
        }
        proof {
            assert forall|j: int| 0 <= j < parsed_playlists@.len() implies playlist_backed_up(
                spotify,
                user_id,
                all_items(read)[j],
                #[trigger] parsed_playlists@[j],
            ) by {
                if j < before.len() {
                    assert(parsed_playlists@[j] == before[j]);
                } else {
                    let k = j - before.len();
                    assert(parsed_playlists@[before.len() + k] == parsed_playlists@[j]);
                    assert(answers_playlist(spotify, &page.items@[k], Ok(full[k])));
                }
            }
        }
        match next_start(more, offset, PAGE_SIZE, Some(offset)) {
            Err(e) => {
                assert(playlists_failed(spotify, user_id, read, e));
                return Err(e);
            },
            Ok(Some(next)) => {
                proof {
                    pages = read;
                }
                offset = next;
            },
            Ok(None) => {
                proof {
                    assert(playlists_listed(spotify, user_id, read) && read.last().next is None);
                    assert forall|i: int| 0 <= i < parsed_playlists@.len() implies (
                    #[trigger] parsed_playlists@[i]).track_count
                        == parsed_playlists@[i].tracks@.len() by {
                        assert(playlist_backed_up(
                            spotify,
                            user_id,
                            all_items(read)[i],
                            parsed_playlists@[i],
                        ));
                    }
                }
                return Ok(parsed_playlists);
            },
        }
    }
}

} // verus!
