//! The catalogue as the database holds it, as a mathematical model, and what
//! the committer does to it.
//!
//! [`commit_drive`] plays the part of the database and of whoever drives the
//! committer: it applies each insert to the model and answers with the id
//! that the database gave the row.

use crate::committer::{track_title, CatalogReply, CatalogRequestView, CommitterView};
use crate::tags::TagFieldsView;
use vstd::prelude::*;

verus! {

/// One row of the track table.
pub struct TrackRow {
    pub title: Seq<char>,
    /// The folder that the track is in (`None`: the root).
    pub dir: Option<i64>,
    pub fname: Seq<char>,
}

/// Albums, artists, tracks and their joins in one user's library.
pub struct Catalog {
    /// The name of each album id.
    pub albums: Map<i64, Seq<char>>,
    /// The name of each artist id.
    pub artists: Map<i64, Seq<char>>,
    /// The row of each track id.
    pub tracks: Map<i64, TrackRow>,
    /// Joins of a track (first) and an artist (second).
    pub track_artists: Set<(i64, i64)>,
    /// Joins of a track (first) and an album (second).
    pub track_albums: Set<(i64, i64)>,
}

impl Catalog {
    /// The catalogue after `request` is carried out, where `id` is the id
    /// that the database gives to a row that `request` inserts.
    pub open spec fn apply(self, request: CatalogRequestView, id: i64) -> Catalog {
        match request {
            CatalogRequestView::CreateAlbum { name } => Catalog {
                albums: self.albums.insert(id, name),
                ..self
            },
            CatalogRequestView::CreateArtist { name } => Catalog {
                artists: self.artists.insert(id, name),
                ..self
            },
            CatalogRequestView::CreateTrack { title, dir, fname } => Catalog {
                tracks: self.tracks.insert(id, TrackRow { title, dir, fname }),
                ..self
            },
            CatalogRequestView::LinkArtist { track, artist } => Catalog {
                track_artists: self.track_artists.insert((track, artist)),
                ..self
            },
            CatalogRequestView::LinkAlbum { track, album } => Catalog {
                track_albums: self.track_albums.insert((track, album)),
                ..self
            },
            CatalogRequestView::Done { track } => self,
        }
    }
}

/// Runs the committer to its end against `catalog`: each insert is applied
/// to it, and each new row gets the next of `ids`. Gives the catalogue
/// afterwards and the track id that the committer names.
pub open spec fn commit_drive(c: CommitterView, catalog: Catalog, ids: Seq<i64>) -> (Catalog, i64)
    decreases c.steps_left(),
{
    match c.request() {
        CatalogRequestView::Done { track } => (catalog, track),
        CatalogRequestView::LinkArtist { .. } | CatalogRequestView::LinkAlbum { .. } => commit_drive(
            c.answer(CatalogReply::Linked),
            catalog.apply(c.request(), 0),
            ids,
        ),
        _ => commit_drive(
            c.answer(CatalogReply::Created(ids[0])),
            catalog.apply(c.request(), ids[0]),
            ids.drop_first(),
        ),
    }
}

/// How many rows the committer inserts before the track row: one for each of
/// album and artist that the tags name.
pub open spec fn rows_before_track(tags: TagFieldsView) -> int {
    (if tags.album is Some {
        1int
    } else {
        0int
    }) + (if tags.artist is Some {
        1int
    } else {
        0int
    })
}

/// What the committer adds for one file: the track row, titled by the tags
/// or else by the file name; an album row and its join exactly when the tags
/// name an album; an artist row and its join exactly when they name an
/// artist; and nothing else.
pub proof fn lemma_commit(
    tags: TagFieldsView,
    fname: Seq<char>,
    dir: Option<i64>,
    catalog: Catalog,
    ids: Seq<i64>,
)
    requires
        ids.len() >= 3,
    ensures
        ({
            let (after, track) = commit_drive(CommitterView::start(tags, fname, dir), catalog, ids);
            let album_id = ids[0];
            let artist_id = if tags.album is Some {
                ids[1]
            } else {
                ids[0]
            };
            &&& track == ids[rows_before_track(tags)]
            &&& after.tracks == catalog.tracks.insert(
                track,
                TrackRow { title: track_title(tags, fname), dir, fname },
            )
            &&& after.albums == match tags.album {
                Some(name) => catalog.albums.insert(album_id, name),
                None => catalog.albums,
            }
            &&& after.track_albums == match tags.album {
                Some(_) => catalog.track_albums.insert((track, album_id)),
                None => catalog.track_albums,
            }
            &&& after.artists == match tags.artist {
                Some(name) => catalog.artists.insert(artist_id, name),
                None => catalog.artists,
            }
            &&& after.track_artists == match tags.artist {
                Some(_) => catalog.track_artists.insert((track, artist_id)),
                None => catalog.track_artists,
            }
        }),
{
    reveal_with_fuel(commit_drive, 6);
    let c0 = CommitterView::start(tags, fname, dir);
    let rest = ids.drop_first();
    assert(rest[0] == ids[1]);
    assert(rest.drop_first()[0] == ids[2]);
}

/// A file without tags adds its track row, titled by the file name, and no
/// album, artist or join row.
pub proof fn lemma_commit_untagged(
    fname: Seq<char>,
    dir: Option<i64>,
    catalog: Catalog,
    ids: Seq<i64>,
)
    requires
        ids.len() >= 1,
    ensures
        ({
            let (after, track) = commit_drive(
                CommitterView::start(TagFieldsView::none(), fname, dir),
                catalog,
                ids,
            );
            &&& track == ids[0]
            &&& after == Catalog {
                tracks: catalog.tracks.insert(track, TrackRow { title: fname, dir, fname }),
                ..catalog
            }
        }),
{
    reveal_with_fuel(commit_drive, 3);
}

} // verus!
