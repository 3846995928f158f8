//! The library listing: the flat rows that the database returns, gathered
//! into artists, their albums, and each album's tracks.
//!
//! The rows come ordered so that the tracks of one album, and the albums of
//! one artist, stand next to each other. Gathering keeps the rows' order and
//! starts a new artist wherever the artist id changes, and a new album
//! wherever the artist or the album id changes.

use vstd::prelude::*;

verus! {

/// One row of the listing query: a track with its album and artist.
#[derive(Debug)]
pub struct ListingRow {
    pub artist: String,
    pub album: String,
    pub track: String,
    /// The artist's id.
    pub ar_id: i64,
    /// The album's id.
    pub al_id: i64,
}

/// A track in the listing.
#[derive(Debug)]
pub struct Track {
    pub title: String,
}

/// An album in the listing, with its tracks in row order.
#[derive(Debug)]
pub struct Album {
    pub title: String,
    pub tracks: Vec<Track>,
}

/// An artist in the listing, with the albums in row order.
#[derive(Debug)]
pub struct Artist {
    pub title: String,
    pub albums: Vec<Album>,
}

/// A [`ListingRow`] as plain values.
pub struct RowView {
    pub artist: Seq<char>,
    pub album: Seq<char>,
    pub track: Seq<char>,
    pub ar_id: i64,
    pub al_id: i64,
}

/// An [`Album`] as plain values: its title and its tracks' titles.
pub struct AlbumView {
    pub title: Seq<char>,
    pub tracks: Seq<Seq<char>>,
}

/// An [`Artist`] as plain values.
pub struct ArtistView {
    pub title: Seq<char>,
    pub albums: Seq<AlbumView>,
}

impl View for ListingRow {
    type V = RowView;

    open spec fn view(&self) -> RowView {
        RowView {
            artist: self.artist@,
            album: self.album@,
            track: self.track@,
            ar_id: self.ar_id,
            al_id: self.al_id,
        }
    }
}

impl View for Track {
    type V = Seq<char>;

    open spec fn view(&self) -> Seq<char> {
        self.title@
    }
}

impl View for Album {
    type V = AlbumView;

    open spec fn view(&self) -> AlbumView {
        AlbumView { title: self.title@, tracks: self.tracks@.map_values(|t: Track| t@) }
    }
}

impl View for Artist {
    type V = ArtistView;

    open spec fn view(&self) -> ArtistView {
        ArtistView { title: self.title@, albums: self.albums@.map_values(|a: Album| a@) }
    }
}

/// The plain values of a list of rows.
pub open spec fn row_views(rows: Seq<ListingRow>) -> Seq<RowView> {
    rows.map_values(|r: ListingRow| r@)
}

/// The plain values of a list of artists.
pub open spec fn artist_views(artists: Seq<Artist>) -> Seq<ArtistView> {
    artists.map_values(|a: Artist| a@)
}

/// The row at place `i` goes on with the artist of the row before it.
pub open spec fn same_artist(rows: Seq<RowView>, i: int) -> bool {
    0 < i < rows.len() && rows[i].ar_id == rows[i - 1].ar_id
}

/// The row at place `i` goes on with the album of the row before it.
pub open spec fn same_album(rows: Seq<RowView>, i: int) -> bool {
    same_artist(rows, i) && rows[i].al_id == rows[i - 1].al_id
}

/// The album that a row starts.
pub open spec fn album_of(row: RowView) -> AlbumView {
    AlbumView { title: row.album, tracks: seq![row.track] }
}

/// The artist that a row starts.
pub open spec fn artist_of(row: RowView) -> ArtistView {
    ArtistView { title: row.artist, albums: seq![album_of(row)] }
}

/// `artist` with one more album at the end.
pub open spec fn with_album(artist: ArtistView, album: AlbumView) -> ArtistView {
    ArtistView { albums: artist.albums.push(album), ..artist }
}

/// `artist` with one more track at the end of its last album.
pub open spec fn with_track(artist: ArtistView, track: Seq<char>) -> ArtistView {
    let last = artist.albums.last();
    ArtistView {
        albums: artist.albums.drop_last().push(
            AlbumView { tracks: last.tracks.push(track), ..last },
        ),
        ..artist
    }
}

/// The listing of `rows`: what is gathered from all rows but the last, and
/// then the last row as a track of the last album, or as a new album of the
/// last artist, or as a new artist, according to what it shares with the row
/// before it.
pub open spec fn gathered(rows: Seq<RowView>) -> Seq<ArtistView>
    decreases rows.len(),
{
    if rows.len() == 0 {
        Seq::empty()
    } else {
        let before = gathered(rows.drop_last());
        let row = rows.last();
        let i = rows.len() - 1;
        if same_album(rows, i) {
            before.drop_last().push(with_track(before.last(), row.track))
        } else if same_artist(rows, i) {
            before.drop_last().push(with_album(before.last(), album_of(row)))
        } else {
            before.push(artist_of(row))
        }
    }
}

/// The track titles of `albums`, one after the other.
pub open spec fn album_tracks(albums: Seq<AlbumView>) -> Seq<Seq<char>>
    decreases albums.len(),
{
    if albums.len() == 0 {
        Seq::empty()
    } else {
        album_tracks(albums.drop_last()) + albums.last().tracks
    }
}

/// The track titles of `artists`, one after the other.
pub open spec fn listed_tracks(artists: Seq<ArtistView>) -> Seq<Seq<char>>
    decreases artists.len(),
{
    if artists.len() == 0 {
        Seq::empty()
    } else {
        listed_tracks(artists.drop_last()) + album_tracks(artists.last().albums)
    }
}

/// No artist is without an album and no album without a track.
pub open spec fn nothing_empty(artists: Seq<ArtistView>) -> bool {
    forall|i: int|
        0 <= i < artists.len() ==> (#[trigger] artists[i]).albums.len() > 0 && forall|j: int|
            0 <= j < artists[i].albums.len() ==> (#[trigger] artists[i].albums[j]).tracks.len()
                > 0
}

/// The listing has every row's track once, in the rows' order, and nothing
/// in it is empty.
pub proof fn lemma_gathered_keeps_tracks(rows: Seq<RowView>)
    ensures
        listed_tracks(gathered(rows)) == rows.map_values(|r: RowView| r.track),
        nothing_empty(gathered(rows)),
        rows.len() > 0 ==> gathered(rows).len() > 0,
    decreases rows.len(),
{
    let want = rows.map_values(|r: RowView| r.track);
    if rows.len() == 0 {
        assert(listed_tracks(gathered(rows)) =~= want);
    } else {
        let front = rows.drop_last();
        lemma_gathered_keeps_tracks(front);
        let before = gathered(front);
        let row = rows.last();
        let i = rows.len() - 1;
        let had = front.map_values(|r: RowView| r.track);
        assert(want =~= had.push(row.track));
        let all = gathered(rows);
        if same_artist(rows, i) {
            let artist = before.last();
            let grown = all.last();
            assert(all.drop_last() =~= before.drop_last());
            if same_album(rows, i) {
                let last = artist.albums.last();
                let more = AlbumView { tracks: last.tracks.push(row.track), ..last };
                assert(grown.albums.drop_last() =~= artist.albums.drop_last());
                assert(grown.albums.last() == more);
                assert(album_tracks(grown.albums) =~= album_tracks(artist.albums).push(row.track));
            } else {
                assert(grown.albums.drop_last() =~= artist.albums);
                assert(album_tracks(grown.albums) =~= album_tracks(artist.albums).push(row.track));
            }
            assert(listed_tracks(all) =~= listed_tracks(before).push(row.track));
            assert forall|a: int| 0 <= a < all.len() implies (#[trigger] all[a]).albums.len() > 0
                && forall|j: int|
                0 <= j < all[a].albums.len() ==> (#[trigger] all[a].albums[j]).tracks.len()
                    > 0 by {
                if a < all.len() - 1 {
                    assert(all[a] == before[a]);
                } else {
                    assert forall|j: int| 0 <= j < all[a].albums.len() implies (
                    #[trigger] all[a].albums[j]).tracks.len() > 0 by {
                        if j < artist.albums.len() - 1 || (j < artist.albums.len() && !same_album(
                            rows,
                            i,
                        )) {
                            assert(all[a].albums[j] == artist.albums[j]);
                        }
                    }
                }
            }
        } else {
            assert(all.drop_last() =~= before);
            assert(album_tracks(artist_of(row).albums) =~= seq![row.track]) by {
                assert(artist_of(row).albums.drop_last() =~= Seq::<AlbumView>::empty());
                assert(album_tracks(Seq::<AlbumView>::empty()) =~= Seq::<Seq<char>>::empty());
            }
            assert(listed_tracks(all) =~= listed_tracks(before).push(row.track));
            assert forall|a: int| 0 <= a < all.len() implies (#[trigger] all[a]).albums.len() > 0
                && forall|j: int|
                0 <= j < all[a].albums.len() ==> (#[trigger] all[a].albums[j]).tracks.len()
                    > 0 by {
                if a < all.len() - 1 {
                    assert(all[a] == before[a]);
                }
            }
        }
    }
}

/// The artists gathered so far, with the artist and album that are still
/// open put at the end.
spec fn closed_up(
    artists: Seq<Artist>,
    artist: Seq<char>,
    albums: Seq<Album>,
    album: Seq<char>,
    tracks: Seq<Track>,
) -> Seq<ArtistView> {
    artist_views(artists).push(
        ArtistView {
            title: artist,
            albums: albums.map_values(|a: Album| a@).push(
                AlbumView { title: album, tracks: tracks.map_values(|t: Track| t@) },
            ),
        },
    )
}

/// Gathers the rows of the listing query into artists, albums and tracks.
pub fn gather_listing(rows: &Vec<ListingRow>) -> (artists: Vec<Artist>)
    ensures
        artist_views(artists@) == gathered(row_views(rows@)),
{
    let ghost all = row_views(rows@);
    let mut artists: Vec<Artist> = Vec::new();
    if rows.len() == 0 {
        assert(artist_views(artists@) =~= gathered(all));
        return artists;
    }
    let mut albums: Vec<Album> = Vec::new();
    let mut tracks: Vec<Track> = Vec::new();
    let mut artist_title = rows[0].artist.clone();
    let mut album_title = rows[0].album.clone();
    tracks.push(Track { title: rows[0].track.clone() });
    proof {
        let one = all.take(1);
        assert(one.drop_last() =~= Seq::<RowView>::empty());
        assert(gathered(one.drop_last()) =~= Seq::<ArtistView>::empty());
        assert(one.last() == rows@[0]@);
        assert(closed_up(artists@, artist_title@, albums@, album_title@, tracks@) =~= gathered(
            one,
        )) by {
            assert(albums@.map_values(|a: Album| a@) =~= Seq::<AlbumView>::empty());
            assert(tracks@.map_values(|t: Track| t@) =~= seq![rows@[0].track@]);
            assert(Seq::<AlbumView>::empty().push(album_of(one.last())) =~= seq![
                album_of(one.last()),
            ]);
            assert(artist_views(artists@) =~= Seq::<ArtistView>::empty());
        }
    }
    let mut i: usize = 1;
    while i < rows.len()
        invariant
            1 <= i <= rows.len(),
            all == row_views(rows@),
            closed_up(artists@, artist_title@, albums@, album_title@, tracks@) == gathered(
                all.take(i as int),
            ),
        decreases rows.len() - i,
    {
        let row = &rows[i];
        let prev = &rows[i - 1];
        let ghost seen = all.take(i as int);
        let ghost more = all.take(i + 1);
        let ghost before = gathered(seen);
        let ghost old_albums = albums@.map_values(|a: Album| a@);
        let ghost old_tracks = tracks@.map_values(|t: Track| t@);
        let ghost open_artist = ArtistView {
            title: artist_title@,
            albums: old_albums.push(AlbumView { title: album_title@, tracks: old_tracks }),
        };
        proof {
            assert(more.drop_last() =~= seen);
            assert(more.last() == row@);
            assert(more[i - 1] == prev@);
            assert(before.last() == open_artist);
            assert(before.drop_last() =~= artist_views(artists@));
        }
        if row.ar_id != prev.ar_id {
            albums.push(Album { title: album_title, tracks });
            artists.push(Artist { title: artist_title, albums });
            albums = Vec::new();
            tracks = Vec::new();
            artist_title = row.artist.clone();
            album_title = row.album.clone();
            tracks.push(Track { title: row.track.clone() });
            proof {
                assert(artists@.last()@ == open_artist) by {
                    assert(artists@.last()@.albums =~= open_artist.albums);
                }
                assert(artist_views(artists@) =~= before);
                assert(albums@.map_values(|a: Album| a@) =~= Seq::<AlbumView>::empty());
                assert(tracks@.map_values(|t: Track| t@) =~= seq![row.track@]);
                assert(Seq::<AlbumView>::empty().push(album_of(row@)) =~= seq![album_of(row@)]);
            }
        } else if row.al_id != prev.al_id {
            albums.push(Album { title: album_title, tracks });
            tracks = Vec::new();
            album_title = row.album.clone();
            tracks.push(Track { title: row.track.clone() });
            proof {
                assert(albums@.map_values(|a: Album| a@) =~= open_artist.albums);
                assert(tracks@.map_values(|t: Track| t@) =~= seq![row.track@]);
            }
        } else {
            tracks.push(Track { title: row.track.clone() });
            proof {
                assert(tracks@.map_values(|t: Track| t@) =~= old_tracks.push(row.track@));
                assert(open_artist.albums.drop_last() =~= old_albums);
            }
        }
        proof {
            assert(closed_up(artists@, artist_title@, albums@, album_title@, tracks@) =~= gathered(
                more,
            ));
        }
        i = i + 1;
    }
    albums.push(Album { title: album_title, tracks });
    artists.push(Artist { title: artist_title, albums });
    proof {
        assert(all.take(rows.len() as int) =~= all);
        let closed = gathered(all);
        assert(artists@.last()@.albums =~= closed.last().albums);
        assert(artist_views(artists@) =~= closed);
    }
    artists
}

} // verus!
