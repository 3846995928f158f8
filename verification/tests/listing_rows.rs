use reamio::listing::{gather_listing, Artist, ListingRow};

fn row(ar_id: i64, artist: &str, al_id: i64, album: &str, track: &str) -> ListingRow {
    ListingRow {
        artist: artist.to_string(),
        album: album.to_string(),
        track: track.to_string(),
        ar_id,
        al_id,
    }
}

/// The listing as nested lists of titles.
fn titles(artists: &[Artist]) -> Vec<(String, Vec<(String, Vec<String>)>)> {
    artists
        .iter()
        .map(|a| {
            let albums = a
                .albums
                .iter()
                .map(|al| (al.title.clone(), al.tracks.iter().map(|t| t.title.clone()).collect()))
                .collect();
            (a.title.clone(), albums)
        })
        .collect()
}

fn t(s: &[&str]) -> Vec<String> {
    s.iter().map(|x| x.to_string()).collect()
}

#[test]
fn no_rows_give_no_artists() {
    assert!(gather_listing(&Vec::new()).is_empty());
}

#[test]
fn one_row_gives_one_artist_with_one_album_and_one_track() {
    let listing = gather_listing(&vec![row(1, "Band", 10, "LP", "Song")]);
    assert_eq!(
        titles(&listing),
        vec![("Band".to_string(), vec![("LP".to_string(), t(&["Song"]))])]
    );
}

#[test]
fn rows_are_gathered_by_artist_and_album_in_row_order() {
    let rows = vec![
        row(1, "Band", 10, "LP", "a"),
        row(1, "Band", 10, "LP", "b"),
        row(1, "Band", 11, "EP", "c"),
        row(2, "Solo", 12, "Demo", "d"),
        row(2, "Solo", 12, "Demo", "e"),
        row(3, "Trio", 13, "Live", "f"),
    ];
    assert_eq!(
        titles(&gather_listing(&rows)),
        vec![
            (
                "Band".to_string(),
                vec![("LP".to_string(), t(&["a", "b"])), ("EP".to_string(), t(&["c"]))]
            ),
            ("Solo".to_string(), vec![("Demo".to_string(), t(&["d", "e"]))]),
            ("Trio".to_string(), vec![("Live".to_string(), t(&["f"]))]),
        ]
    );
}

#[test]
fn new_artist_starts_a_new_album_even_with_the_same_album_id() {
    let rows = vec![row(1, "Band", 10, "Split", "a"), row(2, "Solo", 10, "Split", "b")];
    assert_eq!(
        titles(&gather_listing(&rows)),
        vec![
            ("Band".to_string(), vec![("Split".to_string(), t(&["a"]))]),
            ("Solo".to_string(), vec![("Split".to_string(), t(&["b"]))]),
        ]
    );
}

#[test]
fn groups_go_by_id_not_by_name() {
    let rows = vec![
        row(1, "Band", 10, "LP", "a"),
        row(2, "Band", 11, "LP", "b"),
        row(2, "Renamed", 11, "Other", "c"),
    ];
    assert_eq!(
        titles(&gather_listing(&rows)),
        vec![
            ("Band".to_string(), vec![("LP".to_string(), t(&["a"]))]),
            ("Band".to_string(), vec![("LP".to_string(), t(&["b", "c"]))]),
        ]
    );
}

#[test]
fn artist_that_comes_back_later_is_listed_again() {
    let rows = vec![
        row(1, "Band", 10, "LP", "a"),
        row(2, "Solo", 11, "EP", "b"),
        row(1, "Band", 10, "LP", "c"),
    ];
    let listing = gather_listing(&rows);
    assert_eq!(listing.len(), 3);
    assert_eq!(listing[2].title, "Band");
    assert_eq!(listing[2].albums[0].tracks[0].title, "c");
}

#[test]
fn every_track_is_listed_once_in_row_order() {
    let mut rows = Vec::new();
    for i in 0..40i64 {
        rows.push(row(i / 7, "artist", i / 3, "album", &format!("track {i}")));
    }
    let listing = gather_listing(&rows);
    let listed: Vec<String> = listing
        .iter()
        .flat_map(|a| a.albums.iter())
        .flat_map(|al| al.tracks.iter())
        .map(|t| t.title.clone())
        .collect();
    let wanted: Vec<String> = (0..40).map(|i| format!("track {i}")).collect();
    assert_eq!(listed, wanted);
    assert!(listing.iter().all(|a| !a.albums.is_empty()));
    assert!(listing.iter().all(|a| a.albums.iter().all(|al| !al.tracks.is_empty())));
    assert_eq!(listing.len(), 6);
}
