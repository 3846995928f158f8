use reamio::committer::{CatalogReply, CatalogRequest, TrackCommitter};
use reamio::error::ReamioProcessingErrorInternal;
use reamio::ingest::{ItemJob, ItemReply, ItemRequest, PendingUpload};
use reamio::resolver::{DirReply, DirRequest, DirectoryResolver};
use reamio::tags::TagFields;

/// A database in memory with the tables that an item touches.
#[derive(Default)]
struct FakeDb {
    dir: Vec<(i64, String)>,
    dir_tree: Vec<(i64, Option<i64>)>,
    album: Vec<(i64, String)>,
    artist: Vec<(i64, String)>,
    track: Vec<(i64, String, Option<i64>, String)>,
    artist_tracks: Vec<(i64, i64)>,
    album_tracks: Vec<(i64, i64)>,
    moves: Vec<(String, String)>,
    begun: usize,
    commits: usize,
    writes: usize,
}

impl FakeDb {
    fn directory(&mut self, request: DirRequest) -> DirReply {
        match request {
            DirRequest::Find { parent, name } => {
                let found = self.dir_tree.iter().find_map(|(node, p)| {
                    let named = self.dir.iter().any(|(n, s)| n == node && *s == name);
                    if *p == parent && named {
                        Some(*node)
                    } else {
                        None
                    }
                });
                DirReply::Found(found)
            }
            DirRequest::Create { name } => {
                self.writes += 1;
                let node = 100 + self.dir.len() as i64;
                self.dir.push((node, name));
                DirReply::Created(node)
            }
            DirRequest::Link { node, parent } => {
                self.writes += 1;
                self.dir_tree.push((node, parent));
                DirReply::Linked
            }
            DirRequest::Done { .. } => panic!("nothing is asked once the resolver is done"),
        }
    }

    fn catalog(&mut self, request: CatalogRequest) -> CatalogReply {
        self.writes += 1;
        match request {
            CatalogRequest::CreateAlbum { name } => {
                let id = 200 + self.album.len() as i64;
                self.album.push((id, name));
                CatalogReply::Created(id)
            }
            CatalogRequest::CreateArtist { name } => {
                let id = 300 + self.artist.len() as i64;
                self.artist.push((id, name));
                CatalogReply::Created(id)
            }
            CatalogRequest::CreateTrack { title, dir, fname } => {
                let id = 400 + self.track.len() as i64;
                self.track.push((id, title, dir, fname));
                CatalogReply::Created(id)
            }
            CatalogRequest::LinkArtist { track, artist } => {
                self.artist_tracks.push((track, artist));
                CatalogReply::Linked
            }
            CatalogRequest::LinkAlbum { track, album } => {
                self.album_tracks.push((track, album));
                CatalogReply::Linked
            }
            CatalogRequest::Done { .. } => panic!("nothing is asked once the committer is done"),
        }
    }

    fn resolve(&mut self, names: &[&str]) -> Option<i64> {
        let mut resolver = DirectoryResolver::new(names.iter().map(|s| s.to_string()).collect());
        loop {
            match resolver.request() {
                DirRequest::Done { leaf } => return leaf,
                request => {
                    let reply = self.directory(request);
                    resolver.answer(reply);
                }
            }
        }
    }

    fn commit(&mut self, tags: TagFields, fname: &str, dir: Option<i64>) -> i64 {
        let mut committer = TrackCommitter::new(tags, fname.to_string(), dir);
        loop {
            match committer.request() {
                CatalogRequest::Done { track } => return track,
                request => {
                    let reply = self.catalog(request);
                    committer.answer(reply);
                }
            }
        }
    }

    fn ingest(&mut self, fid: i64, user: &str, path: &str, tags: TagFields) -> i64 {
        self.run(fid, user, path, tags).unwrap()
    }

    fn run(
        &mut self,
        fid: i64,
        user: &str,
        path: &str,
        tags: TagFields,
    ) -> Result<i64, ReamioProcessingErrorInternal> {
        let upload = PendingUpload { fid, user: user.to_string(), path: path.to_string() };
        let mut tags = Some(tags);
        let mut job = ItemJob::new(upload);
        let begun = self.begun;
        let commits = self.commits;
        loop {
            let reply = match job.request() {
                ItemRequest::Begin => {
                    self.begun += 1;
                    ItemReply::Began
                }
                ItemRequest::ReadTags { path } => {
                    assert_eq!(path, format!("./devdir/temp/{fid}"));
                    ItemReply::Tags(tags.take().expect("tags are read once"))
                }
                ItemRequest::Directory(request) => ItemReply::Directory(self.directory(request)),
                ItemRequest::Catalog(request) => ItemReply::Catalog(self.catalog(request)),
                ItemRequest::MoveFile { from, to } => {
                    assert_eq!(self.commits, commits, "the file moves before the commit");
                    self.moves.push((from, to));
                    ItemReply::Moved
                }
                ItemRequest::Commit => {
                    self.commits += 1;
                    ItemReply::Committed
                }
                ItemRequest::Abandon | ItemRequest::Finished { .. } => {
                    assert_eq!(self.begun, begun + 1, "one transaction per item");
                    return job.into_result().expect("the item has ended");
                }
            };
            job = job.answer(reply);
        }
    }

    fn nodes_named(&self, name: &str) -> Vec<i64> {
        self.dir.iter().filter(|(_, n)| n == name).map(|(id, _)| *id).collect()
    }
}

fn tags(title: Option<&str>, artist: Option<&str>, album: Option<&str>) -> TagFields {
    TagFields {
        title: title.map(str::to_string),
        artist: artist.map(str::to_string),
        album: album.map(str::to_string),
    }
}

#[test]
fn resolving_twice_gives_the_same_leaf_and_one_node_per_folder() {
    let mut db = FakeDb::default();
    let first = db.resolve(&["A", "B", "C"]);
    assert_eq!(db.dir.len(), 3);
    assert_eq!(db.dir_tree.len(), 3);
    let second = db.resolve(&["A", "B", "C"]);
    assert_eq!(first, second);
    assert_eq!(first, Some(102));
    assert_eq!(db.dir.len(), 3);
    assert_eq!(db.dir_tree, vec![(100, None), (101, Some(100)), (102, Some(101))]);
}

#[test]
fn resolving_no_folders_asks_nothing_and_stays_at_the_root() {
    let mut db = FakeDb::default();
    assert_eq!(db.resolve(&[]), None);
    assert_eq!(db.writes, 0);
    assert!(db.dir.is_empty());
}

#[test]
fn existing_prefix_is_reused_and_only_the_rest_is_made() {
    let mut db = FakeDb::default();
    db.resolve(&["A", "B"]);
    let leaf = db.resolve(&["A", "B", "C", "D"]);
    assert_eq!(leaf, Some(103));
    assert_eq!(db.dir.len(), 4);
    assert_eq!(db.nodes_named("A").len(), 1);
    assert_eq!(db.nodes_named("B").len(), 1);
}

#[test]
fn same_name_under_different_parents_makes_different_nodes() {
    let mut db = FakeDb::default();
    let inner = db.resolve(&["A", "A"]);
    assert_eq!(inner, Some(101));
    assert_eq!(db.dir_tree, vec![(100, None), (101, Some(100))]);
    let other = db.resolve(&["B", "A"]);
    assert_eq!(other, Some(103));
    assert_eq!(db.nodes_named("A").len(), 3);
}

#[test]
fn resolver_asks_find_then_create_then_link() {
    let mut resolver = DirectoryResolver::new(vec!["Rock".to_string()]);
    match resolver.request() {
        DirRequest::Find { parent: None, name } => assert_eq!(name, "Rock"),
        other => panic!("unexpected {other:?}"),
    }
    resolver.answer(DirReply::Found(None));
    match resolver.request() {
        DirRequest::Create { name } => assert_eq!(name, "Rock"),
        other => panic!("unexpected {other:?}"),
    }
    resolver.answer(DirReply::Created(9));
    match resolver.request() {
        DirRequest::Link { node: 9, parent: None } => {}
        other => panic!("unexpected {other:?}"),
    }
    assert!(!resolver.is_done());
    resolver.answer(DirReply::Linked);
    assert!(resolver.is_done());
    match resolver.request() {
        DirRequest::Done { leaf: Some(9) } => {}
        other => panic!("unexpected {other:?}"),
    }
}

#[test]
fn resolver_ignores_a_reply_of_the_wrong_kind() {
    let mut resolver = DirectoryResolver::new(vec!["Rock".to_string()]);
    resolver.answer(DirReply::Linked);
    resolver.answer(DirReply::Created(5));
    match resolver.request() {
        DirRequest::Find { parent: None, name } => assert_eq!(name, "Rock"),
        other => panic!("unexpected {other:?}"),
    }
    resolver.answer(DirReply::Found(Some(3)));
    resolver.answer(DirReply::Found(Some(4)));
    match resolver.request() {
        DirRequest::Done { leaf: Some(3) } => {}
        other => panic!("unexpected {other:?}"),
    }
}

#[test]
fn tagged_file_gets_track_artist_album_and_both_joins() {
    let mut db = FakeDb::default();
    let track = db.ingest(5, "ann", "/A/song.mp3", tags(Some("Song"), Some("Band"), Some("LP")));
    assert_eq!(db.track, vec![(track, "Song".to_string(), Some(100), "song.mp3".to_string())]);
    assert_eq!(db.artist, vec![(300, "Band".to_string())]);
    assert_eq!(db.album, vec![(200, "LP".to_string())]);
    assert_eq!(db.artist_tracks, vec![(track, 300)]);
    assert_eq!(db.album_tracks, vec![(track, 200)]);
}

#[test]
fn untagged_file_is_titled_by_its_trimmed_filename_and_joins_nothing() {
    let mut db = FakeDb::default();
    let track = db.ingest(6, "ann", "/A/  noise.bin ", tags(None, None, None));
    assert_eq!(db.track, vec![(track, "noise.bin".to_string(), Some(100), "noise.bin".to_string())]);
    assert!(db.artist.is_empty());
    assert!(db.album.is_empty());
    assert!(db.artist_tracks.is_empty());
    assert!(db.album_tracks.is_empty());
}

#[test]
fn file_at_the_root_has_no_directory() {
    let mut db = FakeDb::default();
    let track = db.ingest(7, "ann", "/x.mp3", tags(Some("X"), None, None));
    assert_eq!(db.track, vec![(track, "X".to_string(), None, "x.mp3".to_string())]);
    assert!(db.dir.is_empty());
}

#[test]
fn two_uploads_to_one_folder_share_its_nodes() {
    let mut db = FakeDb::default();
    let x = db.ingest(1, "ann", "/A/B/x.mp3", tags(None, None, None));
    let y = db.ingest(2, "ann", "/A/B/y.mp3", tags(None, None, None));
    assert_eq!(db.nodes_named("A"), vec![100]);
    assert_eq!(db.nodes_named("B"), vec![101]);
    assert_eq!(db.dir.len(), 2);
    assert_eq!(
        db.track,
        vec![
            (x, "x.mp3".to_string(), Some(101), "x.mp3".to_string()),
            (y, "y.mp3".to_string(), Some(101), "y.mp3".to_string()),
        ]
    );
}

#[test]
fn two_uploads_share_nodes_in_either_order() {
    let mut db = FakeDb::default();
    db.ingest(2, "ann", "/A/B/y.mp3", tags(None, None, None));
    db.ingest(1, "ann", "/A/B/x.mp3", tags(None, None, None));
    assert_eq!(db.nodes_named("A").len(), 1);
    assert_eq!(db.nodes_named("B").len(), 1);
    assert_eq!(db.track.len(), 2);
}

#[test]
fn artist_alone_gets_one_join() {
    let mut db = FakeDb::default();
    let track = db.commit(tags(None, Some("Band"), None), "a.mp3", Some(3));
    assert_eq!(db.track, vec![(track, "a.mp3".to_string(), Some(3), "a.mp3".to_string())]);
    assert_eq!(db.artist_tracks, vec![(track, 300)]);
    assert!(db.album.is_empty());
    assert!(db.album_tracks.is_empty());
}

#[test]
fn album_alone_gets_one_join() {
    let mut db = FakeDb::default();
    let track = db.commit(tags(Some("T"), None, Some("LP")), "a.mp3", None);
    assert_eq!(db.track, vec![(track, "T".to_string(), None, "a.mp3".to_string())]);
    assert_eq!(db.album_tracks, vec![(track, 200)]);
    assert!(db.artist.is_empty());
    assert!(db.artist_tracks.is_empty());
}

#[test]
fn same_artist_twice_makes_two_artist_rows() {
    let mut db = FakeDb::default();
    db.commit(tags(None, Some("Band"), None), "a.mp3", None);
    db.commit(tags(None, Some("Band"), None), "b.mp3", None);
    assert_eq!(db.artist, vec![(300, "Band".to_string()), (301, "Band".to_string())]);
}

#[test]
fn committer_asks_in_the_order_album_artist_track_joins() {
    let mut committer =
        TrackCommitter::new(tags(Some("Song"), Some("Band"), Some("LP")), "s.mp3".to_string(), Some(1));
    assert!(matches!(committer.request(), CatalogRequest::CreateAlbum { name } if name == "LP"));
    assert_eq!(committer.finished(), None);
    committer.answer(CatalogReply::Created(20));
    assert!(matches!(committer.request(), CatalogRequest::CreateArtist { name } if name == "Band"));
    committer.answer(CatalogReply::Created(30));
    assert!(matches!(
        committer.request(),
        CatalogRequest::CreateTrack { title, dir: Some(1), fname } if title == "Song" && fname == "s.mp3"
    ));
    committer.answer(CatalogReply::Created(40));
    assert!(matches!(committer.request(), CatalogRequest::LinkArtist { track: 40, artist: 30 }));
    committer.answer(CatalogReply::Linked);
    assert!(matches!(committer.request(), CatalogRequest::LinkAlbum { track: 40, album: 20 }));
    committer.answer(CatalogReply::Linked);
    assert!(matches!(committer.request(), CatalogRequest::Done { track: 40 }));
    assert_eq!(committer.finished(), Some(40));
}

#[test]
fn committer_ignores_a_reply_of_the_wrong_kind() {
    let mut committer = TrackCommitter::new(tags(None, None, None), "s.mp3".to_string(), None);
    committer.answer(CatalogReply::Linked);
    assert!(matches!(committer.request(), CatalogRequest::CreateTrack { .. }));
    committer.answer(CatalogReply::Created(8));
    committer.answer(CatalogReply::Created(9));
    assert_eq!(committer.finished(), Some(8));
}

#[test]
fn file_moves_from_staging_to_the_owners_folder_then_commit() {
    let mut db = FakeDb::default();
    let track = db.ingest(31, "bob", "/x.mp3", tags(None, None, None));
    assert_eq!(
        db.moves,
        vec![("./devdir/temp/31".to_string(), format!("./devdir/u/bob/{track}"))]
    );
    assert_eq!(db.begun, 1);
    assert_eq!(db.commits, 1);
}

#[test]
fn refused_path_asks_nothing_of_the_database() {
    let mut db = FakeDb::default();
    for path in ["A/B/x.mp3", "", "/", "/A//x.mp3", "/ /x.mp3"] {
        let outcome = db.run(1, "ann", path, tags(Some("t"), Some("a"), Some("l")));
        assert!(matches!(outcome, Err(ReamioProcessingErrorInternal::PathError(_))));
    }
    assert_eq!(db.writes, 0);
    assert_eq!(db.commits, 0);
    assert!(db.moves.is_empty());
    assert!(db.dir.is_empty() && db.track.is_empty() && db.album.is_empty());
}

fn failure() -> ReamioProcessingErrorInternal {
    ReamioProcessingErrorInternal::IO(std::io::Error::other("disk on fire"))
}

fn fresh_job(path: &str) -> ItemJob {
    ItemJob::new(PendingUpload { fid: 3, user: "ann".to_string(), path: path.to_string() })
}

#[test]
fn item_asks_in_order_begin_tags_rows_move_commit() {
    let mut job = fresh_job("/x.mp3");
    assert!(matches!(job.request(), ItemRequest::Begin));
    job = job.answer(ItemReply::Began);
    assert!(matches!(job.request(), ItemRequest::ReadTags { path } if path == "./devdir/temp/3"));
    job = job.answer(ItemReply::Tags(tags(None, None, None)));
    assert!(matches!(job.request(), ItemRequest::Catalog(CatalogRequest::CreateTrack { .. })));
    job = job.answer(ItemReply::Catalog(CatalogReply::Created(77)));
    assert!(matches!(
        job.request(),
        ItemRequest::MoveFile { from, to } if from == "./devdir/temp/3" && to == "./devdir/u/ann/77"
    ));
    job = job.answer(ItemReply::Moved);
    assert!(matches!(job.request(), ItemRequest::Commit));
    job = job.answer(ItemReply::Committed);
    assert!(matches!(job.request(), ItemRequest::Finished { track: 77 }));
    assert!(matches!(job.into_result(), Some(Ok(77))));
}

#[test]
fn item_ignores_replies_that_do_not_answer_its_request() {
    let mut job = fresh_job("/x.mp3");
    job = job.answer(ItemReply::Committed);
    job = job.answer(ItemReply::Tags(tags(Some("early"), None, None)));
    assert!(matches!(job.request(), ItemRequest::Begin));
    job = job.answer(ItemReply::Began);
    job = job.answer(ItemReply::Began);
    job = job.answer(ItemReply::Tags(tags(None, None, None)));
    job = job.answer(ItemReply::Moved);
    job = job.answer(ItemReply::Committed);
    job = job.answer(ItemReply::Directory(DirReply::Found(Some(1))));
    assert!(matches!(job.request(), ItemRequest::Catalog(CatalogRequest::CreateTrack { .. })));
    job = job.answer(ItemReply::Catalog(CatalogReply::Created(77)));
    job = job.answer(ItemReply::Committed);
    assert!(matches!(job.request(), ItemRequest::MoveFile { .. }));
    job = job.answer(ItemReply::Moved);
    job = job.answer(ItemReply::Committed);
    job = job.answer(ItemReply::Failed(failure()));
    assert!(matches!(job.into_result(), Some(Ok(77))));
}

#[test]
fn unfinished_item_has_no_result() {
    let job = fresh_job("/x.mp3").answer(ItemReply::Began);
    assert!(job.into_result().is_none());
}

#[test]
fn failure_at_any_step_ends_the_item_without_a_commit() {
    let script: Vec<fn() -> ItemReply> = vec![
        || ItemReply::Began,
        || ItemReply::Tags(tags(Some("T"), Some("Band"), Some("LP"))),
        || ItemReply::Directory(DirReply::Found(None)),
        || ItemReply::Directory(DirReply::Created(10)),
        || ItemReply::Directory(DirReply::Linked),
        || ItemReply::Catalog(CatalogReply::Created(20)),
        || ItemReply::Catalog(CatalogReply::Created(30)),
        || ItemReply::Catalog(CatalogReply::Created(40)),
        || ItemReply::Catalog(CatalogReply::Linked),
        || ItemReply::Catalog(CatalogReply::Linked),
        || ItemReply::Moved,
    ];
    for failing in 0..=script.len() {
        let mut job = fresh_job("/A/x.mp3");
        for step in &script[..failing] {
            job = job.answer(step());
        }
        assert!(!matches!(job.request(), ItemRequest::Abandon | ItemRequest::Finished { .. }));
        job = job.answer(ItemReply::Failed(failure()));
        assert!(matches!(job.request(), ItemRequest::Abandon));
        for step in &script {
            job = job.answer(step());
            assert!(matches!(job.request(), ItemRequest::Abandon));
        }
        job = job.answer(ItemReply::Committed);
        assert!(matches!(job.request(), ItemRequest::Abandon));
        assert!(matches!(job.into_result(), Some(Err(ReamioProcessingErrorInternal::IO(_)))));
    }
}

#[test]
fn failed_tag_reading_ends_the_item_before_the_path_is_looked_at() {
    let mut job = fresh_job("not absolute");
    job = job.answer(ItemReply::Began);
    let broken = id3::Error::new(id3::ErrorKind::Parsing, "frame 12 could not be decoded");
    job = job.answer(ItemReply::Failed(ReamioProcessingErrorInternal::ID3(broken)));
    assert!(matches!(job.into_result(), Some(Err(ReamioProcessingErrorInternal::ID3(_)))));
}
