//! Track committer: the rows that one ingested file adds to the catalogue.
//!
//! An album row and an artist row are inserted when the file's tags name
//! them, then the track row, then one join row for each side that exists. The
//! track's title is the tagged title, or the file name when there is none.
//!
//! Like the resolver, the committer says what it needs
//! ([`TrackCommitter::request`]) and is told what came back
//! ([`TrackCommitter::answer`]); the inserts run in the item's transaction.

use crate::tags::{text_of, TagFields, TagFieldsView};
use vstd::pervasive::unreached;
use vstd::prelude::*;

verus! {

/// What the committer needs from the database next.
#[derive(Debug)]
pub enum CatalogRequest {
    /// Insert an album row. Answered by [`CatalogReply::Created`].
    CreateAlbum { name: String },
    /// Insert an artist row. Answered by [`CatalogReply::Created`].
    CreateArtist { name: String },
    /// Insert the track row. Answered by [`CatalogReply::Created`].
    CreateTrack { title: String, dir: Option<i64>, fname: String },
    /// Insert the row that joins track and artist. Answered by
    /// [`CatalogReply::Linked`].
    LinkArtist { track: i64, artist: i64 },
    /// Insert the row that joins track and album. Answered by
    /// [`CatalogReply::Linked`].
    LinkAlbum { track: i64, album: i64 },
    /// Nothing more: the track stands under this id.
    Done { track: i64 },
}

/// What the database said to a [`CatalogRequest`].
#[derive(Clone, Copy, Debug)]
pub enum CatalogReply {
    /// The id of the row that was inserted.
    Created(i64),
    /// The join row was inserted.
    Linked,
}

/// A [`CatalogRequest`] as plain values.
pub enum CatalogRequestView {
    CreateAlbum { name: Seq<char> },
    CreateArtist { name: Seq<char> },
    CreateTrack { title: Seq<char>, dir: Option<i64>, fname: Seq<char> },
    LinkArtist { track: i64, artist: i64 },
    LinkAlbum { track: i64, album: i64 },
    Done { track: i64 },
}

impl View for CatalogRequest {
    type V = CatalogRequestView;

    open spec fn view(&self) -> CatalogRequestView {
        match *self {
            CatalogRequest::CreateAlbum { name } => CatalogRequestView::CreateAlbum {
                name: name@,
            },
            CatalogRequest::CreateArtist { name } => CatalogRequestView::CreateArtist {
                name: name@,
            },
            CatalogRequest::CreateTrack { title, dir, fname } => CatalogRequestView::CreateTrack {
                title: title@,
                dir,
                fname: fname@,
            },
            CatalogRequest::LinkArtist { track, artist } => CatalogRequestView::LinkArtist {
                track,
                artist,
            },
            CatalogRequest::LinkAlbum { track, album } => CatalogRequestView::LinkAlbum {
                track,
                album,
            },
            CatalogRequest::Done { track } => CatalogRequestView::Done { track },
        }
    }
}

/// The row that the committer is at.
#[derive(Clone, Copy, Debug, PartialEq, Eq, Structural)]
pub enum CommitStage {
    Album,
    Artist,
    Track,
    JoinArtist,
    JoinAlbum,
    Finished,
}

/// The committer's state as plain values.
pub struct CommitterView {
    /// The album named by the tags.
    pub album: Option<Seq<char>>,
    /// The artist named by the tags.
    pub artist: Option<Seq<char>>,
    /// The track's title.
    pub title: Seq<char>,
    /// The file name.
    pub fname: Seq<char>,
    /// The folder that the track goes in (`None`: the root).
    pub dir: Option<i64>,
    /// The album row's id, once inserted.
    pub album_id: Option<i64>,
    /// The artist row's id, once inserted.
    pub artist_id: Option<i64>,
    /// The track row's id, once inserted.
    pub track_id: Option<i64>,
    /// The row that is next.
    pub stage: CommitStage,
}

/// The title of a track: the tagged title, or the file name when the tags
/// have none.
pub open spec fn track_title(tags: TagFieldsView, fname: Seq<char>) -> Seq<char> {
    match tags.title {
        Some(title) => title,
        None => fname,
    }
}

impl CommitterView {
    /// The state before the first request, for a file called `fname` with
    /// these tags, to go in the folder `dir`.
    pub open spec fn start(tags: TagFieldsView, fname: Seq<char>, dir: Option<i64>) -> CommitterView {
        CommitterView {
            album: tags.album,
            artist: tags.artist,
            title: track_title(tags, fname),
            fname,
            dir,
            album_id: None,
            artist_id: None,
            track_id: None,
            stage: if tags.album is Some {
                CommitStage::Album
            } else if tags.artist is Some {
                CommitStage::Artist
            } else {
                CommitStage::Track
            },
        }
    }

    /// Each stage has what its request needs, and an id is only there for a
    /// row that was asked for.
    pub open spec fn well_formed(self) -> bool {
        &&& self.stage == CommitStage::Album ==> self.album is Some
        &&& self.stage == CommitStage::Artist ==> self.artist is Some
        &&& self.stage == CommitStage::JoinArtist ==> self.artist_id is Some && self.track_id is Some
        &&& self.stage == CommitStage::JoinAlbum ==> self.album_id is Some && self.track_id is Some
        &&& self.stage == CommitStage::Finished ==> self.track_id is Some
        &&& self.album_id is Some ==> self.album is Some
        &&& self.artist_id is Some ==> self.artist is Some
    }

    /// What is needed next.
    pub open spec fn request(self) -> CatalogRequestView {
        match self.stage {
            CommitStage::Album => CatalogRequestView::CreateAlbum { name: self.album.unwrap() },
            CommitStage::Artist => CatalogRequestView::CreateArtist { name: self.artist.unwrap() },
            CommitStage::Track => CatalogRequestView::CreateTrack {
                title: self.title,
                dir: self.dir,
                fname: self.fname,
            },
            CommitStage::JoinArtist => CatalogRequestView::LinkArtist {
                track: self.track_id.unwrap(),
                artist: self.artist_id.unwrap(),
            },
            CommitStage::JoinAlbum => CatalogRequestView::LinkAlbum {
                track: self.track_id.unwrap(),
                album: self.album_id.unwrap(),
            },
            CommitStage::Finished => CatalogRequestView::Done { track: self.track_id.unwrap() },
        }
    }

    /// Whether `reply` is the kind of answer that the pending request gets.
    pub open spec fn expects(self, reply: CatalogReply) -> bool {
        match (self.stage, reply) {
            (CommitStage::Album, CatalogReply::Created(_)) => true,
            (CommitStage::Artist, CatalogReply::Created(_)) => true,
            (CommitStage::Track, CatalogReply::Created(_)) => true,
            (CommitStage::JoinArtist, CatalogReply::Linked) => true,
            (CommitStage::JoinAlbum, CatalogReply::Linked) => true,
            _ => false,
        }
    }

    /// The state after `reply`. A reply that the pending request does not
    /// expect changes nothing.
    pub open spec fn answer(self, reply: CatalogReply) -> CommitterView {
        if !self.expects(reply) {
            self
        } else {
            self.advance(reply)
        }
    }

    /// The state after a reply that the pending request expects.
    pub open spec fn advance(self, reply: CatalogReply) -> CommitterView {
        match (self.stage, reply) {
            (CommitStage::Album, CatalogReply::Created(id)) => CommitterView {
                album_id: Some(id),
                stage: if self.artist is Some {
                    CommitStage::Artist
                } else {
                    CommitStage::Track
                },
                ..self
            },
            (CommitStage::Artist, CatalogReply::Created(id)) => CommitterView {
                artist_id: Some(id),
                stage: CommitStage::Track,
                ..self
            },
            (CommitStage::Track, CatalogReply::Created(id)) => CommitterView {
                track_id: Some(id),
                stage: if self.artist_id is Some {
                    CommitStage::JoinArtist
                } else if self.album_id is Some {
                    CommitStage::JoinAlbum
                } else {
                    CommitStage::Finished
                },
                ..self
            },
            (CommitStage::JoinArtist, CatalogReply::Linked) => CommitterView {
                stage: if self.album_id is Some {
                    CommitStage::JoinAlbum
                } else {
                    CommitStage::Finished
                },
                ..self
            },
            (CommitStage::JoinAlbum, CatalogReply::Linked) => CommitterView {
                stage: CommitStage::Finished,
                ..self
            },
            _ => self,
        }
    }

    /// Requests still to come, at most.
    pub open spec fn steps_left(self) -> nat {
        match self.stage {
            CommitStage::Album => 5,
            CommitStage::Artist => 4,
            CommitStage::Track => 3,
            CommitStage::JoinArtist => 2,
            CommitStage::JoinAlbum => 1,
            CommitStage::Finished => 0,
        }
    }
}

/// Adds the rows of one track to the catalogue, one database request at a
/// time.
#[derive(Debug)]
pub struct TrackCommitter {
    album: Option<String>,
    artist: Option<String>,
    title: String,
    fname: String,
    dir: Option<i64>,
    album_id: Option<i64>,
    artist_id: Option<i64>,
    track_id: Option<i64>,
    stage: CommitStage,
}

impl View for TrackCommitter {
    type V = CommitterView;

    closed spec fn view(&self) -> CommitterView {
        CommitterView {
            album: text_of(self.album),
            artist: text_of(self.artist),
            title: self.title@,
            fname: self.fname@,
            dir: self.dir,
            album_id: self.album_id,
            artist_id: self.artist_id,
            track_id: self.track_id,
            stage: self.stage,
        }
    }
}

impl TrackCommitter {
    #[verifier::type_invariant]
    spec fn inv(self) -> bool {
        self@.well_formed()
    }

    /// A committer for the file called `fname` with the tags `tags`, to go in
    /// the folder `dir` (`None`: the root).
    pub fn new(tags: TagFields, fname: String, dir: Option<i64>) -> (c: TrackCommitter)
        ensures
            c@ == CommitterView::start(tags@, fname@, dir),
            c@.well_formed(),
    {
        let stage = if tags.album.is_some() {
            CommitStage::Album
        } else if tags.artist.is_some() {
            CommitStage::Artist
        } else {
            CommitStage::Track
        };
        let title = match tags.title {
            Some(title) => title,
            None => fname.clone(),
        };
        TrackCommitter {
            album: tags.album,
            artist: tags.artist,
            title,
            fname,
            dir,
            album_id: None,
            artist_id: None,
            track_id: None,
            stage,
        }
    }

    /// What the committer needs next. Asking again before answering gives
    /// the same request.
    pub fn request(&self) -> (req: CatalogRequest)
        ensures
            req@ == self@.request(),
            self@.well_formed(),
    {
        proof {
            use_type_invariant(self);
        }
        match self.stage {
            CommitStage::Album => match &self.album {
                Some(name) => CatalogRequest::CreateAlbum { name: name.clone() },
                None => unreached(),
            },
            CommitStage::Artist => match &self.artist {
                Some(name) => CatalogRequest::CreateArtist { name: name.clone() },
                None => unreached(),
            },
            CommitStage::Track => CatalogRequest::CreateTrack {
                title: self.title.clone(),
                dir: self.dir,
                fname: self.fname.clone(),
            },
            CommitStage::JoinArtist => match (self.track_id, self.artist_id) {
                (Some(track), Some(artist)) => CatalogRequest::LinkArtist { track, artist },
                _ => unreached(),
            },
            CommitStage::JoinAlbum => match (self.track_id, self.album_id) {
                (Some(track), Some(album)) => CatalogRequest::LinkAlbum { track, album },
                _ => unreached(),
            },
            CommitStage::Finished => match self.track_id {
                Some(track) => CatalogRequest::Done { track },
                None => unreached(),
            },
        }
    }

    /// Takes in the database's answer to the pending request. An answer of
    /// the wrong kind, or any answer once the committer is done, is ignored.
    pub fn answer(&mut self, reply: CatalogReply)
        ensures
            final(self)@ == old(self)@.answer(reply),
            final(self)@.well_formed(),
    {
        proof {
            use_type_invariant(&*self);
        }
        match (self.stage, reply) {
            (CommitStage::Album, CatalogReply::Created(id)) => {
                self.album_id = Some(id);
                self.stage = if self.artist.is_some() {
                    CommitStage::Artist
                } else {
                    CommitStage::Track
                };
            },
            (CommitStage::Artist, CatalogReply::Created(id)) => {
                self.artist_id = Some(id);
                self.stage = CommitStage::Track;
            },
            (CommitStage::Track, CatalogReply::Created(id)) => {
                self.track_id = Some(id);
                self.stage = if self.artist_id.is_some() {
                    CommitStage::JoinArtist
                } else if self.album_id.is_some() {
                    CommitStage::JoinAlbum
                } else {
                    CommitStage::Finished
                };
            },
            (CommitStage::JoinArtist, CatalogReply::Linked) => {
                self.stage = if self.album_id.is_some() {
                    CommitStage::JoinAlbum
                } else {
                    CommitStage::Finished
                };
            },
            (CommitStage::JoinAlbum, CatalogReply::Linked) => {
                self.stage = CommitStage::Finished;
            },
            _ => {},
        }
    }

    /// The track's id, once every row is in.
    pub fn finished(&self) -> (track: Option<i64>)
        ensures
            track == if self@.stage == CommitStage::Finished {
                self@.track_id
            } else {
                None
            },
    {
        match self.stage {
            CommitStage::Finished => self.track_id,
            _ => None,
        }
    }
}

} // verus!
