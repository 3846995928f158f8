//! Processing of one uploaded item, from its pending record to a committed
//! track with its file in place.
//!
//! The steps come in one order. A write transaction is opened. The tags of
//! the staged file are read. The client's path is checked and cut up. The
//! folders are resolved, then the catalogue rows are inserted, then the staged
//! file is moved to where the track's file lives, and last the transaction is
//! committed. Every row is written inside that one transaction and after the
//! path was accepted, so an item that fails leaves no row.
//!
//! [`ItemJob`] holds where the item stands. It says what has to be done next
//! ([`ItemJob::request`]) and is told what came of it ([`ItemJob::answer`]).
//! A step that fails is answered with the failure. That ends the item: from
//! then on the job asks only that the transaction be abandoned.

use crate::committer::{
    CatalogReply, CatalogRequest, CatalogRequestView, CommitStage, CommitterView, TrackCommitter,
};
use crate::error::{ProcessingErrorView, ReamioProcessingErrorInternal};
use crate::path::{fault_message, parse_upload_path, path_fault, path_filename, path_folders};
use crate::relocate::{staging_location, staging_path, stored_location, stored_path};
use crate::resolver::{DirReply, DirRequest, DirRequestView, DirectoryResolver, ResolverView};
use crate::tags::{TagFields, TagFieldsView};
use vstd::pervasive::unreached;
use vstd::prelude::*;

verus! {

/// The record of an upload that waits to be processed.
#[derive(Debug)]
pub struct PendingUpload {
    /// The record's id, which also names the staged file.
    pub fid: i64,
    /// The user who owns the upload.
    pub user: String,
    /// The path that the client asked for.
    pub path: String,
}

/// What has to be done next for an item.
#[derive(Debug)]
pub enum ItemRequest {
    /// Open a write transaction on the owner's database, one that holds the
    /// write lock from its start, so that no other item's rows come in
    /// between this item's lookups and inserts. Answered by
    /// [`ItemReply::Began`].
    Begin,
    /// Read the tags of the staged file at `path`. Answered by
    /// [`ItemReply::Tags`].
    ReadTags { path: String },
    /// A request of the directory resolver; never its `Done`.
    Directory(DirRequest),
    /// A request of the track committer; never its `Done`.
    Catalog(CatalogRequest),
    /// Rename the file `from` to `to`. Answered by [`ItemReply::Moved`].
    MoveFile { from: String, to: String },
    /// Commit the transaction. Answered by [`ItemReply::Committed`].
    Commit,
    /// The item has failed: roll the transaction back. Nothing more is
    /// asked.
    Abandon,
    /// Nothing more: the item has become this track.
    Finished { track: i64 },
}

/// What came of an [`ItemRequest`].
#[derive(Debug)]
pub enum ItemReply {
    /// The transaction is open.
    Began,
    /// The tags of the staged file.
    Tags(TagFields),
    Directory(DirReply),
    Catalog(CatalogReply),
    /// The file was renamed.
    Moved,
    /// The transaction was committed.
    Committed,
    /// The request failed, and why.
    Failed(ReamioProcessingErrorInternal),
}

/// An [`ItemRequest`] as plain values.
pub enum ItemRequestView {
    Begin,
    ReadTags { path: Seq<char> },
    Directory(DirRequestView),
    Catalog(CatalogRequestView),
    MoveFile { from: Seq<char>, to: Seq<char> },
    Commit,
    Abandon,
    Finished { track: i64 },
}

impl View for ItemRequest {
    type V = ItemRequestView;

    open spec fn view(&self) -> ItemRequestView {
        match *self {
            ItemRequest::Begin => ItemRequestView::Begin,
            ItemRequest::ReadTags { path } => ItemRequestView::ReadTags { path: path@ },
            ItemRequest::Directory(r) => ItemRequestView::Directory(r@),
            ItemRequest::Catalog(r) => ItemRequestView::Catalog(r@),
            ItemRequest::MoveFile { from, to } => ItemRequestView::MoveFile { from: from@, to: to@ },
            ItemRequest::Commit => ItemRequestView::Commit,
            ItemRequest::Abandon => ItemRequestView::Abandon,
            ItemRequest::Finished { track } => ItemRequestView::Finished { track },
        }
    }
}

/// An [`ItemReply`] as plain values.
pub enum ItemReplyView {
    Began,
    Tags(TagFieldsView),
    Directory(DirReply),
    Catalog(CatalogReply),
    Moved,
    Committed,
    Failed(ProcessingErrorView),
}

impl View for ItemReply {
    type V = ItemReplyView;

    open spec fn view(&self) -> ItemReplyView {
        match *self {
            ItemReply::Began => ItemReplyView::Began,
            ItemReply::Tags(tags) => ItemReplyView::Tags(tags@),
            ItemReply::Directory(r) => ItemReplyView::Directory(r),
            ItemReply::Catalog(r) => ItemReplyView::Catalog(r),
            ItemReply::Moved => ItemReplyView::Moved,
            ItemReply::Committed => ItemReplyView::Committed,
            ItemReply::Failed(error) => ItemReplyView::Failed(error@),
        }
    }
}

/// Where an item stands, as plain values.
pub enum ItemStage {
    /// The transaction has to be opened.
    Opening,
    /// The tags have to be read.
    Tagging,
    /// The folders are being resolved; tags and file name wait for the leaf.
    Resolving { resolver: ResolverView, tags: TagFieldsView, filename: Seq<char> },
    /// The catalogue rows are being inserted.
    Cataloguing { committer: CommitterView },
    /// The rows are in; the file has to be moved.
    Moving { track: i64 },
    /// The file is in place; the transaction has to be committed.
    Committing { track: i64 },
    /// Done: the item is this track.
    Finished { track: i64 },
    /// Failed, and why.
    Failed { error: ProcessingErrorView },
}

impl ItemStage {
    /// A stage only stands while its machine has a request to make.
    pub open spec fn well_formed(self) -> bool {
        match self {
            ItemStage::Resolving { resolver, .. } => resolver.well_formed() && !resolver.finished(),
            ItemStage::Cataloguing { committer } => committer.well_formed() && committer.stage
                != CommitStage::Finished,
            _ => true,
        }
    }

    /// Nothing more will happen.
    pub open spec fn ended(self) -> bool {
        self is Finished || self is Failed
    }
}

/// An item's state as plain values.
pub struct ItemView {
    /// The pending record's id.
    pub fid: i64,
    /// The owner.
    pub user: Seq<char>,
    /// The path that the client asked for.
    pub path: Seq<char>,
    /// Where the item stands.
    pub stage: ItemStage,
}

/// The stage that follows the reading of the tags: a refused path fails the
/// item with the reason; an accepted one starts the resolver on its folders.
pub open spec fn after_tagging(path: Seq<char>, tags: TagFieldsView) -> ItemStage {
    match path_fault(path) {
        Some(fault) => ItemStage::Failed {
            error: ProcessingErrorView::PathError(fault_message(path, fault)),
        },
        None => after_resolving(
            ResolverView::start(path_folders(path)),
            tags,
            path_filename(path),
        ),
    }
}

/// The stage that follows the resolver's state `resolver`: still resolving,
/// or, once the leaf is known, the committer's first request.
pub open spec fn after_resolving(
    resolver: ResolverView,
    tags: TagFieldsView,
    filename: Seq<char>,
) -> ItemStage {
    if resolver.finished() {
        ItemStage::Cataloguing { committer: CommitterView::start(tags, filename, resolver.at) }
    } else {
        ItemStage::Resolving { resolver, tags, filename }
    }
}

/// The stage that follows the committer's state `committer`: still
/// cataloguing, or, once the track has its id, the move of the file.
pub open spec fn after_cataloguing(committer: CommitterView) -> ItemStage {
    if committer.stage == CommitStage::Finished {
        ItemStage::Moving { track: committer.track_id.unwrap() }
    } else {
        ItemStage::Cataloguing { committer }
    }
}

impl ItemView {
    /// The state before the first request.
    pub open spec fn start(fid: i64, user: Seq<char>, path: Seq<char>) -> ItemView {
        ItemView { fid, user, path, stage: ItemStage::Opening }
    }

    pub open spec fn well_formed(self) -> bool {
        self.stage.well_formed()
    }

    /// What has to be done next.
    pub open spec fn request(self) -> ItemRequestView {
        match self.stage {
            ItemStage::Opening => ItemRequestView::Begin,
            ItemStage::Tagging => ItemRequestView::ReadTags { path: staging_path(self.fid) },
            ItemStage::Resolving { resolver, .. } => ItemRequestView::Directory(resolver.request()),
            ItemStage::Cataloguing { committer } => ItemRequestView::Catalog(committer.request()),
            ItemStage::Moving { track } => ItemRequestView::MoveFile {
                from: staging_path(self.fid),
                to: stored_path(self.user, track),
            },
            ItemStage::Committing { .. } => ItemRequestView::Commit,
            ItemStage::Finished { track } => ItemRequestView::Finished { track },
            ItemStage::Failed { .. } => ItemRequestView::Abandon,
        }
    }

    /// The state after `reply`. Once the item has ended, nothing changes it.
    /// Before that, a failure ends it, whatever was asked. Any other reply
    /// counts only when it answers the pending request.
    pub open spec fn answer(self, reply: ItemReplyView) -> ItemView {
        if self.stage.ended() {
            self
        } else {
            match (self.stage, reply) {
                (_, ItemReplyView::Failed(error)) => ItemView {
                    stage: ItemStage::Failed { error },
                    ..self
                },
                (ItemStage::Opening, ItemReplyView::Began) => ItemView {
                    stage: ItemStage::Tagging,
                    ..self
                },
                (ItemStage::Tagging, ItemReplyView::Tags(tags)) => ItemView {
                    stage: after_tagging(self.path, tags),
                    ..self
                },
                (
                    ItemStage::Resolving { resolver, tags, filename },
                    ItemReplyView::Directory(r),
                ) => ItemView { stage: after_resolving(resolver.answer(r), tags, filename), ..self },
                (ItemStage::Cataloguing { committer }, ItemReplyView::Catalog(r)) => ItemView {
                    stage: after_cataloguing(committer.answer(r)),
                    ..self
                },
                (ItemStage::Moving { track }, ItemReplyView::Moved) => ItemView {
                    stage: ItemStage::Committing { track },
                    ..self
                },
                (ItemStage::Committing { track }, ItemReplyView::Committed) => ItemView {
                    stage: ItemStage::Finished { track },
                    ..self
                },
                _ => self,
            }
        }
    }

    /// Requests still to come, at most.
    pub open spec fn steps_left(self) -> nat {
        match self.stage {
            ItemStage::Opening => 3 * path_folders(self.path).len() + 10,
            ItemStage::Tagging => 3 * path_folders(self.path).len() + 9,
            ItemStage::Resolving { resolver, .. } => resolver.steps_left() + 8,
            ItemStage::Cataloguing { committer } => committer.steps_left() + 2,
            ItemStage::Moving { .. } => 2,
            ItemStage::Committing { .. } => 1,
            ItemStage::Finished { .. } => 0,
            ItemStage::Failed { .. } => 0,
        }
    }

    /// How the item has ended, if it has: with its track, or with its
    /// failure.
    pub open spec fn result(self) -> Option<Result<i64, ProcessingErrorView>> {
        match self.stage {
            ItemStage::Finished { track } => Some(Ok(track)),
            ItemStage::Failed { error } => Some(Err(error)),
            _ => None,
        }
    }
}

enum JobStage {
    Opening,
    Tagging,
    Resolving { resolver: DirectoryResolver, tags: TagFields, filename: String },
    Cataloguing { committer: TrackCommitter },
    Moving { track: i64 },
    Committing { track: i64 },
    Finished { track: i64 },
    Failed { error: ReamioProcessingErrorInternal },
}

impl View for JobStage {
    type V = ItemStage;

    closed spec fn view(&self) -> ItemStage {
        match *self {
            JobStage::Opening => ItemStage::Opening,
            JobStage::Tagging => ItemStage::Tagging,
            JobStage::Resolving { resolver, tags, filename } => ItemStage::Resolving {
                resolver: resolver@,
                tags: tags@,
                filename: filename@,
            },
            JobStage::Cataloguing { committer } => ItemStage::Cataloguing { committer: committer@ },
            JobStage::Moving { track } => ItemStage::Moving { track },
            JobStage::Committing { track } => ItemStage::Committing { track },
            JobStage::Finished { track } => ItemStage::Finished { track },
            JobStage::Failed { error } => ItemStage::Failed { error: error@ },
        }
    }
}

/// One item on its way from pending upload to track.
pub struct ItemJob {
    fid: i64,
    user: String,
    path: String,
    stage: JobStage,
}

impl View for ItemJob {
    type V = ItemView;

    closed spec fn view(&self) -> ItemView {
        ItemView { fid: self.fid, user: self.user@, path: self.path@, stage: self.stage@ }
    }
}

/// Moves on from the tags: checks the path, and starts on its folders.
fn leave_tagging(path: &str, tags: TagFields) -> (stage: JobStage)
    ensures
        stage@ == after_tagging(path@, tags@),
        stage@.well_formed(),
{
    match parse_upload_path(path) {
        Ok(parts) => leave_resolving(DirectoryResolver::new(parts.folders), tags, parts.filename),
        Err(refused) => JobStage::Failed {
            error: ReamioProcessingErrorInternal::PathError(refused),
        },
    }
}

/// Moves on from the resolver: to the committer once the leaf is known.
fn leave_resolving(resolver: DirectoryResolver, tags: TagFields, filename: String) -> (stage:
    JobStage)
    requires
        resolver@.well_formed(),
    ensures
        stage@ == after_resolving(resolver@, tags@, filename@),
        stage@.well_formed(),
{
    if resolver.is_done() {
        let leaf = match resolver.request() {
            DirRequest::Done { leaf } => leaf,
            _ => unreached(),
        };
        JobStage::Cataloguing { committer: TrackCommitter::new(tags, filename, leaf) }
    } else {
        JobStage::Resolving { resolver, tags, filename }
    }
}

/// Moves on from the committer: to the move once the track has its id.
fn leave_cataloguing(committer: TrackCommitter) -> (stage: JobStage)
    requires
        committer@.well_formed(),
    ensures
        stage@ == after_cataloguing(committer@),
        stage@.well_formed(),
{
    match committer.finished() {
        Some(track) => JobStage::Moving { track },
        None => JobStage::Cataloguing { committer },
    }
}

impl ItemJob {
    #[verifier::type_invariant]
    spec fn inv(self) -> bool {
        self@.well_formed()
    }

    /// A job for `upload`, with everything still to do.
    pub fn new(upload: PendingUpload) -> (job: ItemJob)
        ensures
            job@ == ItemView::start(upload.fid, upload.user@, upload.path@),
            job@.well_formed(),
    {
        ItemJob { fid: upload.fid, user: upload.user, path: upload.path, stage: JobStage::Opening }
    }

    /// What has to be done next. Asking again before answering gives the
    /// same request.
    pub fn request(&self) -> (req: ItemRequest)
        ensures
            req@ == self@.request(),
            self@.well_formed(),
    {
        proof {
            use_type_invariant(self);
        }
        match &self.stage {
            JobStage::Opening => ItemRequest::Begin,
            JobStage::Tagging => ItemRequest::ReadTags { path: staging_location(self.fid) },
            JobStage::Resolving { resolver, .. } => ItemRequest::Directory(resolver.request()),
            JobStage::Cataloguing { committer } => ItemRequest::Catalog(committer.request()),
            JobStage::Moving { track } => ItemRequest::MoveFile {
                from: staging_location(self.fid),
                to: stored_location(self.user.as_str(), *track),
            },
            JobStage::Committing { .. } => ItemRequest::Commit,
            JobStage::Finished { track } => ItemRequest::Finished { track: *track },
            JobStage::Failed { .. } => ItemRequest::Abandon,
        }
    }

    /// Takes in what came of the pending request.
    ///
    /// A failure ends the item. The tags lead to the check of the path, which
    /// ends the item if the path is refused. A reply that does not answer the
    /// pending request, and any reply once the item has ended, changes
    /// nothing.
    pub fn answer(self, reply: ItemReply) -> (next: ItemJob)
        ensures
            next@ == self@.answer(reply@),
            next@.well_formed(),
    {
        proof {
            use_type_invariant(&self);
        }
        let ItemJob { fid, user, path, stage } = self;
        let stage = match (stage, reply) {
            (JobStage::Finished { track }, _) => JobStage::Finished { track },
            (JobStage::Failed { error }, _) => JobStage::Failed { error },
            (_, ItemReply::Failed(error)) => JobStage::Failed { error },
            (JobStage::Opening, ItemReply::Began) => JobStage::Tagging,
            (JobStage::Tagging, ItemReply::Tags(tags)) => leave_tagging(path.as_str(), tags),
            (JobStage::Resolving { resolver, tags, filename }, ItemReply::Directory(r)) => {
                let mut resolver = resolver;
                resolver.answer(r);
                leave_resolving(resolver, tags, filename)
            },
            (JobStage::Cataloguing { committer }, ItemReply::Catalog(r)) => {
                let mut committer = committer;
                committer.answer(r);
                leave_cataloguing(committer)
            },
            (JobStage::Moving { track }, ItemReply::Moved) => JobStage::Committing { track },
            (JobStage::Committing { track }, ItemReply::Committed) => JobStage::Finished { track },
            (stage, _) => stage,
        };
        ItemJob { fid, user, path, stage }
    }

    /// How the item has ended: with its track or with its failure. `None`
    /// while there is still something to do.
    pub fn into_result(self) -> (r: Option<Result<i64, ReamioProcessingErrorInternal>>)
        ensures
            match r {
                Some(Ok(track)) => self@.result() == Some(
                    Ok::<i64, ProcessingErrorView>(track),
                ),
                Some(Err(error)) => self@.result() == Some(
                    Err::<i64, ProcessingErrorView>(error@),
                ),
                None => self@.result() is None,
            },
    {
        match self.stage {
            JobStage::Finished { track } => Some(Ok(track)),
            JobStage::Failed { error } => Some(Err(error)),
            _ => None,
        }
    }
}

/// What an item asks of the resolver or of the committer is always something
/// to do: their `Done` is taken in by the item and never passed on.
pub proof fn lemma_item_asks_for_work(job: ItemView)
    requires
        job.well_formed(),
    ensures
        !(job.request() matches ItemRequestView::Directory(DirRequestView::Done { .. })),
        !(job.request() matches ItemRequestView::Catalog(CatalogRequestView::Done { .. })),
{
}

/// Once an item has failed, no reply changes that, and all it asks for is
/// that the transaction be abandoned: it never asks for a write or a commit.
pub proof fn lemma_failure_is_final(job: ItemView, reply: ItemReplyView)
    requires
        job.stage is Failed,
    ensures
        job.answer(reply) == job,
        job.request() == ItemRequestView::Abandon,
{
}

/// A failure of any step of an item that has not ended ends it with that
/// failure.
pub proof fn lemma_failure_ends_item(job: ItemView, error: ProcessingErrorView)
    requires
        !job.stage.ended(),
    ensures
        job.answer(ItemReplyView::Failed(error)).result() == Some(
            Err::<i64, ProcessingErrorView>(error),
        ),
        job.answer(ItemReplyView::Failed(error)).request() == ItemRequestView::Abandon,
{
}

/// An upload whose path is refused fails once its tags are read, with the
/// reason, whatever the tags are: before any row is asked for.
pub proof fn lemma_refused_path_fails_item(
    fid: i64,
    user: Seq<char>,
    path: Seq<char>,
    tags: TagFieldsView,
)
    requires
        path_fault(path) is Some,
    ensures
        ({
            let opening = ItemView::start(fid, user, path);
            let tagging = opening.answer(ItemReplyView::Began);
            let failed = tagging.answer(ItemReplyView::Tags(tags));
            &&& opening.request() == ItemRequestView::Begin
            &&& tagging.request() == ItemRequestView::ReadTags { path: staging_path(fid) }
            &&& failed.request() == ItemRequestView::Abandon
            &&& failed.result() == Some(
                Err::<i64, ProcessingErrorView>(
                    ProcessingErrorView::PathError(fault_message(path, path_fault(path).unwrap())),
                ),
            )
        }),
{
}

} // verus!
