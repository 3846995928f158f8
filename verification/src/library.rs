//! One user's library as a mathematical model, and what the processing of
//! one item does to it.
//!
//! [`item_drive`] plays the part of whoever drives an [`ItemJob`] and of the
//! database and file system behind: each request is carried out on the model
//! and answered from it.
//!
//! [`ItemJob`]: crate::ingest::ItemJob

use crate::catalog::{commit_drive, Catalog};
use crate::committer::{CatalogReply, CatalogRequestView, CommitStage, CommitterView};
use crate::ingest::{
    after_resolving, after_tagging, ItemReplyView, ItemRequestView, ItemStage, ItemView,
};
use crate::path::{path_fault, path_filename, path_folders};
use crate::relocate::{staging_path, stored_path};
use crate::resolver::{DirReply, DirRequestView, ResolverView};
use crate::tags::TagFieldsView;
use crate::tree::{drive, DirTree};
use vstd::prelude::*;

verus! {

/// What one item's processing can touch.
pub struct Library {
    /// The directory tree.
    pub tree: DirTree,
    /// Albums, artists, tracks and joins.
    pub catalog: Catalog,
    /// The renames made so far, oldest first: from where, to where.
    pub renames: Seq<(Seq<char>, Seq<char>)>,
    /// How many transactions were opened.
    pub opened: nat,
    /// How many transactions were committed.
    pub commits: nat,
}

impl Library {
    /// The library after the file of the upload `fid` was moved into place
    /// as `track` of `user`, and the transaction committed.
    pub open spec fn settled(self, fid: i64, user: Seq<char>, track: i64) -> Library {
        Library {
            renames: self.renames.push((staging_path(fid), stored_path(user, track))),
            commits: self.commits + 1,
            ..self
        }
    }
}

/// Runs an item to its end against `library`, with every request
/// succeeding. The staged file has the tags `tags`. New directory nodes get
/// their ids from `dir_ids`, new catalogue rows from `row_ids`. Gives the
/// library afterwards.
pub open spec fn item_drive(
    job: ItemView,
    library: Library,
    tags: TagFieldsView,
    dir_ids: Seq<i64>,
    row_ids: Seq<i64>,
) -> Library
    decreases job.steps_left(),
{
    if !job.well_formed() {
        library
    } else {
        match job.request() {
            ItemRequestView::Begin => item_drive(
                job.answer(ItemReplyView::Began),
                Library { opened: library.opened + 1, ..library },
                tags,
                dir_ids,
                row_ids,
            ),
            ItemRequestView::ReadTags { .. } => item_drive(
                job.answer(ItemReplyView::Tags(tags)),
                library,
                tags,
                dir_ids,
                row_ids,
            ),
            ItemRequestView::Directory(DirRequestView::Find { parent, name }) => item_drive(
                job.answer(ItemReplyView::Directory(DirReply::Found(library.tree.find(parent, name)))),
                library,
                tags,
                dir_ids,
                row_ids,
            ),
            ItemRequestView::Directory(DirRequestView::Create { name }) => item_drive(
                job.answer(ItemReplyView::Directory(DirReply::Created(dir_ids[0]))),
                Library { tree: library.tree.create(dir_ids[0], name), ..library },
                tags,
                dir_ids.drop_first(),
                row_ids,
            ),
            ItemRequestView::Directory(DirRequestView::Link { node, parent }) => item_drive(
                job.answer(ItemReplyView::Directory(DirReply::Linked)),
                Library { tree: library.tree.link(node, parent), ..library },
                tags,
                dir_ids,
                row_ids,
            ),
            ItemRequestView::Directory(DirRequestView::Done { .. }) => library,
            ItemRequestView::Catalog(CatalogRequestView::Done { .. }) => library,
            ItemRequestView::Catalog(CatalogRequestView::LinkArtist { track, artist }) => item_drive(
                job.answer(ItemReplyView::Catalog(CatalogReply::Linked)),
                Library {
                    catalog: library.catalog.apply(
                        CatalogRequestView::LinkArtist { track, artist },
                        0,
                    ),
                    ..library
                },
                tags,
                dir_ids,
                row_ids,
            ),
            ItemRequestView::Catalog(CatalogRequestView::LinkAlbum { track, album }) => item_drive(
                job.answer(ItemReplyView::Catalog(CatalogReply::Linked)),
                Library {
                    catalog: library.catalog.apply(
                        CatalogRequestView::LinkAlbum { track, album },
                        0,
                    ),
                    ..library
                },
                tags,
                dir_ids,
                row_ids,
            ),
            ItemRequestView::Catalog(insert) => item_drive(
                job.answer(ItemReplyView::Catalog(CatalogReply::Created(row_ids[0]))),
                Library { catalog: library.catalog.apply(insert, row_ids[0]), ..library },
                tags,
                dir_ids,
                row_ids.drop_first(),
            ),
            ItemRequestView::MoveFile { from, to } => item_drive(
                job.answer(ItemReplyView::Moved),
                Library { renames: library.renames.push((from, to)), ..library },
                tags,
                dir_ids,
                row_ids,
            ),
            ItemRequestView::Commit => item_drive(
                job.answer(ItemReplyView::Committed),
                Library { commits: library.commits + 1, ..library },
                tags,
                dir_ids,
                row_ids,
            ),
            ItemRequestView::Abandon => library,
            ItemRequestView::Finished { .. } => library,
        }
    }
}

/// What is left of an item once its track has its id: one rename, from the
/// staged file to the track's file, and then one commit.
proof fn lemma_item_after_rows(
    job: ItemView,
    track: i64,
    library: Library,
    tags: TagFieldsView,
    dir_ids: Seq<i64>,
    row_ids: Seq<i64>,
)
    requires
        job.stage == (ItemStage::Moving { track }),
    ensures
        item_drive(job, library, tags, dir_ids, row_ids) == library.settled(
            job.fid,
            job.user,
            track,
        ),
{
    reveal_with_fuel(item_drive, 3);
}

/// While the rows go in, the item does to the catalogue what the committer
/// does, and then goes on to the move.
proof fn lemma_item_cataloguing(
    job: ItemView,
    committer: CommitterView,
    library: Library,
    tags: TagFieldsView,
    dir_ids: Seq<i64>,
    row_ids: Seq<i64>,
)
    requires
        job.stage == (ItemStage::Cataloguing { committer }),
        committer.well_formed(),
        committer.stage != CommitStage::Finished,
    ensures
        ({
            let (catalog, track) = commit_drive(committer, library.catalog, row_ids);
            item_drive(job, library, tags, dir_ids, row_ids) == (Library {
                catalog,
                ..library
            }).settled(job.fid, job.user, track)
        }),
    decreases committer.steps_left(),
{
    let request = committer.request();
    let linking = request is LinkArtist || request is LinkAlbum;
    let reply = if linking {
        CatalogReply::Linked
    } else {
        CatalogReply::Created(row_ids[0])
    };
    let id = if linking {
        0
    } else {
        row_ids[0]
    };
    let rest = if linking {
        row_ids
    } else {
        row_ids.drop_first()
    };
    let next = committer.answer(reply);
    let grown = Library { catalog: library.catalog.apply(request, id), ..library };
    let after = job.answer(ItemReplyView::Catalog(reply));
    assert(commit_drive(committer, library.catalog, row_ids) == commit_drive(
        next,
        grown.catalog,
        rest,
    ));
    assert(item_drive(job, library, tags, dir_ids, row_ids) == item_drive(
        after,
        grown,
        tags,
        dir_ids,
        rest,
    ));
    if next.stage == CommitStage::Finished {
        lemma_item_after_rows(after, next.track_id.unwrap(), grown, tags, dir_ids, rest);
        assert(commit_drive(next, grown.catalog, rest) == (grown.catalog, next.track_id.unwrap()));
    } else {
        lemma_item_cataloguing(after, next, grown, tags, dir_ids, rest);
    }
}

/// While the folders are resolved, the item does to the tree what the
/// resolver does, and then goes on to the rows with the resolver's leaf.
proof fn lemma_item_resolving(
    job: ItemView,
    resolver: ResolverView,
    found: TagFieldsView,
    filename: Seq<char>,
    library: Library,
    tags: TagFieldsView,
    dir_ids: Seq<i64>,
    row_ids: Seq<i64>,
)
    requires
        job.stage == after_resolving(resolver, found, filename),
        resolver.well_formed(),
    ensures
        ({
            let (tree, leaf) = drive(resolver, library.tree, dir_ids);
            let (catalog, track) = commit_drive(
                CommitterView::start(found, filename, leaf),
                library.catalog,
                row_ids,
            );
            item_drive(job, library, tags, dir_ids, row_ids) == (Library {
                tree,
                catalog,
                ..library
            }).settled(job.fid, job.user, track)
        }),
    decreases resolver.steps_left(),
{
    if resolver.finished() {
        let committer = CommitterView::start(found, filename, resolver.at);
        assert(drive(resolver, library.tree, dir_ids) == (library.tree, resolver.at));
        lemma_item_cataloguing(job, committer, library, tags, dir_ids, row_ids);
    } else {
        match resolver.request() {
            DirRequestView::Find { parent, name } => {
                let reply = DirReply::Found(library.tree.find(parent, name));
                let next = resolver.answer(reply);
                let after = job.answer(ItemReplyView::Directory(reply));
                assert(item_drive(job, library, tags, dir_ids, row_ids) == item_drive(
                    after,
                    library,
                    tags,
                    dir_ids,
                    row_ids,
                ));
                assert(drive(resolver, library.tree, dir_ids) == drive(next, library.tree, dir_ids));
                lemma_item_resolving(
                    after,
                    next,
                    found,
                    filename,
                    library,
                    tags,
                    dir_ids,
                    row_ids,
                );
            },
            DirRequestView::Create { name } => {
                let reply = DirReply::Created(dir_ids[0]);
                let next = resolver.answer(reply);
                let after = job.answer(ItemReplyView::Directory(reply));
                let grown = Library { tree: library.tree.create(dir_ids[0], name), ..library };
                let rest = dir_ids.drop_first();
                assert(item_drive(job, library, tags, dir_ids, row_ids) == item_drive(
                    after,
                    grown,
                    tags,
                    rest,
                    row_ids,
                ));
                assert(drive(resolver, library.tree, dir_ids) == drive(next, grown.tree, rest));
                lemma_item_resolving(after, next, found, filename, grown, tags, rest, row_ids);
            },
            DirRequestView::Link { node, parent } => {
                let reply = DirReply::Linked;
                let next = resolver.answer(reply);
                let after = job.answer(ItemReplyView::Directory(reply));
                let grown = Library { tree: library.tree.link(node, parent), ..library };
                assert(item_drive(job, library, tags, dir_ids, row_ids) == item_drive(
                    after,
                    grown,
                    tags,
                    dir_ids,
                    row_ids,
                ));
                assert(drive(resolver, library.tree, dir_ids) == drive(next, grown.tree, dir_ids));
                lemma_item_resolving(after, next, found, filename, grown, tags, dir_ids, row_ids);
            },
            DirRequestView::Done { .. } => {},
        }
    }
}

/// What the processing of one item comes to, for an upload whose path is
/// accepted and whose requests all succeed: one transaction is opened; the
/// folders of the path are resolved as the resolver does; the rows are
/// inserted as the committer does, with the track in the path's innermost
/// folder; the staged file is renamed once, to the track's file in the
/// owner's folder; and the transaction is committed once, after all of that.
pub proof fn lemma_item_run(
    fid: i64,
    user: Seq<char>,
    path: Seq<char>,
    tags: TagFieldsView,
    library: Library,
    dir_ids: Seq<i64>,
    row_ids: Seq<i64>,
)
    requires
        path_fault(path) is None,
    ensures
        ({
            let (tree, leaf) = drive(
                ResolverView::start(path_folders(path)),
                library.tree,
                dir_ids,
            );
            let (catalog, track) = commit_drive(
                CommitterView::start(tags, path_filename(path), leaf),
                library.catalog,
                row_ids,
            );
            item_drive(ItemView::start(fid, user, path), library, tags, dir_ids, row_ids) == (Library {
                tree,
                catalog,
                opened: library.opened + 1,
                ..library
            }).settled(fid, user, track)
        }),
{
    let opening = ItemView::start(fid, user, path);
    let tagging = opening.answer(ItemReplyView::Began);
    let resolving = tagging.answer(ItemReplyView::Tags(tags));
    let begun = Library { opened: library.opened + 1, ..library };
    assert(item_drive(opening, library, tags, dir_ids, row_ids) == item_drive(
        tagging,
        begun,
        tags,
        dir_ids,
        row_ids,
    ));
    assert(item_drive(tagging, begun, tags, dir_ids, row_ids) == item_drive(
        resolving,
        begun,
        tags,
        dir_ids,
        row_ids,
    ));
    assert(resolving.stage == after_tagging(path, tags));
    lemma_item_resolving(
        resolving,
        ResolverView::start(path_folders(path)),
        tags,
        path_filename(path),
        begun,
        tags,
        dir_ids,
        row_ids,
    );
}

/// An upload whose path is refused leaves no trace but the transaction that
/// was opened for it: no folder, no row, no rename, no commit.
pub proof fn lemma_refused_item_writes_nothing(
    fid: i64,
    user: Seq<char>,
    path: Seq<char>,
    tags: TagFieldsView,
    library: Library,
    dir_ids: Seq<i64>,
    row_ids: Seq<i64>,
)
    requires
        path_fault(path) is Some,
    ensures
        item_drive(ItemView::start(fid, user, path), library, tags, dir_ids, row_ids) == (Library {
            opened: library.opened + 1,
            ..library
        }),
{
    reveal_with_fuel(item_drive, 4);
}

} // verus!
