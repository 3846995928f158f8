//! The directory tree as the database holds it, as a mathematical model, and
//! what the resolver does to it.
//!
//! The model has the two relations of the schema: directory nodes (an id and
//! a name) and directory edges (a node and its parent, `None` at the root).
//! [`drive`] plays the part of the database and of whoever drives the
//! resolver: it answers each request from the model and applies each insert
//! to it. The laws at the end are stated of that run.

use crate::path::{path_fault, path_folders};
use crate::resolver::{DirReply, DirRequestView, DirStage, ResolverView};
use vstd::prelude::*;

verus! {

/// The directory nodes and edges of one user's library.
pub struct DirTree {
    /// Directory nodes: the name of each node id.
    pub names: Map<i64, Seq<char>>,
    /// Directory edges: the parent of each linked node (`None`: the root).
    pub parents: Map<i64, Option<i64>>,
}

impl DirTree {
    /// `node` has both its node row and its edge row.
    pub open spec fn linked(self, node: i64) -> bool {
        self.names.contains_key(node) && self.parents.contains_key(node)
    }

    /// `node` is the folder called `name` directly under `parent`.
    pub open spec fn is_child(self, node: i64, parent: Option<i64>, name: Seq<char>) -> bool {
        self.linked(node) && self.parents[node] == parent && self.names[node] == name
    }

    /// Some folder called `name` stands directly under `parent`.
    pub open spec fn has_child(self, parent: Option<i64>, name: Seq<char>) -> bool {
        exists|node: i64| self.is_child(node, parent, name)
    }

    /// What a lookup of `name` under `parent` returns: a folder of that name
    /// there, if there is one.
    pub open spec fn find(self, parent: Option<i64>, name: Seq<char>) -> Option<i64> {
        if self.has_child(parent, name) {
            Some(choose|node: i64| self.is_child(node, parent, name))
        } else {
            None
        }
    }

    /// `at` is the root or a node that exists.
    pub open spec fn holds(self, at: Option<i64>) -> bool {
        at matches Some(node) ==> self.names.contains_key(node)
    }

    /// The tree is finite, every edge joins nodes that exist, and no two
    /// folders under one parent share a name.
    pub open spec fn well_formed(self) -> bool {
        &&& self.names.dom().finite()
        &&& forall|node: i64| #[trigger]
            self.parents.contains_key(node) ==> self.names.contains_key(node) && self.holds(
                self.parents[node],
            )
        &&& forall|a: i64, b: i64|
            #![trigger self.linked(a), self.linked(b)]
            self.linked(a) && self.linked(b) && self.parents[a] == self.parents[b]
                && self.names[a] == self.names[b] ==> a == b
    }

    /// The tree after a node row `(node, name)` is inserted.
    pub open spec fn create(self, node: i64, name: Seq<char>) -> DirTree {
        DirTree { names: self.names.insert(node, name), ..self }
    }

    /// The tree after an edge row `(node, parent)` is inserted.
    pub open spec fn link(self, node: i64, parent: Option<i64>) -> DirTree {
        DirTree { parents: self.parents.insert(node, parent), ..self }
    }

    /// How many directory nodes there are.
    pub open spec fn node_count(self) -> nat {
        self.names.dom().len()
    }

    /// Everything in `self` is in `later`, unchanged.
    pub open spec fn within(self, later: DirTree) -> bool {
        &&& forall|node: i64| #[trigger]
            self.names.contains_key(node) ==> later.names.contains_key(node) && later.names[node]
                == self.names[node]
        &&& forall|node: i64| #[trigger]
            self.parents.contains_key(node) ==> later.parents.contains_key(node)
                && later.parents[node] == self.parents[node]
    }

    /// How many of `names[from..]` can be walked from `at` through folders
    /// that exist already.
    pub open spec fn reach(self, names: Seq<Seq<char>>, from: int, at: Option<i64>) -> nat
        decreases names.len() - from,
    {
        if from < 0 || from >= names.len() {
            0
        } else {
            match self.find(at, names[from]) {
                Some(node) => 1 + self.reach(names, from + 1, Some(node)),
                None => 0,
            }
        }
    }

    /// The folder that `names[from..]` leads to from `at`, when every folder
    /// on the way exists.
    pub open spec fn walk(self, names: Seq<Seq<char>>, from: int, at: Option<i64>) -> Option<
        Option<i64>,
    >
        decreases names.len() - from,
    {
        if from < 0 || from >= names.len() {
            Some(at)
        } else {
            match self.find(at, names[from]) {
                Some(node) => self.walk(names, from + 1, Some(node)),
                None => None,
            }
        }
    }
}

/// Ids that the database may hand out for new nodes of `tree`, in the order
/// in which it will: none is in use, none comes twice.
pub open spec fn unused_ids(tree: DirTree, ids: Seq<i64>) -> bool {
    &&& forall|i: int| 0 <= i < ids.len() ==> !tree.names.contains_key(#[trigger] ids[i])
    &&& forall|i: int, j: int| 0 <= i < j < ids.len() ==> #[trigger] ids[i] != #[trigger] ids[j]
}

/// The resolver about to look up `names[from]` under `at`.
pub open spec fn seeking(names: Seq<Seq<char>>, from: int, at: Option<i64>) -> ResolverView {
    ResolverView { names, depth: from, at, stage: DirStage::Seeking }
}

/// Runs the resolver to its end against `tree`: each lookup is answered from
/// the tree, each insert is applied to it, and each new node gets the next of
/// `ids`. Gives the tree afterwards and the leaf that the resolver names.
pub open spec fn drive(r: ResolverView, tree: DirTree, ids: Seq<i64>) -> (DirTree, Option<i64>)
    decreases r.steps_left(),
{
    match r.request() {
        DirRequestView::Done { leaf } => (tree, leaf),
        DirRequestView::Find { parent, name } => drive(
            r.answer(DirReply::Found(tree.find(parent, name))),
            tree,
            ids,
        ),
        DirRequestView::Create { name } => drive(
            r.answer(DirReply::Created(ids[0])),
            tree.create(ids[0], name),
            ids.drop_first(),
        ),
        DirRequestView::Link { node, parent } => drive(
            r.answer(DirReply::Linked),
            tree.link(node, parent),
            ids,
        ),
    }
}

/// In a well-formed tree a lookup has one possible answer.
pub proof fn lemma_find_is(tree: DirTree, node: i64, parent: Option<i64>, name: Seq<char>)
    requires
        tree.well_formed(),
        tree.is_child(node, parent, name),
    ensures
        tree.find(parent, name) == Some(node),
{
    let found = choose|n: i64| tree.is_child(n, parent, name);
    assert(tree.linked(node) && tree.linked(found));
}

/// Inserting a folder that was not there keeps the tree well-formed.
proof fn lemma_insert_keeps_form(tree: DirTree, id: i64, at: Option<i64>, name: Seq<char>)
    requires
        tree.well_formed(),
        tree.holds(at),
        !tree.names.contains_key(id),
        tree.find(at, name) is None,
    ensures
        tree.create(id, name).link(id, at).well_formed(),
        tree.within(tree.create(id, name).link(id, at)),
        tree.create(id, name).link(id, at).node_count() == tree.node_count() + 1,
        tree.create(id, name).link(id, at).find(at, name) == Some(id),
        forall|other: Seq<char>| tree.create(id, name).link(id, at).find(Some(id), other) is None,
{
    let grown = tree.create(id, name).link(id, at);
    assert(!tree.parents.contains_key(id));
    assert forall|a: i64, b: i64|
        #![trigger grown.linked(a), grown.linked(b)]
        grown.linked(a) && grown.linked(b) && grown.parents[a] == grown.parents[b]
            && grown.names[a] == grown.names[b] implies a == b by {
        if a == id && b != id {
            assert(tree.is_child(b, at, name));
        } else if b == id && a != id {
            assert(tree.is_child(a, at, name));
        } else if a != id && b != id {
            assert(tree.linked(a) && tree.linked(b));
        }
    }
    assert forall|node: i64| #[trigger]
        grown.parents.contains_key(node) implies grown.names.contains_key(node) && grown.holds(
        grown.parents[node],
    ) by {
        if node != id {
            assert(tree.parents.contains_key(node));
        }
    }
    assert(grown.is_child(id, at, name));
    lemma_find_is(grown, id, at, name);
    assert forall|other: Seq<char>| grown.find(Some(id), other) is None by {
        if grown.has_child(Some(id), other) {
            let child = choose|n: i64| grown.is_child(n, Some(id), other);
            if child != id {
                assert(tree.parents.contains_key(child));
            }
        }
    }
}

/// Folders that exist are found again in any well-formed tree that holds
/// everything the first one held.
proof fn lemma_walk_survives(
    tree: DirTree,
    later: DirTree,
    names: Seq<Seq<char>>,
    from: int,
    at: Option<i64>,
)
    requires
        later.well_formed(),
        tree.within(later),
        0 <= from,
    ensures
        tree.find(at, names[from]) matches Some(node) ==> later.find(at, names[from]) == Some(node),
{
    if tree.has_child(at, names[from]) {
        let node = choose|n: i64| tree.is_child(n, at, names[from]);
        assert(later.is_child(node, at, names[from]));
        lemma_find_is(later, node, at, names[from]);
    }
}

/// What one run of the resolver from `names[from]` under `at` does to a
/// well-formed tree.
pub proof fn lemma_drive(
    tree: DirTree,
    names: Seq<Seq<char>>,
    from: int,
    at: Option<i64>,
    ids: Seq<i64>,
)
    requires
        tree.well_formed(),
        tree.holds(at),
        0 <= from <= names.len(),
        unused_ids(tree, ids),
        ids.len() >= names.len() - from,
    ensures
        ({
            let (after, leaf) = drive(seeking(names, from, at), tree, ids);
            &&& after.well_formed()
            &&& tree.within(after)
            &&& after.holds(leaf)
            &&& after.walk(names, from, at) == Some(leaf)
            &&& after.node_count() == tree.node_count() + (names.len() - from) - tree.reach(
                names,
                from,
                at,
            )
        }),
    decreases names.len() - from,
{
    let r = seeking(names, from, at);
    if from < names.len() {
        let name = names[from];
        match tree.find(at, name) {
            Some(node) => {
                let next = r.answer(DirReply::Found(Some(node)));
                assert(next == seeking(names, from + 1, Some(node)));
                assert(drive(r, tree, ids) == drive(next, tree, ids));
                let found = choose|n: i64| tree.is_child(n, at, name);
                assert(tree.is_child(found, at, name));
                lemma_drive(tree, names, from + 1, Some(node), ids);
                let (after, leaf) = drive(next, tree, ids);
                lemma_walk_survives(tree, after, names, from, at);
            },
            None => {
                let id = ids[0];
                let missing = r.answer(DirReply::Found(None));
                let unlinked = missing.answer(DirReply::Created(id));
                let next = unlinked.answer(DirReply::Linked);
                let made = tree.create(id, name);
                let grown = made.link(id, at);
                let rest = ids.drop_first();
                assert(next == seeking(names, from + 1, Some(id)));
                assert(drive(r, tree, ids) == drive(missing, tree, ids));
                assert(drive(missing, tree, ids) == drive(unlinked, made, rest));
                assert(drive(unlinked, made, rest) == drive(next, grown, rest));
                lemma_insert_keeps_form(tree, id, at, name);
                assert(unused_ids(grown, rest)) by {
                    assert forall|i: int| 0 <= i < rest.len() implies !grown.names.contains_key(
                        #[trigger] rest[i],
                    ) by {
                        assert(rest[i] == ids[i + 1]);
                        assert(ids[0] != ids[i + 1]);
                    }
                    assert forall|i: int, j: int| 0 <= i < j < rest.len() implies #[trigger] rest[i]
                        != #[trigger] rest[j] by {
                        assert(rest[i] == ids[i + 1] && rest[j] == ids[j + 1]);
                    }
                }
                lemma_drive(grown, names, from + 1, Some(id), rest);
                let (after, leaf) = drive(next, grown, rest);
                assert(tree.within(after));
                lemma_walk_survives(grown, after, names, from, at);
                assert(grown.reach(names, from + 1, Some(id)) == 0);
            },
        }
    }
}

/// A path whose folders all exist is resolved without a single insert, and
/// to the folder that the walk ends in.
pub proof fn lemma_drive_existing(
    tree: DirTree,
    names: Seq<Seq<char>>,
    from: int,
    at: Option<i64>,
    ids: Seq<i64>,
)
    requires
        0 <= from <= names.len(),
        tree.walk(names, from, at) is Some,
    ensures
        drive(seeking(names, from, at), tree, ids) == (tree, tree.walk(names, from, at).unwrap()),
    decreases names.len() - from,
{
    let r = seeking(names, from, at);
    if from < names.len() {
        let node = tree.find(at, names[from]).unwrap();
        let next = r.answer(DirReply::Found(Some(node)));
        assert(next == seeking(names, from + 1, Some(node)));
        assert(drive(r, tree, ids) == drive(next, tree, ids));
        lemma_drive_existing(tree, names, from + 1, Some(node), ids);
    }
}

/// Resolving the same folders twice in a row gives the same leaf both times,
/// and the second run inserts nothing. After the first run every folder on
/// the path exists; it inserted one node for each folder that did not exist
/// before, and no two folders under one parent share a name.
pub proof fn lemma_resolve_twice(
    tree: DirTree,
    names: Seq<Seq<char>>,
    first_ids: Seq<i64>,
    second_ids: Seq<i64>,
)
    requires
        tree.well_formed(),
        unused_ids(tree, first_ids),
        first_ids.len() >= names.len(),
    ensures
        ({
            let (once, leaf) = drive(ResolverView::start(names), tree, first_ids);
            let (twice, again) = drive(ResolverView::start(names), once, second_ids);
            &&& again == leaf
            &&& twice == once
            &&& once.well_formed()
            &&& once.walk(names, 0, None) == Some(leaf)
            &&& once.reach(names, 0, None) == names.len()
            &&& once.node_count() == tree.node_count() + names.len() - tree.reach(names, 0, None)
        }),
{
    assert(ResolverView::start(names) == seeking(names, 0, None));
    lemma_drive(tree, names, 0, None, first_ids);
    let (once, leaf) = drive(seeking(names, 0, None), tree, first_ids);
    lemma_drive_existing(once, names, 0, None, second_ids);
    lemma_walk_reach(once, names, 0, None);
}

/// A walk that gets to the end passes through every folder.
pub proof fn lemma_walk_reach(tree: DirTree, names: Seq<Seq<char>>, from: int, at: Option<i64>)
    requires
        0 <= from <= names.len(),
        tree.walk(names, from, at) is Some,
    ensures
        tree.reach(names, from, at) == names.len() - from,
    decreases names.len() - from,
{
    if from < names.len() {
        let node = tree.find(at, names[from]).unwrap();
        lemma_walk_reach(tree, names, from + 1, Some(node));
    }
}

/// The same, for the folders of an accepted upload path: two uploads to one
/// path land in one folder, and the second creates no folder.
pub proof fn lemma_resolve_path_twice(
    tree: DirTree,
    path: Seq<char>,
    first_ids: Seq<i64>,
    second_ids: Seq<i64>,
)
    requires
        path_fault(path) is None,
        tree.well_formed(),
        unused_ids(tree, first_ids),
        first_ids.len() >= path_folders(path).len(),
    ensures
        ({
            let names = path_folders(path);
            let (once, leaf) = drive(ResolverView::start(names), tree, first_ids);
            let (twice, again) = drive(ResolverView::start(names), once, second_ids);
            &&& again == leaf
            &&& twice == once
            &&& once.well_formed()
            &&& once.node_count() == tree.node_count() + names.len() - tree.reach(names, 0, None)
        }),
{
    lemma_resolve_twice(tree, path_folders(path), first_ids, second_ids);
}

/// Folders that one path has walked are there for any path that starts with
/// the same names.
pub proof fn lemma_reach_shared(
    tree: DirTree,
    walked: Seq<Seq<char>>,
    names: Seq<Seq<char>>,
    shared: int,
    from: int,
    at: Option<i64>,
)
    requires
        0 <= from <= shared,
        shared <= walked.len(),
        shared <= names.len(),
        forall|i: int| from <= i < shared ==> walked[i] == names[i],
        tree.walk(walked, from, at) is Some,
    ensures
        tree.reach(names, from, at) >= shared - from,
    decreases shared - from,
{
    if from < shared {
        assert(walked[from] == names[from]);
        let node = tree.find(at, walked[from]).unwrap();
        lemma_reach_shared(tree, walked, names, shared, from + 1, Some(node));
    }
}

/// Two uploads whose paths start with the same folders share those folders:
/// after the first is resolved, resolving the second inserts a node for none
/// of the `shared` leading names, and the tree still has no two folders of
/// one name under one parent. The same holds with the uploads the other way
/// round, so the order in which two transactions run does not matter.
pub proof fn lemma_shared_folders(
    tree: DirTree,
    first: Seq<Seq<char>>,
    second: Seq<Seq<char>>,
    shared: int,
    first_ids: Seq<i64>,
    second_ids: Seq<i64>,
)
    requires
        tree.well_formed(),
        0 <= shared <= first.len(),
        shared <= second.len(),
        forall|i: int| 0 <= i < shared ==> first[i] == second[i],
        unused_ids(tree, first_ids),
        first_ids.len() >= first.len(),
        unused_ids(drive(ResolverView::start(first), tree, first_ids).0, second_ids),
        second_ids.len() >= second.len(),
    ensures
        ({
            let (once, _) = drive(ResolverView::start(first), tree, first_ids);
            let (both, leaf) = drive(ResolverView::start(second), once, second_ids);
            &&& both.well_formed()
            &&& both.walk(second, 0, None) == Some(leaf)
            &&& both.node_count() <= once.node_count() + second.len() - shared
        }),
{
    assert(ResolverView::start(first) == seeking(first, 0, None));
    assert(ResolverView::start(second) == seeking(second, 0, None));
    lemma_drive(tree, first, 0, None, first_ids);
    let (once, _) = drive(seeking(first, 0, None), tree, first_ids);
    lemma_reach_shared(once, first, second, shared, 0, None);
    lemma_drive(once, second, 0, None, second_ids);
}

} // verus!
