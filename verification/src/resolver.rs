//! Directory resolver: walks a list of folder names down the directory tree
//! that the database holds, making the folders that are not there yet.
//!
//! The tree lives in the database, so the resolver does not touch it. It says
//! what it needs next ([`DirectoryResolver::request`]) and is told what came
//! back ([`DirectoryResolver::answer`]). Whoever drives it performs each
//! request inside the item's write transaction.

use vstd::prelude::*;

verus! {

/// What the resolver needs from the database next.
#[derive(Debug)]
pub enum DirRequest {
    /// Look for the folder called `name` directly under `parent` (`None`: the
    /// root). Answered by [`DirReply::Found`].
    Find { parent: Option<i64>, name: String },
    /// Insert a directory node called `name`. Answered by
    /// [`DirReply::Created`] with the new node's id.
    Create { name: String },
    /// Insert the edge that puts `node` under `parent`. Answered by
    /// [`DirReply::Linked`].
    Link { node: i64, parent: Option<i64> },
    /// Nothing more: every folder is resolved and `leaf` is the innermost one
    /// (`None`: the file sits at the root).
    Done { leaf: Option<i64> },
}

/// What the database said to a [`DirRequest`].
#[derive(Clone, Copy, Debug)]
pub enum DirReply {
    /// The folder that was looked for, if there is one.
    Found(Option<i64>),
    /// The id of the node that was inserted.
    Created(i64),
    /// The edge was inserted.
    Linked,
}

/// A [`DirRequest`] as plain values.
pub enum DirRequestView {
    Find { parent: Option<i64>, name: Seq<char> },
    Create { name: Seq<char> },
    Link { node: i64, parent: Option<i64> },
    Done { leaf: Option<i64> },
}

impl View for DirRequest {
    type V = DirRequestView;

    open spec fn view(&self) -> DirRequestView {
        match *self {
            DirRequest::Find { parent, name } => DirRequestView::Find { parent, name: name@ },
            DirRequest::Create { name } => DirRequestView::Create { name: name@ },
            DirRequest::Link { node, parent } => DirRequestView::Link { node, parent },
            DirRequest::Done { leaf } => DirRequestView::Done { leaf },
        }
    }
}

/// Where the resolver stands with the folder it is working on.
#[derive(Clone, Copy, Debug, PartialEq, Eq, Structural)]
pub enum DirStage {
    /// It has to be looked up.
    Seeking,
    /// It was not found and has to be inserted.
    Missing,
    /// Its node was inserted under this id and has to be linked.
    Unlinked(i64),
}

/// The resolver's state as plain values.
pub struct ResolverView {
    /// The folder names to walk, outermost first.
    pub names: Seq<Seq<char>>,
    /// How many of them are resolved.
    pub depth: int,
    /// The node reached so far (`None`: still at the root).
    pub at: Option<i64>,
    /// Where the folder at `depth` stands.
    pub stage: DirStage,
}

impl ResolverView {
    /// The state before the first request.
    pub open spec fn start(names: Seq<Seq<char>>) -> ResolverView {
        ResolverView { names, depth: 0, at: None, stage: DirStage::Seeking }
    }

    pub open spec fn well_formed(self) -> bool {
        &&& 0 <= self.depth <= self.names.len()
        &&& self.depth == self.names.len() ==> self.stage == DirStage::Seeking
    }

    /// Every folder is resolved.
    pub open spec fn finished(self) -> bool {
        self.depth >= self.names.len()
    }

    /// What is needed next.
    pub open spec fn request(self) -> DirRequestView {
        if self.finished() {
            DirRequestView::Done { leaf: self.at }
        } else {
            match self.stage {
                DirStage::Seeking => DirRequestView::Find {
                    parent: self.at,
                    name: self.names[self.depth],
                },
                DirStage::Missing => DirRequestView::Create { name: self.names[self.depth] },
                DirStage::Unlinked(node) => DirRequestView::Link { node, parent: self.at },
            }
        }
    }

    /// Whether `reply` is the kind of answer that the pending request gets.
    pub open spec fn expects(self, reply: DirReply) -> bool {
        !self.finished() && match (self.stage, reply) {
            (DirStage::Seeking, DirReply::Found(_)) => true,
            (DirStage::Missing, DirReply::Created(_)) => true,
            (DirStage::Unlinked(_), DirReply::Linked) => true,
            _ => false,
        }
    }

    /// The state after `reply`. A reply that the pending request does not
    /// expect changes nothing.
    pub open spec fn answer(self, reply: DirReply) -> ResolverView {
        if !self.expects(reply) {
            self
        } else {
            match (self.stage, reply) {
                (DirStage::Seeking, DirReply::Found(Some(node))) => ResolverView {
                    depth: self.depth + 1,
                    at: Some(node),
                    stage: DirStage::Seeking,
                    ..self
                },
                (DirStage::Seeking, DirReply::Found(None)) => ResolverView {
                    stage: DirStage::Missing,
                    ..self
                },
                (DirStage::Missing, DirReply::Created(node)) => ResolverView {
                    stage: DirStage::Unlinked(node),
                    ..self
                },
                (DirStage::Unlinked(node), DirReply::Linked) => ResolverView {
                    depth: self.depth + 1,
                    at: Some(node),
                    stage: DirStage::Seeking,
                    ..self
                },
                _ => self,
            }
        }
    }

    /// Requests still to come, at most: three for each folder not yet
    /// resolved, less those already made for the current one.
    pub open spec fn steps_left(self) -> nat {
        if self.finished() {
            0
        } else {
            let ahead = 3 * (self.names.len() - self.depth);
            match self.stage {
                DirStage::Seeking => ahead as nat,
                DirStage::Missing => (ahead - 1) as nat,
                DirStage::Unlinked(_) => (ahead - 2) as nat,
            }
        }
    }
}

/// Walks folder names down the directory tree, one database request at a
/// time.
#[derive(Debug)]
pub struct DirectoryResolver {
    names: Vec<String>,
    depth: usize,
    at: Option<i64>,
    stage: DirStage,
}

impl View for DirectoryResolver {
    type V = ResolverView;

    closed spec fn view(&self) -> ResolverView {
        ResolverView {
            names: self.names.deep_view(),
            depth: self.depth as int,
            at: self.at,
            stage: self.stage,
        }
    }
}

impl DirectoryResolver {
    #[verifier::type_invariant]
    spec fn inv(self) -> bool {
        self@.well_formed()
    }

    /// A resolver for `names`, outermost folder first, standing at the root.
    pub fn new(names: Vec<String>) -> (r: DirectoryResolver)
        ensures
            r@ == ResolverView::start(names.deep_view()),
            r@.well_formed(),
    {
        DirectoryResolver { names, depth: 0, at: None, stage: DirStage::Seeking }
    }

    /// What the resolver needs next. Asking again before answering gives the
    /// same request.
    pub fn request(&self) -> (req: DirRequest)
        ensures
            req@ == self@.request(),
            self@.well_formed(),
    {
        proof {
            use_type_invariant(self);
        }
        if self.depth >= self.names.len() {
            DirRequest::Done { leaf: self.at }
        } else {
            proof {
                assert(self.names.deep_view()[self.depth as int] == self.names@[self.depth as int]@);
            }
            match self.stage {
                DirStage::Seeking => DirRequest::Find {
                    parent: self.at,
                    name: self.names[self.depth].clone(),
                },
                DirStage::Missing => DirRequest::Create { name: self.names[self.depth].clone() },
                DirStage::Unlinked(node) => DirRequest::Link { node, parent: self.at },
            }
        }
    }

    /// Takes in the database's answer to the pending request. An answer of
    /// the wrong kind, or any answer once the resolver is done, is ignored.
    pub fn answer(&mut self, reply: DirReply)
        ensures
            final(self)@ == old(self)@.answer(reply),
            final(self)@.well_formed(),
    {
        proof {
            use_type_invariant(&*self);
        }
        if self.depth >= self.names.len() {
            return ;
        }
        match (self.stage, reply) {
            (DirStage::Seeking, DirReply::Found(Some(node))) => {
                self.depth = self.depth + 1;
                self.at = Some(node);
                self.stage = DirStage::Seeking;
            },
            (DirStage::Seeking, DirReply::Found(None)) => {
                self.stage = DirStage::Missing;
            },
            (DirStage::Missing, DirReply::Created(node)) => {
                self.stage = DirStage::Unlinked(node);
            },
            (DirStage::Unlinked(node), DirReply::Linked) => {
                self.stage = DirStage::Seeking;
                self.at = Some(node);
                self.depth = self.depth + 1;
            },
            _ => {},
        }
    }

    /// Whether every folder is resolved.
    pub fn is_done(&self) -> (done: bool)
        ensures
            done == self@.finished(),
    {
        self.depth >= self.names.len()
    }
}

} // verus!
