//! Ingestion core of a personal media library server.
//!
//! Clients upload audio files. Each upload is staged on disk and recorded as
//! pending. A background loop then turns every pending upload into a track:
//! it reads the file's tags, finds or makes the folders of the path that the
//! client asked for, inserts the track with its album and artist, and moves
//! the file to its place among the owner's files.
//!
//! The library decides; it does not touch the database or the disk. Each
//! part that works with them is a machine that says what it needs next and is
//! told what came back, so that the same code runs against a real database, a
//! test double, or the models that the laws are proved about.
//!
//! - [`scheduler`]: the wake signal and the loop over the pending uploads.
//! - [`ingest`]: one upload, from its transaction's begin to its commit.
//! - [`tags`]: the chain of tag readers.
//! - [`path`], [`text`]: what a client's path may look like and how it is cut.
//! - [`resolver`], [`tree`]: the folders, and the model of the directory tree.
//! - [`committer`], [`catalog`]: the rows, and the model of the catalogue.
//! - [`relocate`]: where staged and stored files live.
//! - [`library`]: the model of everything that one upload can change.
//! - [`listing`], [`pages`]: the library as a web page.
//! - [`error`]: what can go wrong.

pub mod catalog;
pub mod committer;
pub mod error;
pub mod ingest;
pub mod library;
pub mod listing;
pub mod pages;
pub mod path;
pub mod relocate;
pub mod resolver;
pub mod scheduler;
pub mod tags;
pub mod text;
pub mod tree;
