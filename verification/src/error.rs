//! Error taxonomy of the ingestion pipeline.
//!
//! Four sources can end the processing of an item: the database, the file
//! system, the client's path, and the tag libraries. Each has its variant, and
//! each outside error converts into its variant unchanged.

use vstd::prelude::*;
use vstd::std_specs::convert::FromSpecImpl;

verus! {

/// `sqlx::Error`: a database failure. Nothing is claimed of its contents; the
/// value is carried through.
#[verifier::external_type_specification]
#[verifier::external_body]
pub struct ExSqlxError(sqlx::Error);

/// `std::io::Error`: a file-system failure. Nothing is claimed of its
/// contents; the value is carried through.
#[verifier::external_type_specification]
#[verifier::external_body]
pub struct ExIoError(std::io::Error);

/// `id3::Error`: a failure of the ID3 tag library. Nothing is claimed of its
/// contents; the value is carried through.
#[verifier::external_type_specification]
#[verifier::external_body]
pub struct ExId3Error(id3::Error);

/// `metaflac::Error`: a failure of the FLAC metadata library. Nothing is
/// claimed of its contents; the value is carried through.
#[verifier::external_type_specification]
#[verifier::external_body]
pub struct ExMetaflacError(metaflac::Error);

/// A virtual path, or one of its pieces, was refused.
#[derive(Debug)]
pub struct ReamioPathError {
    /// Which check failed, and on which piece.
    pub msg: String,
}

/// Everything that can end the processing of one uploaded item.
#[derive(Debug)]
pub enum ReamioProcessingErrorInternal {
    /// The database refused or failed a statement.
    SQL(sqlx::Error),
    /// The staged file could not be read or moved.
    IO(std::io::Error),
    /// The client's path was refused.
    PathError(ReamioPathError),
    /// The ID3 reader failed on a file it had claimed.
    ID3(id3::Error),
    /// The FLAC reader failed on a file it had claimed.
    MetaFlac(metaflac::Error),
}

/// A [`ReamioProcessingErrorInternal`] as plain values: a refused path is its
/// message, and an outside error is itself.
pub enum ProcessingErrorView {
    SQL(sqlx::Error),
    IO(std::io::Error),
    PathError(Seq<char>),
    ID3(id3::Error),
    MetaFlac(metaflac::Error),
}

impl View for ReamioProcessingErrorInternal {
    type V = ProcessingErrorView;

    open spec fn view(&self) -> ProcessingErrorView {
        match *self {
            ReamioProcessingErrorInternal::SQL(e) => ProcessingErrorView::SQL(e),
            ReamioProcessingErrorInternal::IO(e) => ProcessingErrorView::IO(e),
            ReamioProcessingErrorInternal::PathError(e) => ProcessingErrorView::PathError(e.msg@),
            ReamioProcessingErrorInternal::ID3(e) => ProcessingErrorView::ID3(e),
            ReamioProcessingErrorInternal::MetaFlac(e) => ProcessingErrorView::MetaFlac(e),
        }
    }
}

impl From<sqlx::Error> for ReamioProcessingErrorInternal {
    fn from(value: sqlx::Error) -> (e: Self) {
        ReamioProcessingErrorInternal::SQL(value)
    }
}

impl FromSpecImpl<sqlx::Error> for ReamioProcessingErrorInternal {
    open spec fn obeys_from_spec() -> bool {
        true
    }

    open spec fn from_spec(value: sqlx::Error) -> Self {
        ReamioProcessingErrorInternal::SQL(value)
    }
}

impl From<std::io::Error> for ReamioProcessingErrorInternal {
    fn from(value: std::io::Error) -> (e: Self) {
        ReamioProcessingErrorInternal::IO(value)
    }
}

impl FromSpecImpl<std::io::Error> for ReamioProcessingErrorInternal {
    open spec fn obeys_from_spec() -> bool {
        true
    }

    open spec fn from_spec(value: std::io::Error) -> Self {
        ReamioProcessingErrorInternal::IO(value)
    }
}

impl From<ReamioPathError> for ReamioProcessingErrorInternal {
    fn from(value: ReamioPathError) -> (e: Self) {
        ReamioProcessingErrorInternal::PathError(value)
    }
}

impl FromSpecImpl<ReamioPathError> for ReamioProcessingErrorInternal {
    open spec fn obeys_from_spec() -> bool {
        true
    }

    open spec fn from_spec(value: ReamioPathError) -> Self {
        ReamioProcessingErrorInternal::PathError(value)
    }
}

impl From<id3::Error> for ReamioProcessingErrorInternal {
    fn from(value: id3::Error) -> (e: Self) {
        ReamioProcessingErrorInternal::ID3(value)
    }
}

impl FromSpecImpl<id3::Error> for ReamioProcessingErrorInternal {
    open spec fn obeys_from_spec() -> bool {
        true
    }

    open spec fn from_spec(value: id3::Error) -> Self {
        ReamioProcessingErrorInternal::ID3(value)
    }
}

impl From<metaflac::Error> for ReamioProcessingErrorInternal {
    fn from(value: metaflac::Error) -> (e: Self) {
        ReamioProcessingErrorInternal::MetaFlac(value)
    }
}

impl FromSpecImpl<metaflac::Error> for ReamioProcessingErrorInternal {
    open spec fn obeys_from_spec() -> bool {
        true
    }

    open spec fn from_spec(value: metaflac::Error) -> Self {
        ReamioProcessingErrorInternal::MetaFlac(value)
    }
}

} // verus!
