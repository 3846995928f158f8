//! Tag reader chain: which of the readers gets to say what a file's title,
//! artist and album are.
//!
//! The readers are tried in a fixed order. Each is first asked whether the
//! file is its kind (yes, no, or that it cannot tell), and the answer decides
//! whether its parse is used, skipped, or tried with the next reader as a
//! fallback. A file that no reader takes has no tags.
//!
//! Probing and parsing read the staged file, so both are handed in by the
//! caller; the chain decides what is called and what its result means.

use crate::error::ReamioProcessingErrorInternal;
use vstd::prelude::*;

verus! {

/// The readers there are.
#[derive(Clone, Copy, Debug, PartialEq, Eq, Structural)]
pub enum TagReaderKind {
    /// ID3 tags, as found in mp3, wav and aiff files.
    Id3,
    /// Vorbis comments, as found in flac and ogg files.
    Vorbis,
}

/// How many readers there are.
pub const READER_COUNT: usize = 2;

/// The order in which the readers are tried.
pub open spec fn reader_order() -> Seq<TagReaderKind> {
    seq![TagReaderKind::Id3, TagReaderKind::Vorbis]
}

/// The well-known fields that a reader found, as raw text.
#[derive(Debug)]
pub struct TagFields {
    pub title: Option<String>,
    pub artist: Option<String>,
    pub album: Option<String>,
}

/// [`TagFields`] as plain values.
pub struct TagFieldsView {
    pub title: Option<Seq<char>>,
    pub artist: Option<Seq<char>>,
    pub album: Option<Seq<char>>,
}

impl TagFieldsView {
    /// No field at all.
    pub open spec fn none() -> TagFieldsView {
        TagFieldsView { title: None, artist: None, album: None }
    }
}

/// The text of an optional string.
pub open spec fn text_of(s: Option<String>) -> Option<Seq<char>> {
    match s {
        Some(s) => Some(s@),
        None => None,
    }
}

impl View for TagFields {
    type V = TagFieldsView;

    open spec fn view(&self) -> TagFieldsView {
        TagFieldsView {
            title: text_of(self.title),
            artist: text_of(self.artist),
            album: text_of(self.album),
        }
    }
}

impl TagFields {
    /// No field at all: what a file has that no reader takes.
    pub fn none() -> (t: TagFields)
        ensures
            t@ == TagFieldsView::none(),
    {
        TagFields { title: None, artist: None, album: None }
    }
}

/// The values that one Vorbis comment block lists under `TITLE`, `ARTIST`
/// and `ALBUM`, each in the block's order; empty where the block has no such
/// comment.
#[derive(Debug)]
pub struct VorbisBlock {
    pub title: Vec<String>,
    pub artist: Vec<String>,
    pub album: Vec<String>,
}

/// The first value of the last of `lists` that has one.
pub open spec fn last_first(lists: Seq<Seq<Seq<char>>>) -> Option<Seq<char>>
    decreases lists.len(),
{
    if lists.len() == 0 {
        None
    } else if lists.last().len() > 0 {
        Some(lists.last()[0])
    } else {
        last_first(lists.drop_last())
    }
}

/// The title lists of `blocks`, one per block.
pub open spec fn title_lists(blocks: Seq<VorbisBlock>) -> Seq<Seq<Seq<char>>> {
    blocks.map_values(|b: VorbisBlock| b.title.deep_view())
}

/// The artist lists of `blocks`, one per block.
pub open spec fn artist_lists(blocks: Seq<VorbisBlock>) -> Seq<Seq<Seq<char>>> {
    blocks.map_values(|b: VorbisBlock| b.artist.deep_view())
}

/// The album lists of `blocks`, one per block.
pub open spec fn album_lists(blocks: Seq<VorbisBlock>) -> Seq<Seq<Seq<char>>> {
    blocks.map_values(|b: VorbisBlock| b.album.deep_view())
}

/// What the Vorbis reader makes of a file's comment blocks: for each field
/// the first value that a block lists, and where several blocks list one, the
/// last of them.
pub open spec fn vorbis_fields_of(blocks: Seq<VorbisBlock>) -> TagFieldsView {
    TagFieldsView {
        title: last_first(title_lists(blocks)),
        artist: last_first(artist_lists(blocks)),
        album: last_first(album_lists(blocks)),
    }
}

/// Replaces `field` by the first of `values`, if there is one.
fn take_first(field: &mut Option<String>, values: &Vec<String>)
    ensures
        text_of(*final(field)) == if values.deep_view().len() > 0 {
            Some(values.deep_view()[0])
        } else {
            text_of(*old(field))
        },
{
    if values.len() > 0 {
        proof {
            assert(values.deep_view()[0] == values@[0]@);
        }
        *field = Some(values[0].clone());
    }
}

/// The fields that the Vorbis reader reports for a file with these comment
/// blocks, in the file's order.
pub fn vorbis_fields(blocks: &Vec<VorbisBlock>) -> (t: TagFields)
    ensures
        t@ == vorbis_fields_of(blocks@),
{
    let mut t = TagFields::none();
    let mut i: usize = 0;
    while i < blocks.len()
        invariant
            0 <= i <= blocks.len(),
            t@ == vorbis_fields_of(blocks@.take(i as int)),
        decreases blocks.len() - i,
    {
        let block = &blocks[i];
        proof {
            let seen = blocks@.take(i as int);
            let more = blocks@.take(i + 1);
            assert(more.drop_last() == seen);
            assert(more.last() == blocks@[i as int]);
            assert(title_lists(more).drop_last() == title_lists(seen));
            assert(artist_lists(more).drop_last() == artist_lists(seen));
            assert(album_lists(more).drop_last() == album_lists(seen));
        }
        take_first(&mut t.title, &block.title);
        take_first(&mut t.artist, &block.artist);
        take_first(&mut t.album, &block.album);
        i = i + 1;
    }
    proof {
        assert(blocks@.take(blocks.len() as int) == blocks@);
    }
    t
}

/// Whether a reader that answered `candidate` is asked to parse: only one
/// that said no is not.
pub open spec fn parses(candidate: Option<bool>) -> bool {
    candidate != Some(false)
}

/// What a reader's parse means for the chain, given what the reader said of
/// the file. `Some` ends the chain with that result; `None` passes on to the
/// next reader.
///
/// A reader that said yes owns the file: its result stands, a failure too. A
/// reader that could not tell is taken at its word only when it succeeds.
pub open spec fn settled<T, E>(candidate: Option<bool>, parsed: Result<T, E>) -> Option<
    Result<T, E>,
> {
    match candidate {
        Some(true) => Some(parsed),
        Some(false) => None,
        None => match parsed {
            Ok(fields) => Some(Ok(fields)),
            Err(_) => None,
        },
    }
}

/// Whether a reader that answered `candidate` is asked to parse.
pub fn wants_parse(candidate: Option<bool>) -> (b: bool)
    ensures
        b == parses(candidate),
{
    match candidate {
        Some(false) => false,
        _ => true,
    }
}

/// What a reader's parse means for the chain: `Some` ends it with that
/// result, `None` passes on to the next reader.
pub fn settle<T, E>(candidate: Option<bool>, parsed: Result<T, E>) -> (step: Option<Result<T, E>>)
    ensures
        step == settled(candidate, parsed),
{
    match candidate {
        Some(true) => Some(parsed),
        Some(false) => None,
        None => match parsed {
            Ok(fields) => Some(Ok(fields)),
            Err(_) => None,
        },
    }
}

/// The reader at place `i` in the order.
fn reader_at(i: usize) -> (kind: TagReaderKind)
    requires
        i < READER_COUNT,
    ensures
        READER_COUNT == reader_order().len(),
        kind == reader_order()[i as int],
{
    if i == 0 {
        TagReaderKind::Id3
    } else {
        TagReaderKind::Vorbis
    }
}

/// Whether `result` is what the chain may return when it starts with the
/// reader at place `from`, given what `probe` and `parse` can answer.
///
/// Past the last reader the result is no tags. Before that, the reader is
/// probed. A failed probe is the result. A reader that said no is passed
/// over. Any other is asked to parse, and [`settled`] says whether its answer
/// is the result or the next reader is tried.
pub open spec fn chain_allows<P, G>(
    probe: P,
    parse: G,
    from: int,
    result: Result<TagFields, ReamioProcessingErrorInternal>,
) -> bool where
    P: Fn(TagReaderKind) -> Result<Option<bool>, ReamioProcessingErrorInternal>,
    G: Fn(TagReaderKind) -> Result<TagFields, ReamioProcessingErrorInternal>,

    decreases reader_order().len() - from,
{
    if from < 0 || from >= reader_order().len() {
        result matches Ok(fields) && fields@ == TagFieldsView::none()
    } else {
        exists|probed: Result<Option<bool>, ReamioProcessingErrorInternal>| #[trigger]
            call_ensures(probe, (reader_order()[from],), probed) && match probed {
                Err(e) => result == Err::<TagFields, ReamioProcessingErrorInternal>(e),
                Ok(candidate) => if !parses(candidate) {
                    chain_allows(probe, parse, from + 1, result)
                } else {
                    exists|parsed: Result<TagFields, ReamioProcessingErrorInternal>| #[trigger]
                        call_ensures(parse, (reader_order()[from],), parsed) && match settled(
                            candidate,
                            parsed,
                        ) {
                            Some(out) => result == out,
                            None => chain_allows(probe, parse, from + 1, result),
                        }
                },
            }
    }
}

/// Runs the chain from the reader at place `from`.
fn extract_from<P, G>(probe: &P, parse: &G, from: usize) -> (result: Result<
    TagFields,
    ReamioProcessingErrorInternal,
>) where
    P: Fn(TagReaderKind) -> Result<Option<bool>, ReamioProcessingErrorInternal>,
    G: Fn(TagReaderKind) -> Result<TagFields, ReamioProcessingErrorInternal>,

    requires
        from <= READER_COUNT,
        forall|kind: TagReaderKind| call_requires(*probe, (kind,)),
        forall|kind: TagReaderKind| call_requires(*parse, (kind,)),
    ensures
        chain_allows(*probe, *parse, from as int, result),
    decreases READER_COUNT - from,
{
    assert(READER_COUNT == reader_order().len());
    if from >= READER_COUNT {
        return Ok(TagFields::none());
    }
    let kind = reader_at(from);
    let probed = probe(kind);
    let candidate = match probed {
        Ok(candidate) => candidate,
        Err(e) => {
            return Err(e);
        },
    };
    if !wants_parse(candidate) {
        return extract_from(probe, parse, from + 1);
    }
    let parsed = parse(kind);
    match settle(candidate, parsed) {
        Some(out) => out,
        None => extract_from(probe, parse, from + 1),
    }
}

/// Finds a file's tags: tries the readers in their order and returns what
/// the first one that takes the file reports.
///
/// `probe` asks a reader whether the file is its kind: `Some(true)`,
/// `Some(false)`, or `None` when the reader cannot tell. `parse` has a reader
/// read the file's fields. A reader is parsed only after it was probed and
/// did not say no, and no reader is tried once one has given the result.
pub fn extract_tags<P, G>(probe: P, parse: G) -> (result: Result<
    TagFields,
    ReamioProcessingErrorInternal,
>) where
    P: Fn(TagReaderKind) -> Result<Option<bool>, ReamioProcessingErrorInternal>,
    G: Fn(TagReaderKind) -> Result<TagFields, ReamioProcessingErrorInternal>,

    requires
        forall|kind: TagReaderKind| call_requires(probe, (kind,)),
        forall|kind: TagReaderKind| call_requires(parse, (kind,)),
    ensures
        chain_allows(probe, parse, 0, result),
{
    extract_from(&probe, &parse, 0)
}

/// A file that every reader says no to has no tags, and no reader is asked
/// to parse it.
pub proof fn lemma_no_reader_takes<P, G>(
    probe: P,
    parse: G,
    result: Result<TagFields, ReamioProcessingErrorInternal>,
) where
    P: Fn(TagReaderKind) -> Result<Option<bool>, ReamioProcessingErrorInternal>,
    G: Fn(TagReaderKind) -> Result<TagFields, ReamioProcessingErrorInternal>,

    requires
        chain_allows(probe, parse, 0, result),
        forall|kind: TagReaderKind, probed: Result<Option<bool>, ReamioProcessingErrorInternal>|
            call_ensures(probe, (kind,), probed) ==> probed == Ok::<
                Option<bool>,
                ReamioProcessingErrorInternal,
            >(Some(false)),
    ensures
        result matches Ok(fields) && fields@ == TagFieldsView::none(),
{
    assert(reader_order().len() == 2);
    assert(chain_allows(probe, parse, 1, result));
    assert(chain_allows(probe, parse, 2, result));
}

/// When the first reader says yes, the chain returns what that reader's
/// parse returned, a failure too, and asks no other reader.
pub proof fn lemma_first_reader_takes<P, G>(
    probe: P,
    parse: G,
    result: Result<TagFields, ReamioProcessingErrorInternal>,
) where
    P: Fn(TagReaderKind) -> Result<Option<bool>, ReamioProcessingErrorInternal>,
    G: Fn(TagReaderKind) -> Result<TagFields, ReamioProcessingErrorInternal>,

    requires
        chain_allows(probe, parse, 0, result),
        forall|probed: Result<Option<bool>, ReamioProcessingErrorInternal>|
            call_ensures(probe, (TagReaderKind::Id3,), probed) ==> probed == Ok::<
                Option<bool>,
                ReamioProcessingErrorInternal,
            >(Some(true)),
    ensures
        call_ensures(parse, (TagReaderKind::Id3,), result),
{
    assert(reader_order().len() == 2);
    assert(reader_order()[0] == TagReaderKind::Id3);
}

/// A reader that cannot tell and then fails to parse is passed over: when
/// every reader is like that, the file has no tags.
pub proof fn lemma_unsure_readers_fall_through<P, G>(
    probe: P,
    parse: G,
    result: Result<TagFields, ReamioProcessingErrorInternal>,
) where
    P: Fn(TagReaderKind) -> Result<Option<bool>, ReamioProcessingErrorInternal>,
    G: Fn(TagReaderKind) -> Result<TagFields, ReamioProcessingErrorInternal>,

    requires
        chain_allows(probe, parse, 0, result),
        forall|kind: TagReaderKind, probed: Result<Option<bool>, ReamioProcessingErrorInternal>|
            call_ensures(probe, (kind,), probed) ==> probed == Ok::<
                Option<bool>,
                ReamioProcessingErrorInternal,
            >(None),
        forall|kind: TagReaderKind, parsed: Result<TagFields, ReamioProcessingErrorInternal>|
            call_ensures(parse, (kind,), parsed) ==> parsed is Err,
    ensures
        result matches Ok(fields) && fields@ == TagFieldsView::none(),
{
    assert(reader_order().len() == 2);
    assert(chain_allows(probe, parse, 1, result));
    assert(chain_allows(probe, parse, 2, result));
}

} // verus!
