use id3::TagLike;
use reamio::error::ReamioProcessingErrorInternal;
use reamio::tags::{extract_tags, settle, vorbis_fields, wants_parse, TagFields, TagReaderKind, VorbisBlock};
use std::cell::RefCell;
use std::io::Cursor;

type Failure = ReamioProcessingErrorInternal;

fn flac_failure() -> Failure {
    Failure::MetaFlac(metaflac::Error::new(metaflac::ErrorKind::InvalidInput, "broken"))
}

fn id3_failure() -> Failure {
    Failure::ID3(id3::Error::new(id3::ErrorKind::Parsing, "broken"))
}

fn fields(title: Option<&str>, artist: Option<&str>, album: Option<&str>) -> TagFields {
    TagFields {
        title: title.map(str::to_string),
        artist: artist.map(str::to_string),
        album: album.map(str::to_string),
    }
}

fn shown(t: &TagFields) -> (Option<&str>, Option<&str>, Option<&str>) {
    (t.title.as_deref(), t.artist.as_deref(), t.album.as_deref())
}

fn block(title: &[&str], artist: &[&str], album: &[&str]) -> VorbisBlock {
    let own = |v: &[&str]| v.iter().map(|s| s.to_string()).collect::<Vec<String>>();
    VorbisBlock { title: own(title), artist: own(artist), album: own(album) }
}

/// Asks the ID3 or the FLAC library whether `bytes` is its kind of file.
fn probe(kind: TagReaderKind, bytes: &[u8]) -> Result<Option<bool>, Failure> {
    match kind {
        TagReaderKind::Id3 => Ok(Some(id3::Tag::is_candidate(Cursor::new(bytes))?)),
        TagReaderKind::Vorbis => Ok(Some(metaflac::Tag::is_candidate(&mut Cursor::new(bytes)))),
    }
}

/// Has the ID3 or the FLAC library read the fields of `bytes`.
fn parse(kind: TagReaderKind, bytes: &[u8]) -> Result<TagFields, Failure> {
    match kind {
        TagReaderKind::Id3 => {
            let tag = id3::Tag::read_from2(Cursor::new(bytes))?;
            Ok(fields(tag.title(), tag.artist(), tag.album()))
        }
        TagReaderKind::Vorbis => {
            let tag = metaflac::Tag::read_from(&mut Cursor::new(bytes))?;
            let mut blocks = Vec::new();
            for b in tag.get_blocks(metaflac::BlockType::VorbisComment) {
                if let metaflac::Block::VorbisComment(vc) = b {
                    blocks.push(VorbisBlock {
                        title: vc.title().cloned().unwrap_or_default(),
                        artist: vc.artist().cloned().unwrap_or_default(),
                        album: vc.album().cloned().unwrap_or_default(),
                    });
                }
            }
            Ok(vorbis_fields(&blocks))
        }
    }
}

fn read(bytes: &[u8]) -> Result<TagFields, Failure> {
    extract_tags(|kind| probe(kind, bytes), |kind| parse(kind, bytes))
}

fn id3_file(title: &str, artist: &str, album: &str) -> Vec<u8> {
    let mut tag = id3::Tag::new();
    tag.set_title(title);
    tag.set_artist(artist);
    tag.set_album(album);
    let mut bytes = Vec::new();
    tag.write_to(&mut bytes, id3::Version::Id3v24).unwrap();
    bytes.extend_from_slice(&[0xff, 0xfb, 0x90, 0x00, 0, 0, 0, 0]);
    bytes
}

fn flac_file(comments: &[(&str, &[&str])]) -> Vec<u8> {
    let mut tag = metaflac::Tag::new();
    for (key, values) in comments {
        tag.set_vorbis(*key, values.to_vec());
    }
    let mut bytes = Vec::new();
    tag.write_to(&mut bytes).unwrap();
    bytes
}

#[test]
fn id3_file_yields_title_artist_album() {
    let tags = read(&id3_file("Song", "Band", "LP")).unwrap();
    assert_eq!(shown(&tags), (Some("Song"), Some("Band"), Some("LP")));
}

#[test]
fn flac_file_yields_the_first_value_of_each_field() {
    let bytes = flac_file(&[("TITLE", &["Song", "Other"]), ("ARTIST", &["Band"]), ("GENRE", &["x"])]);
    let tags = read(&bytes).unwrap();
    assert_eq!(shown(&tags), (Some("Song"), Some("Band"), None));
}

#[test]
fn file_that_no_reader_takes_has_no_tags() {
    let tags = read(b"RIFFxxxxAVI just some bytes, long enough to be probed").unwrap();
    assert_eq!(shown(&tags), (None, None, None));
    let tags = read(b"").unwrap();
    assert_eq!(shown(&tags), (None, None, None));
}

#[test]
fn readers_are_tried_in_order_id3_then_vorbis() {
    let calls = RefCell::new(Vec::new());
    let result = extract_tags(
        |kind| {
            calls.borrow_mut().push(("probe", kind));
            Ok(Some(false))
        },
        |kind| {
            calls.borrow_mut().push(("parse", kind));
            Ok(fields(Some("never"), None, None))
        },
    );
    assert_eq!(shown(&result.unwrap()), (None, None, None));
    assert_eq!(
        calls.into_inner(),
        vec![("probe", TagReaderKind::Id3), ("probe", TagReaderKind::Vorbis)]
    );
}

#[test]
fn reader_that_says_yes_ends_the_chain() {
    let calls = RefCell::new(Vec::new());
    let result = extract_tags(
        |kind| {
            calls.borrow_mut().push(("probe", kind));
            Ok(Some(true))
        },
        |kind| {
            calls.borrow_mut().push(("parse", kind));
            Ok(fields(Some("T"), None, None))
        },
    );
    assert_eq!(shown(&result.unwrap()), (Some("T"), None, None));
    assert_eq!(calls.into_inner(), vec![("probe", TagReaderKind::Id3), ("parse", TagReaderKind::Id3)]);
}

#[test]
fn failure_of_a_reader_that_said_yes_is_fatal() {
    let result = extract_tags(|_| Ok(Some(true)), |_| Err(id3_failure()));
    assert!(matches!(result, Err(Failure::ID3(_))));
    let result = extract_tags(
        |kind| Ok(Some(kind == TagReaderKind::Vorbis)),
        |_| Err(flac_failure()),
    );
    assert!(matches!(result, Err(Failure::MetaFlac(_))));
}

#[test]
fn failure_of_a_reader_that_could_not_tell_falls_through() {
    let result = extract_tags(
        |_| Ok(None),
        |kind| match kind {
            TagReaderKind::Id3 => Err(id3_failure()),
            TagReaderKind::Vorbis => Ok(fields(None, Some("Band"), None)),
        },
    );
    assert_eq!(shown(&result.unwrap()), (None, Some("Band"), None));
    let result = extract_tags(|_| Ok(None), |_| Err(flac_failure()));
    assert_eq!(shown(&result.unwrap()), (None, None, None));
}

#[test]
fn success_of_a_reader_that_could_not_tell_ends_the_chain() {
    let calls = RefCell::new(0);
    let result = extract_tags(
        |_| {
            *calls.borrow_mut() += 1;
            Ok(None)
        },
        |_| Ok(fields(Some("guess"), None, None)),
    );
    assert_eq!(shown(&result.unwrap()), (Some("guess"), None, None));
    assert_eq!(calls.into_inner(), 1);
}

#[test]
fn failed_probe_is_fatal() {
    let result = extract_tags(|_| Err(id3_failure()), |_| Ok(fields(None, None, None)));
    assert!(matches!(result, Err(Failure::ID3(_))));
}

#[test]
fn broken_id3_header_fails_the_item() {
    let mut bytes = id3_file("Song", "Band", "LP");
    bytes[3] = 9;
    assert!(matches!(read(&bytes), Err(Failure::ID3(_))));
}

#[test]
fn step_functions_follow_the_table() {
    assert!(wants_parse(Some(true)));
    assert!(!wants_parse(Some(false)));
    assert!(wants_parse(None));
    assert_eq!(settle::<u8, u8>(Some(true), Ok(1)), Some(Ok(1)));
    assert_eq!(settle::<u8, u8>(Some(true), Err(2)), Some(Err(2)));
    assert_eq!(settle::<u8, u8>(Some(false), Ok(1)), None);
    assert_eq!(settle::<u8, u8>(Some(false), Err(2)), None);
    assert_eq!(settle::<u8, u8>(None, Ok(1)), Some(Ok(1)));
    assert_eq!(settle::<u8, u8>(None, Err(2)), None);
}

#[test]
fn vorbis_blocks_without_values_give_no_fields() {
    assert_eq!(shown(&vorbis_fields(&Vec::new())), (None, None, None));
    assert_eq!(shown(&vorbis_fields(&vec![block(&[], &[], &[])])), (None, None, None));
}

#[test]
fn later_vorbis_block_overrides_an_earlier_one_field_by_field() {
    let blocks = vec![
        block(&["first", "ignored"], &["Band"], &[]),
        block(&["second"], &[], &["LP"]),
        block(&[], &[], &[]),
    ];
    assert_eq!(shown(&vorbis_fields(&blocks)), (Some("second"), Some("Band"), Some("LP")));
}

#[test]
fn no_tags_is_empty() {
    assert_eq!(shown(&TagFields::none()), (None, None, None));
}
