use reamio::error::ReamioProcessingErrorInternal;
use reamio::ingest::{ItemJob, ItemReply, ItemRequest, PendingUpload};
use reamio::path::parse_upload_path;
use reamio::tags::TagFields;

fn refusal(path: &str) -> String {
    parse_upload_path(path).unwrap_err().msg
}

#[test]
fn nested_path_is_cut_into_folders_and_filename() {
    let parts = parse_upload_path("/A/B/x.mp3").unwrap();
    assert_eq!(parts.folders, vec!["A".to_string(), "B".to_string()]);
    assert_eq!(parts.filename, "x.mp3");
}

#[test]
fn file_at_the_root_has_no_folders() {
    let parts = parse_upload_path("/song.flac").unwrap();
    assert!(parts.folders.is_empty());
    assert_eq!(parts.filename, "song.flac");
}

#[test]
fn pieces_are_stored_trimmed() {
    let parts = parse_upload_path("/  Rock \t/ Live 1999 /\u{3000}intro.mp3\u{a0}\n").unwrap();
    assert_eq!(parts.folders, vec!["Rock".to_string(), "Live 1999".to_string()]);
    assert_eq!(parts.filename, "intro.mp3");
}

#[test]
fn inner_white_space_is_kept() {
    let parts = parse_upload_path("/My  Music/a b.mp3").unwrap();
    assert_eq!(parts.folders, vec!["My  Music".to_string()]);
    assert_eq!(parts.filename, "a b.mp3");
}

#[test]
fn path_without_leading_slash_is_refused() {
    assert_eq!(refusal("A/B/x.mp3"), "the path is not absolute");
    assert_eq!(refusal("x.mp3"), "the path is not absolute");
    assert_eq!(refusal(" /A/x.mp3"), "the path is not absolute");
}

#[test]
fn root_path_is_refused_for_its_empty_filename() {
    assert_eq!(refusal("/"), "filename \"\" was trimmed into emptyness");
}

#[test]
fn empty_path_is_refused_as_empty() {
    assert_eq!(refusal(""), "path contains nothing, not even a filename");
}

#[test]
fn blank_path_is_refused_as_empty() {
    assert_eq!(refusal(" \t\r\n"), "path contains nothing, not even a filename");
}

#[test]
fn trailing_slash_leaves_no_filename() {
    assert_eq!(refusal("/A/B/"), "filename \"\" was trimmed into emptyness");
    assert_eq!(refusal("/A/  "), "filename \"  \" was trimmed into emptyness");
}

#[test]
fn blank_folder_is_refused_and_quoted_untrimmed() {
    assert_eq!(refusal("/A//x.mp3"), "folder \"\" was trimmed into emptyness");
    assert_eq!(refusal("/A/ \t/x.mp3"), "folder \" \t\" was trimmed into emptyness");
    assert_eq!(refusal("//x.mp3"), "folder \"\" was trimmed into emptyness");
}

#[test]
fn leftmost_blank_folder_is_the_one_reported() {
    assert_eq!(refusal("/A/ /B/\t/x.mp3"), "folder \" \" was trimmed into emptyness");
}

#[test]
fn blank_filename_is_reported_before_blank_folders() {
    assert_eq!(refusal("/ / "), "filename \" \" was trimmed into emptyness");
}

#[test]
fn every_unicode_space_is_trimmed() {
    let spaces = [
        '\u{9}', '\u{a}', '\u{b}', '\u{c}', '\u{d}', '\u{20}', '\u{85}', '\u{a0}', '\u{1680}',
        '\u{2000}', '\u{2001}', '\u{2002}', '\u{2003}', '\u{2004}', '\u{2005}', '\u{2006}',
        '\u{2007}', '\u{2008}', '\u{2009}', '\u{200a}', '\u{2028}', '\u{2029}', '\u{202f}',
        '\u{205f}', '\u{3000}',
    ];
    for c in spaces {
        let path = format!("/{c}name{c}");
        assert_eq!(parse_upload_path(&path).unwrap().filename, "name");
    }
}

#[test]
fn characters_next_to_the_spaces_are_not_trimmed() {
    for c in ['\u{8}', '\u{e}', '\u{1f}', '\u{21}', '\u{200b}', '\u{feff}', '\u{2060}'] {
        let path = format!("/{c}name{c}");
        assert_eq!(parse_upload_path(&path).unwrap().filename, format!("{c}name{c}"));
    }
}

#[test]
fn trimming_agrees_with_the_standard_library() {
    let paths = [
        "/a/b/c",
        "/ a / b / c ",
        "/\u{2003}x\u{2003}/\u{1680}y.ogg\u{205f}",
        "/one/two three/  four\tfive  ",
    ];
    for path in paths {
        let parts = parse_upload_path(path).unwrap();
        let mut pieces: Vec<&str> = path.split('/').skip(1).collect();
        let filename = pieces.pop().unwrap();
        assert_eq!(parts.filename, filename.trim());
        let folders: Vec<String> = pieces.iter().map(|p| p.trim().to_string()).collect();
        assert_eq!(parts.folders, folders);
    }
}

fn item_outcome(path: &str) -> Result<i64, ReamioProcessingErrorInternal> {
    let upload = PendingUpload { fid: 1, user: "ann".to_string(), path: path.to_string() };
    let tags = TagFields { title: Some("t".to_string()), artist: None, album: None };
    let mut job = ItemJob::new(upload);
    assert!(matches!(job.request(), ItemRequest::Begin));
    job = job.answer(ItemReply::Began);
    assert!(matches!(job.request(), ItemRequest::ReadTags { .. }));
    job = job.answer(ItemReply::Tags(tags));
    assert!(matches!(job.request(), ItemRequest::Abandon));
    job.into_result().unwrap()
}

#[test]
fn item_with_relative_path_fails_with_a_path_error() {
    match item_outcome("A/x.mp3") {
        Err(ReamioProcessingErrorInternal::PathError(e)) => {
            assert_eq!(e.msg, "the path is not absolute")
        }
        _ => panic!("a relative path must be refused"),
    }
}

#[test]
fn item_with_root_or_empty_path_fails_with_a_path_error() {
    for (path, msg) in [
        ("/", "filename \"\" was trimmed into emptyness"),
        ("", "path contains nothing, not even a filename"),
    ] {
        match item_outcome(path) {
            Err(ReamioProcessingErrorInternal::PathError(e)) => assert_eq!(e.msg, msg),
            _ => panic!("the path must be refused"),
        }
    }
}
