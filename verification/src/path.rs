//! Virtual upload paths: what a client may send, and how it is cut into
//! folder names and a file name.
//!
//! A path is accepted when it is not blank, starts with `/`, and every piece
//! between slashes still holds something after trimming. The pieces before the
//! last are folders, the last is the file name; all are stored trimmed.

use crate::error::ReamioPathError;
use crate::text::{
    chars_of, is_blank, is_space, is_space_char, leading_spaces, lemma_first_slash_is,
    lemma_leading_spaces, lemma_leading_spaces_is, lemma_split_slash, lemma_trailing_spaces,
    lemma_trailing_spaces_is, lemma_trimmed_edges, lemma_trimmed_empty, split_slash, trimmed,
};
use vstd::prelude::*;
use vstd::string::*;

verus! {

/// Why a path is refused.
pub enum PathFault {
    /// Nothing but white space.
    Blank,
    /// The first character is not `/`.
    NotAbsolute,
    /// The last piece trims to nothing.
    BlankFilename,
    /// The folder piece at this position trims to nothing.
    BlankFolder(int),
}

/// The pieces after the leading slash, untrimmed.
pub open spec fn raw_pieces(path: Seq<char>) -> Seq<Seq<char>> {
    split_slash(path.skip(1))
}

/// The untrimmed folder pieces: all but the last.
pub open spec fn raw_folders(path: Seq<char>) -> Seq<Seq<char>> {
    raw_pieces(path).drop_last()
}

/// The untrimmed file name: the last piece.
pub open spec fn raw_filename(path: Seq<char>) -> Seq<char> {
    raw_pieces(path).last()
}

/// Position of the first folder piece at or after `from` that trims to
/// nothing, or `folders.len()` when every one of them holds something.
pub open spec fn first_blank(folders: Seq<Seq<char>>, from: int) -> int
    decreases folders.len() - from,
{
    if from < 0 || from >= folders.len() {
        folders.len() as int
    } else if is_blank(folders[from]) {
        from
    } else {
        first_blank(folders, from + 1)
    }
}

/// The first reason to refuse `path`, in the order in which the checks are
/// made: blank, not absolute, blank file name, blank folder (leftmost).
pub open spec fn path_fault(path: Seq<char>) -> Option<PathFault> {
    if is_blank(path) {
        Some(PathFault::Blank)
    } else if path[0] != '/' {
        Some(PathFault::NotAbsolute)
    } else if is_blank(raw_filename(path)) {
        Some(PathFault::BlankFilename)
    } else if first_blank(raw_folders(path), 0) < raw_folders(path).len() {
        Some(PathFault::BlankFolder(first_blank(raw_folders(path), 0)))
    } else {
        None
    }
}

/// The text of the error that reports `fault` on `path`.
pub open spec fn fault_message(path: Seq<char>, fault: PathFault) -> Seq<char> {
    match fault {
        PathFault::Blank => "path contains nothing, not even a filename"@,
        PathFault::NotAbsolute => "the path is not absolute"@,
        PathFault::BlankFilename => "filename \""@ + raw_filename(path)
            + "\" was trimmed into emptyness"@,
        PathFault::BlankFolder(i) => "folder \""@ + raw_folders(path)[i]
            + "\" was trimmed into emptyness"@,
    }
}

/// The folder names of an accepted path, outermost first.
pub open spec fn path_folders(path: Seq<char>) -> Seq<Seq<char>> {
    raw_folders(path).map_values(|piece: Seq<char>| trimmed(piece))
}

/// The file name of an accepted path.
pub open spec fn path_filename(path: Seq<char>) -> Seq<char> {
    trimmed(raw_filename(path))
}

/// An accepted upload path, cut up.
#[derive(Debug)]
pub struct UploadPath {
    /// Folder names from the root down; empty when the file sits at the root.
    pub folders: Vec<String>,
    /// The file name.
    pub filename: String,
}

impl UploadPath {
    /// The folder names as plain text.
    pub open spec fn folder_names(self) -> Seq<Seq<char>> {
        self.folders.deep_view()
    }

    /// No name is blank, none holds a slash, none has white space at an edge.
    pub open spec fn well_formed(self) -> bool {
        &&& is_name(self.filename@)
        &&& forall|i: int| 0 <= i < self.folder_names().len() ==> is_name(
            #[trigger] self.folder_names()[i],
        )
    }
}

/// What a stored folder or file name looks like: something is there, no
/// slash is in it, and trimming would change nothing.
pub open spec fn is_name(s: Seq<char>) -> bool {
    &&& s.len() > 0
    &&& trimmed(s) == s
    &&& forall|i: int| 0 <= i < s.len() ==> #[trigger] s[i] != '/'
}

/// Ranges `[lo, hi)` of character positions, each naming a stretch of `s`.
pub open spec fn stretches(s: Seq<char>, ranges: Seq<(usize, usize)>) -> Seq<Seq<char>> {
    ranges.map_values(|r: (usize, usize)| s.subrange(r.0 as int, r.1 as int))
}

/// Cuts `chars`, which starts with `/`, at its later slashes.
fn piece_ranges(chars: &Vec<char>) -> (ranges: Vec<(usize, usize)>)
    requires
        chars@.len() > 0,
        chars@[0] == '/',
    ensures
        ranges@.len() >= 1,
        forall|k: int|
            0 <= k < ranges@.len() ==> 1 <= (#[trigger] ranges@[k]).0 <= ranges@[k].1
                <= chars@.len(),
        stretches(chars@, ranges@) == raw_pieces(chars@),
{
    let n = chars.len();
    let mut ranges: Vec<(usize, usize)> = Vec::new();
    let mut start: usize = 1;
    let mut i: usize = 1;
    proof {
        assert(chars@.skip(1) == chars@.skip(start as int));
        assert(stretches(chars@, ranges@) == Seq::<Seq<char>>::empty());
        assert(Seq::<Seq<char>>::empty() + split_slash(chars@.skip(1)) == split_slash(
            chars@.skip(1),
        ));
    }
    while i < n
        invariant
            n == chars@.len(),
            1 <= start <= i <= n,
            forall|j: int| start <= j < i ==> chars@[j] != '/',
            forall|k: int|
                0 <= k < ranges@.len() ==> 1 <= (#[trigger] ranges@[k]).0 <= ranges@[k].1 <= n,
            raw_pieces(chars@) == stretches(chars@, ranges@) + split_slash(
                chars@.skip(start as int),
            ),
        decreases n - i,
    {
        if chars[i] == '/' {
            proof {
                let rest = chars@.skip(start as int);
                assert forall|j: int| 0 <= j < i - start implies #[trigger] rest[j] != '/' by {
                    assert(rest[j] == chars@[start + j]);
                }
                assert(rest[i - start] == '/');
                lemma_first_slash_is(rest, i - start);
                assert(rest.take(i - start) == chars@.subrange(start as int, i as int));
                assert(rest.skip(i - start + 1) == chars@.skip(i + 1));
                let grown = ranges@.push((start, i));
                assert(stretches(chars@, grown) == stretches(chars@, ranges@) + seq![
                    chars@.subrange(start as int, i as int),
                ]);
                assert(stretches(chars@, ranges@) + split_slash(rest) == stretches(chars@, grown)
                    + split_slash(chars@.skip(i + 1)));
            }
            ranges.push((start, i));
            start = i + 1;
        }
        i = i + 1;
    }
    proof {
        let rest = chars@.skip(start as int);
        assert forall|j: int| 0 <= j < rest.len() implies #[trigger] rest[j] != '/' by {
            assert(rest[j] == chars@[start + j]);
        }
        lemma_first_slash_is(rest, rest.len() as int);
        assert(rest == chars@.subrange(start as int, n as int));
        let grown = ranges@.push((start, n));
        assert(stretches(chars@, grown) == stretches(chars@, ranges@) + seq![rest]);
    }
    ranges.push((start, n));
    ranges
}

/// The stretch of `chars[lo..hi]` that trimming keeps.
fn trim_range(chars: &Vec<char>, lo: usize, hi: usize) -> (kept: (usize, usize))
    requires
        lo <= hi <= chars@.len(),
    ensures
        lo <= kept.0 <= kept.1 <= hi,
        chars@.subrange(kept.0 as int, kept.1 as int) == trimmed(
            chars@.subrange(lo as int, hi as int),
        ),
        kept.0 == kept.1 <==> is_blank(chars@.subrange(lo as int, hi as int)),
{
    let ghost piece = chars@.subrange(lo as int, hi as int);
    let mut a: usize = lo;
    while a < hi && is_space_char(chars[a])
        invariant
            lo <= a <= hi <= chars@.len(),
            forall|j: int| lo <= j < a ==> is_space(#[trigger] chars@[j]),
        decreases hi - a,
    {
        a = a + 1;
    }
    let mut b: usize = hi;
    while a < b && is_space_char(chars[b - 1])
        invariant
            lo <= a <= b <= hi <= chars@.len(),
            forall|j: int| b <= j < hi ==> is_space(#[trigger] chars@[j]),
        decreases b - a,
    {
        b = b - 1;
    }
    proof {
        assert forall|j: int| 0 <= j < a - lo implies is_space(#[trigger] piece[j]) by {
            assert(piece[j] == chars@[lo + j]);
        }
        if a < hi {
            assert(piece[a - lo] == chars@[a as int]);
        }
        lemma_leading_spaces_is(piece, a - lo);
        let rest = piece.skip(a - lo);
        assert(rest == chars@.subrange(a as int, hi as int));
        assert forall|j: int| rest.len() - (hi - b) <= j < rest.len() implies is_space(
            #[trigger] rest[j],
        ) by {
            assert(rest[j] == chars@[a + j]);
        }
        if hi - b < rest.len() {
            assert(rest[rest.len() - (hi - b) - 1] == chars@[b - 1]);
        }
        lemma_trailing_spaces_is(rest, hi - b);
        assert(rest.take(rest.len() - (hi - b)) == chars@.subrange(a as int, b as int));
        lemma_trimmed_empty(piece);
    }
    (a, b)
}

/// The stretch `[lo, hi)` of `path` as a string of its own.
fn cut(path: &str, lo: usize, hi: usize) -> (s: String)
    requires
        lo <= hi <= path@.len(),
    ensures
        s@ == path@.subrange(lo as int, hi as int),
{
    String::from_str(path.substring_char(lo, hi))
}

/// The error text for a piece that trims to nothing: the kind of piece, the
/// piece itself between quotes, and what went wrong.
fn blank_piece_message(kind: &str, piece: &str) -> (msg: String)
    ensures
        msg@ == kind@ + " \""@ + piece@ + "\" was trimmed into emptyness"@,
{
    let mut msg = String::from_str(kind);
    msg.append(" \"");
    msg.append(piece);
    msg.append("\" was trimmed into emptyness");
    msg
}

/// Accepts or refuses `path`, and cuts an accepted one into its trimmed
/// folder names and file name.
///
/// The checks come in a fixed order and the first that fails decides the
/// error: a blank path, a missing leading slash, a blank file name, then the
/// leftmost blank folder.
pub fn parse_upload_path(path: &str) -> (r: Result<UploadPath, ReamioPathError>)
    ensures
        match r {
            Ok(parts) => {
                &&& path_fault(path@) is None
                &&& parts.folder_names() == path_folders(path@)
                &&& parts.filename@ == path_filename(path@)
                &&& parts.well_formed()
            },
            Err(e) => {
                &&& path_fault(path@) matches Some(fault)
                &&& e.msg@ == fault_message(path@, fault)
            },
        },
{
    let chars = chars_of(path);
    let n = chars.len();
    let whole = trim_range(&chars, 0, n);
    proof {
        assert(chars@.subrange(0, n as int) == path@);
    }
    if whole.0 == whole.1 {
        return Err(
            ReamioPathError { msg: String::from_str("path contains nothing, not even a filename") },
        );
    }
    if chars[0] != '/' {
        return Err(ReamioPathError { msg: String::from_str("the path is not absolute") });
    }
    let ranges = piece_ranges(&chars);
    let last = ranges[ranges.len() - 1];
    let ghost pieces = raw_pieces(path@);
    proof {
        assert(pieces.last() == path@.subrange(last.0 as int, last.1 as int));
        lemma_split_slash(path@.skip(1));
    }
    let name = trim_range(&chars, last.0, last.1);
    if name.0 == name.1 {
        let raw = cut(path, last.0, last.1);
        let msg = blank_piece_message("filename", raw.as_str());
        proof {
            reveal_strlit("filename");
            reveal_strlit("filename \"");
            reveal_strlit(" \"");
            assert("filename"@ + " \""@ == "filename \""@);
            assert(msg@ == "filename \""@ + raw@ + "\" was trimmed into emptyness"@);
        }
        return Err(ReamioPathError { msg });
    }
    let filename = cut(path, name.0, name.1);
    let count = ranges.len() - 1;
    let ghost raws = raw_folders(path@);
    let mut folders: Vec<String> = Vec::new();
    let mut k: usize = 0;
    while k < count
        invariant
            chars@ == path@,
            count == ranges@.len() - 1,
            raws == raw_folders(path@),
            raws.len() == count,
            stretches(chars@, ranges@) == raw_pieces(path@),
            forall|j: int|
                0 <= j < ranges@.len() ==> 1 <= (#[trigger] ranges@[j]).0 <= ranges@[j].1
                    <= chars@.len(),
            0 <= k <= count,
            !is_blank(path@),
            path@[0] == '/',
            !is_blank(raw_filename(path@)),
            first_blank(raws, 0) == first_blank(raws, k as int),
            forall|j: int| 0 <= j < k ==> !is_blank(#[trigger] raws[j]),
            folders.deep_view() == raws.take(k as int).map_values(|p: Seq<char>| trimmed(p)),
        decreases count - k,
    {
        let range = ranges[k];
        proof {
            assert(raws[k as int] == stretches(chars@, ranges@)[k as int]);
            assert(raws[k as int] == path@.subrange(range.0 as int, range.1 as int));
        }
        let kept = trim_range(&chars, range.0, range.1);
        if kept.0 == kept.1 {
            let raw = cut(path, range.0, range.1);
            let msg = blank_piece_message("folder", raw.as_str());
            proof {
                reveal_strlit("folder");
                reveal_strlit("folder \"");
                reveal_strlit(" \"");
                assert("folder"@ + " \""@ == "folder \""@);
                assert(msg@ == "folder \""@ + raw@ + "\" was trimmed into emptyness"@);
                assert(first_blank(raws, 0) == k);
            }
            return Err(ReamioPathError { msg });
        }
        let folder = cut(path, kept.0, kept.1);
        proof {
            let before = folders.deep_view();
            let after = before.push(folder@);
            assert(raws.take(k + 1).map_values(|p: Seq<char>| trimmed(p)) == after) by {
                let lhs = raws.take(k + 1).map_values(|p: Seq<char>| trimmed(p));
                assert(lhs.len() == after.len());
                assert forall|j: int| 0 <= j < lhs.len() implies lhs[j] == after[j] by {
                    if j < k {
                        assert(raws.take(k + 1)[j] == raws.take(k as int)[j]);
                    }
                }
            }
        }
        folders.push(folder);
        proof {
            assert(folders.deep_view() == raws.take(k + 1).map_values(
                |p: Seq<char>| trimmed(p),
            )) by {
                let dv = folders.deep_view();
                let want = raws.take(k + 1).map_values(|p: Seq<char>| trimmed(p));
                assert(dv.len() == want.len());
                assert forall|j: int| 0 <= j < dv.len() implies dv[j] == want[j] by {
                    assert(dv[j] == folders@[j]@);
                }
            }
        }
        k = k + 1;
    }
    let parts = UploadPath { folders, filename };
    proof {
        assert(raws.take(count as int) == raws);
        assert(first_blank(raws, count as int) == raws.len());
        lemma_trimmed_edges(raw_filename(path@));
        lemma_trimmed_empty(raw_filename(path@));
        lemma_piece_names(path@);
        assert(parts.folder_names() == path_folders(path@));
        assert forall|i: int| 0 <= i < parts.folder_names().len() implies is_name(
            #[trigger] parts.folder_names()[i],
        ) by {
            assert(!is_blank(raws[i]));
            assert(is_name(path_folders(path@)[i]));
        }
    }
    Ok(parts)
}

/// On a path whose pieces all hold something, the trimmed pieces are names.
pub proof fn lemma_piece_names(path: Seq<char>)
    requires
        path.len() > 0,
        path[0] == '/',
    ensures
        !is_blank(raw_filename(path)) ==> is_name(path_filename(path)),
        forall|i: int|
            0 <= i < raw_folders(path).len() && !is_blank(raw_folders(path)[i]) ==> is_name(
                #[trigger] path_folders(path)[i],
            ),
{
    lemma_split_slash(path.skip(1));
    let pieces = raw_pieces(path);
    assert forall|k: int| 0 <= k < pieces.len() && !is_blank(pieces[k]) implies is_name(
        trimmed(#[trigger] pieces[k]),
    ) by {
        let p = pieces[k];
        lemma_trimmed_empty(p);
        lemma_trimmed_edges(p);
        lemma_leading_spaces(p);
        let rest = p.skip(leading_spaces(p) as int);
        lemma_trailing_spaces(rest);
        let t = trimmed(p);
        assert forall|i: int| 0 <= i < t.len() implies #[trigger] t[i] != '/' by {
            assert(t[i] == p[leading_spaces(p) + i]);
        }
    }
    assert(raw_filename(path) == pieces[pieces.len() - 1]);
    assert forall|i: int|
        0 <= i < raw_folders(path).len() && !is_blank(raw_folders(path)[i]) implies is_name(
        #[trigger] path_folders(path)[i],
    ) by {
        assert(raw_folders(path)[i] == pieces[i]);
    }
}

/// A path that does not start with a slash is refused, whatever else it
/// holds: as blank when it is, as not absolute otherwise.
pub proof fn lemma_relative_path_refused(path: Seq<char>)
    requires
        path.len() == 0 || path[0] != '/',
    ensures
        path_fault(path) == Some(
            if is_blank(path) {
                PathFault::Blank
            } else {
                PathFault::NotAbsolute
            },
        ),
{
}

} // verus!
