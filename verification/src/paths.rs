//! Deriving local file names and paths from candidate URLs.

use vstd::prelude::*;

use crate::strutil::{last_occurrence, lemma_last_occurrence, rfind_char};

verus! {

/// The final path segment of a URL: everything after the last '/'
/// (the whole string when no '/' occurs).
pub open spec fn final_segment(url: Seq<char>) -> Seq<char> {
    url.subrange(last_occurrence(url, '/') + 1, url.len() as int)
}

/// A URL yields a local file name only when its final segment is non-empty.
pub open spec fn has_file_name(url: Seq<char>) -> bool {
    final_segment(url).len() > 0
}

/// The final segment has an extension when it holds a '.' that is not its
/// first character; a name that is nothing but a leading dot has none.
pub open spec fn has_extension(url: Seq<char>) -> bool {
    last_occurrence(final_segment(url), '.') > 0
}

/// The characters of the final segment after its last '.'.
pub open spec fn extension_spec(url: Seq<char>) -> Seq<char> {
    let seg = final_segment(url);
    seg.subrange(last_occurrence(seg, '.') + 1, seg.len() as int)
}

/// `dir` joined with `name` by a single '/' separator.
pub open spec fn joined_path(dir: Seq<char>, name: Seq<char>) -> Seq<char> {
    dir + seq!['/'] + name
}

/// The local file name a URL downloads to: its final path segment.
pub fn file_name(url: &str) -> (r: Option<String>)
    ensures
        match r {
            Some(n) => has_file_name(url@) && n@ == final_segment(url@),
            None => !has_file_name(url@),
        },
{
    let n = url.unicode_len();
    let start: usize = match rfind_char(url, '/') {
        Some(i) => {
            proof {
                lemma_last_occurrence(url@, '/');
            }
            i + 1
        },
        None => 0,
    };
    if start == n {
        None
    } else {
        Some(String::from_str(url.substring_char(start, n)))
    }
}

/// The extension of a URL's final segment, if it has one.
pub fn extension(url: &str) -> (r: Option<String>)
    ensures
        match r {
            Some(e) => has_extension(url@) && e@ == extension_spec(url@),
            None => !has_extension(url@),
        },
{
    let seg = match file_name(url) {
        Some(s) => s,
        None => {
            proof {
                assert(final_segment(url@) =~= Seq::<char>::empty());
            }
            return None;
        },
    };
    let seg_len = seg.as_str().unicode_len();
    match rfind_char(seg.as_str(), '.') {
        Some(j) => {
            if j > 0 {
                Some(String::from_str(seg.as_str().substring_char(j + 1, seg_len)))
            } else {
                None
            }
        },
        None => None,
    }
}

/// `dir` joined with `name` by a single '/'.
pub fn join_path(dir: &str, name: &str) -> (r: String)
    ensures
        r@ == joined_path(dir@, name@),
{
    let mut s = String::from_str(dir);
    s.append("/");
    s.append(name);
    proof {
        reveal_strlit("/");
        assert(s@ =~= joined_path(dir@, name@));
    }
    s
}

} // verus!
