//! Records produced by directory traversal, and the pure classification
//! rules the traversal applies. Listing directories is I/O and stays with
//! the caller; deciding what a listed entry means is done here.

use vstd::prelude::*;

use crate::para::detect_para_category_spec;
use crate::para::detect_para_category;
use crate::text::chars_slice;
use crate::text::chars_to_string;
use crate::text::str_chars;

verus! {

/// A markdown document discovered during traversal.
pub struct DocumentInfo {
    /// Full path to the document.
    pub path: String,
    /// Path relative to the root directory, with `/` separators.
    pub relative_path: String,
    /// File name without the extension.
    pub stem: String,
    /// PARA category (`projects`, `areas`, `resources`, `archives`, or
    /// `root`).
    pub category: String,
}

/// A directory discovered during traversal.
pub struct DirectoryInfo {
    /// Path relative to the root directory.
    pub relative_path: String,
    /// PARA category derived from the path.
    pub category: String,
    /// Names of the direct subdirectories.
    pub subdirectories: Vec<String>,
    /// Number of markdown documents directly in this directory.
    pub document_count: usize,
}

/// A name is hidden when it begins with a dot; hidden directories are
/// skipped by traversal.
pub open spec fn is_hidden_name_spec(s: Seq<char>) -> bool {
    s.len() > 0 && s[0] == '.'
}

/// Whether a file or directory name is hidden (starts with a dot).
pub fn is_hidden_name(name: &str) -> (r: bool)
    ensures
        r == is_hidden_name_spec(name@),
{
    let v = str_chars(name);
    v.len() > 0 && v[0] == '.'
}

/// Index of the character starting the last path component of `s`
/// (just past the last `/`, or 0 when there is no `/`).
pub open spec fn last_component_start(s: Seq<char>) -> int
    decreases s.len(),
{
    if s.len() == 0 {
        0
    } else if s[s.len() - 1] == '/' {
        s.len() as int
    } else {
        last_component_start(s.drop_last())
    }
}

/// The file name of a path: everything after the final `/`.
pub open spec fn file_name_spec(s: Seq<char>) -> Seq<char> {
    s.subrange(last_component_start(s), s.len() as int)
}

/// Index of the dot starting the extension within a file name `name`
/// (the last `.`), or `name.len()` when the name has no extension.
/// A name that is only `.` or starts with its only `.` has no extension,
/// matching how file stems are usually read.
pub open spec fn stem_end(name: Seq<char>) -> int
    decreases name.len(),
{
    if name.len() == 0 {
        0
    } else if name[name.len() - 1] == '.' {
        if name.len() == 1 {
            1
        } else {
            (name.len() - 1) as int
        }
    } else {
        if stem_end(name.drop_last()) == name.len() - 1 {
            name.len() as int
        } else {
            stem_end(name.drop_last())
        }
    }
}

/// The stem of a file name: the part before the final `.`, with a
/// leading-dot-only name kept whole.
pub open spec fn file_stem_spec(s: Seq<char>) -> Seq<char> {
    file_name_spec(s).subrange(0, stem_end(file_name_spec(s)))
}

/// The extension of a file name: the part after the final `.`, empty when
/// there is none.
pub open spec fn extension_spec(s: Seq<char>) -> Seq<char> {
    let name = file_name_spec(s);
    if stem_end(name) == name.len() {
        Seq::empty()
    } else {
        name.subrange(stem_end(name) + 1, name.len() as int)
    }
}

/// Find where the last path component of `v` starts.
fn find_last_component_start(v: &Vec<char>) -> (r: usize)
    ensures
        r == last_component_start(v@),
        r <= v@.len(),
{
    proof {
        assert(v@.subrange(0, v@.len() as int) =~= v@);
    }
    let mut i: usize = v.len();
    while i > 0
        invariant
            i <= v@.len(),
            last_component_start(v@) == last_component_start(v@.subrange(0, i as int)),
        decreases i,
    {
        proof {
            assert(v@.subrange(0, i as int).drop_last() =~= v@.subrange(0, i as int - 1));
        }
        if v[i - 1] == '/' {
            proof {
                assert(v@.subrange(0, i as int)[i - 1] == v@[i - 1]);
                lemma_last_component_start_bounds(v@);
            }
            return i;
        }
        i = i - 1;
    }
    proof {
        assert(v@.subrange(0, 0) =~= Seq::<char>::empty());
    }
    0
}

/// `last_component_start` stays within the sequence.
proof fn lemma_last_component_start_bounds(s: Seq<char>)
    ensures
        0 <= last_component_start(s) <= s.len(),
    decreases s.len(),
{
    if s.len() > 0 && s[s.len() - 1] != '/' {
        lemma_last_component_start_bounds(s.drop_last());
    }
}

/// `stem_end` stays within the file name.
proof fn lemma_stem_end_bounds(s: Seq<char>)
    ensures
        0 <= stem_end(s) <= s.len(),
    decreases s.len(),
{
    if s.len() > 0 && s[s.len() - 1] != '.' {
        lemma_stem_end_bounds(s.drop_last());
    }
}

/// Find where the extension dot sits within the file name `name`
/// (as `stem_end`).
fn find_stem_end(name: &Vec<char>) -> (r: usize)
    ensures
        r == stem_end(name@),
        r <= name@.len(),
{
    proof {
        assert(name@.subrange(0, name@.len() as int) =~= name@);
    }
    let mut i: usize = name.len();
    while i > 0
        invariant
            i <= name@.len(),
            stem_end(name@) == if stem_end(name@.subrange(0, i as int)) == i {
                name@.len() as int
            } else {
                stem_end(name@.subrange(0, i as int))
            },
        decreases i,
    {
        proof {
            assert(name@.subrange(0, i as int).drop_last() =~= name@.subrange(0, i as int - 1));
            assert(name@.subrange(0, i as int)[i - 1] == name@[i - 1]);
            lemma_stem_end_bounds(name@.subrange(0, i as int - 1));
        }
        if name[i - 1] == '.' {
            if i == 1 {
                return name.len();
            } else {
                return i - 1;
            }
        }
        i = i - 1;
    }
    proof {
        assert(name@.subrange(0, 0) =~= Seq::<char>::empty());
    }
    name.len()
}

/// The file name of a path (everything after the final `/`).
pub fn file_name_of(path: &str) -> (r: String)
    ensures
        r@ == file_name_spec(path@),
{
    let v = str_chars(path);
    let start = find_last_component_start(&v);
    let name = chars_slice(&v, start, v.len());
    chars_to_string(&name)
}

/// The stem of a path's file name (before the final `.`).
pub fn file_stem_of(path: &str) -> (r: String)
    ensures
        r@ == file_stem_spec(path@),
{
    let v = str_chars(path);
    let start = find_last_component_start(&v);
    let name = chars_slice(&v, start, v.len());
    let end = find_stem_end(&name);
    let stem = chars_slice(&name, 0, end);
    chars_to_string(&stem)
}

/// The extension of a path's file name (after the final `.`), empty when
/// there is none.
pub fn extension_of(path: &str) -> (r: String)
    ensures
        r@ == extension_spec(path@),
{
    let v = str_chars(path);
    let start = find_last_component_start(&v);
    let name = chars_slice(&v, start, v.len());
    let end = find_stem_end(&name);
    if end == name.len() {
        String::new()
    } else {
        let ext = chars_slice(&name, end + 1, name.len());
        chars_to_string(&ext)
    }
}

/// The path with its extension removed: the directory part unchanged,
/// the file name cut down to its stem.
pub open spec fn path_no_ext_spec(s: Seq<char>) -> Seq<char> {
    s.subrange(0, last_component_start(s) + stem_end(file_name_spec(s)))
}

/// Remove the extension from a path's file name.
pub fn path_no_ext_of(path: &str) -> (r: String)
    ensures
        r@ == path_no_ext_spec(path@),
{
    let v = str_chars(path);
    let start = find_last_component_start(&v);
    let name = chars_slice(&v, start, v.len());
    let end = find_stem_end(&name);
    let cut = chars_slice(&v, 0, start + end);
    proof {
        assert(name@ == file_name_spec(path@));
    }
    chars_to_string(&cut)
}

/// A traversal entry is recorded iff it is a file whose extension is `md`.
pub open spec fn is_markdown_path_spec(s: Seq<char>) -> bool {
    extension_spec(s) == "md"@
}

/// Whether a path names a markdown file.
pub fn is_markdown_path(path: &str) -> (r: bool)
    ensures
        r == is_markdown_path_spec(path@),
{
    let ext = extension_of(path);
    crate::text::str_eq(ext.as_str(), "md")
}

/// What traversal records for a markdown file found at `relative_path`
/// under the root at `path`: the stem and the PARA category, both derived
/// from the relative path.
pub fn classify_markdown_file(path: String, relative_path: String) -> (r: DocumentInfo)
    ensures
        r.path == path,
        r.relative_path == relative_path,
        r.stem@ == file_stem_spec(relative_path@),
        r.category@ == detect_para_category_spec(relative_path@),
{
    let stem = file_stem_of(relative_path.as_str());
    let category = detect_para_category(relative_path.as_str());
    DocumentInfo { path, relative_path, stem, category }
}

} // verus!
