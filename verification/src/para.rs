//! PARA structure detection and organization: every document belongs to
//! one of four fixed categories taken from the first component of its
//! relative path, or to the sentinel `root` category.

use vstd::prelude::*;
use vstd::string::StringExecFns;

use crate::error::ParaSsgError;
use crate::fsinfo::DocumentInfo;
use crate::text::chars_slice;
use crate::text::chars_eq_str;
use crate::text::chars_to_string;
use crate::text::index_of_char_from;
use crate::text::find_char_from;
use crate::text::str_chars;
use crate::text::str_eq;

verus! {

/// Whether `s` is one of the four PARA category names.
pub open spec fn is_para_category_spec(s: Seq<char>) -> bool {
    s == "projects"@ || s == "areas"@ || s == "resources"@ || s == "archives"@
}

/// Whether a name is one of the four PARA category names.
pub fn is_para_category(s: &str) -> (r: bool)
    ensures
        r == is_para_category_spec(s@),
{
    str_eq(s, "projects") || str_eq(s, "areas") || str_eq(s, "resources") || str_eq(s, "archives")
}

/// The first component of a path: the characters before the first `/`
/// (the whole path when it has no `/`).
pub open spec fn first_component_spec(s: Seq<char>) -> Seq<char> {
    s.subrange(0, index_of_char_from(s, '/', 0))
}

/// The category a path falls under: its first component when that is a
/// PARA category name, and `root` otherwise.
pub open spec fn detect_para_category_spec(s: Seq<char>) -> Seq<char> {
    if is_para_category_spec(first_component_spec(s)) {
        first_component_spec(s)
    } else {
        "root"@
    }
}

/// Detect the PARA category of a relative path from its first component.
pub fn detect_para_category(path: &str) -> (r: String)
    ensures
        r@ == detect_para_category_spec(path@),
{
    let v = str_chars(path);
    let end = match find_char_from(&v, '/', 0) {
        Some(i) => i,
        None => v.len(),
    };
    let first = chars_slice(&v, 0, end);
    if chars_eq_str(&first, "projects") || chars_eq_str(&first, "areas") || chars_eq_str(
        &first,
        "resources",
    ) || chars_eq_str(&first, "archives") {
        chars_to_string(&first)
    } else {
        let mut r = String::new();
        r.append("root");
        r
    }
}

/// Copy a string slice into an owned string.
pub fn str_string(s: &str) -> (r: String)
    ensures
        r@ == s@,
{
    let mut r = String::new();
    r.append(s);
    r
}

/// Whether any member of `names` equals `s`.
pub open spec fn contains_name(names: Seq<Seq<char>>, s: Seq<char>) -> bool {
    exists|i: int| 0 <= i < names.len() && names[i] == s
}

/// The view of a vector of strings as a sequence of character sequences.
pub open spec fn names_view(names: Seq<String>) -> Seq<Seq<char>> {
    names.map_values(|n: String| n@)
}

fn names_contain(names: &Vec<String>, s: &str) -> (r: bool)
    ensures
        r == contains_name(names_view(names@), s@),
{
    let mut i: usize = 0;
    while i < names.len()
        invariant
            i <= names@.len(),
            forall|j: int| 0 <= j < i ==> names_view(names@)[j] != s@,
        decreases names@.len() - i,
    {
        if str_eq(names[i].as_str(), s) {
            proof {
                assert(names_view(names@)[i as int] == s@);
            }
            return true;
        }
        i = i + 1;
    }
    false
}

/// The category names present among a set of directory names, in
/// canonical order.
pub open spec fn present_categories_spec(dirs: Seq<Seq<char>>) -> Seq<Seq<char>> {
    (if contains_name(dirs, "projects"@) {
        seq!["projects"@]
    } else {
        Seq::empty()
    }) + (if contains_name(dirs, "areas"@) {
        seq!["areas"@]
    } else {
        Seq::empty()
    }) + (if contains_name(dirs, "resources"@) {
        seq!["resources"@]
    } else {
        Seq::empty()
    }) + (if contains_name(dirs, "archives"@) {
        seq!["archives"@]
    } else {
        Seq::empty()
    })
}

/// The PARA categories, in canonical order, whose directories are present
/// among `existing_dirs` (the names of the root's subdirectories).
pub fn get_para_categories(existing_dirs: &Vec<String>) -> (r: Vec<String>)
    ensures
        names_view(r@) == present_categories_spec(names_view(existing_dirs@)),
{
    let mut r: Vec<String> = Vec::new();
    if names_contain(existing_dirs, "projects") {
        r.push(str_string("projects"));
    }
    if names_contain(existing_dirs, "areas") {
        r.push(str_string("areas"));
    }
    if names_contain(existing_dirs, "resources") {
        r.push(str_string("resources"));
    }
    if names_contain(existing_dirs, "archives") {
        r.push(str_string("archives"));
    }
    proof {
        assert(names_view(r@) =~= present_categories_spec(names_view(existing_dirs@)));
    }
    r
}

/// Whether the root has a PARA structure: at least one of the four
/// category directories is present among its subdirectories.
pub fn has_para_structure(existing_dirs: &Vec<String>) -> (r: bool)
    ensures
        r == (contains_name(names_view(existing_dirs@), "projects"@) || contains_name(
            names_view(existing_dirs@),
            "areas"@,
        ) || contains_name(names_view(existing_dirs@), "resources"@) || contains_name(
            names_view(existing_dirs@),
            "archives"@,
        )),
{
    names_contain(existing_dirs, "projects") || names_contain(existing_dirs, "areas")
        || names_contain(existing_dirs, "resources") || names_contain(existing_dirs, "archives")
}

/// One group of `organize_by_category`: a category and the paths that
/// fall under it, in input order.
pub struct CategoryGroup {
    /// The category label.
    pub category: String,
    /// The paths assigned to it, in the order they were given.
    pub paths: Vec<String>,
}

/// Paths grouped by their PARA category, each group in first-appearance
/// order.
pub struct CategoryGroups {
    /// The groups, ordered by the first appearance of their category.
    pub groups: Vec<CategoryGroup>,
}

/// The view of grouped paths: a sequence of (category, paths) pairs.
pub open spec fn groups_view(groups: Seq<CategoryGroup>) -> Seq<(Seq<char>, Seq<Seq<char>>)> {
    groups.map_values(|g: CategoryGroup| (g.category@, names_view(g.paths@)))
}

/// How grouping proceeds: each path is appended to the group of its
/// category, and a new group is opened at the end the first time a
/// category appears.
pub open spec fn organize_step(
    acc: Seq<(Seq<char>, Seq<Seq<char>>)>,
    path: Seq<char>,
) -> Seq<(Seq<char>, Seq<Seq<char>>)> {
    let cat = detect_para_category_spec(path);
    if exists|i: int| 0 <= i < acc.len() && acc[i].0 == cat {
        let i = choose|i: int| 0 <= i < acc.len() && acc[i].0 == cat;
        acc.update(i, (cat, acc[i].1 + seq![path]))
    } else {
        acc + seq![(cat, seq![path])]
    }
}

/// The groups that organizing a list of paths produces.
pub open spec fn organize_spec(paths: Seq<Seq<char>>) -> Seq<(Seq<char>, Seq<Seq<char>>)>
    decreases paths.len(),
{
    if paths.len() == 0 {
        Seq::empty()
    } else {
        organize_step(organize_spec(paths.drop_last()), paths.last())
    }
}

impl CategoryGroups {
    /// The paths grouped under `category`, when any path fell under it.
    pub fn get(&self, category: &str) -> (r: Option<&Vec<String>>)
        ensures
            match r {
                Some(v) => exists|i: int|
                    0 <= i < groups_view(self.groups@).len() && groups_view(self.groups@)[i]
                        == (category@, names_view(v@)),
                None => forall|i: int|
                    0 <= i < groups_view(self.groups@).len()
                        ==> (#[trigger] groups_view(self.groups@)[i]).0 != category@,
            },
    {
        let mut i: usize = 0;
        while i < self.groups.len()
            invariant
                i <= self.groups@.len(),
                forall|j: int|
                    0 <= j < i ==> (#[trigger] groups_view(self.groups@)[j]).0 != category@,
            decreases self.groups@.len() - i,
        {
            if str_eq(self.groups[i].category.as_str(), category) {
                proof {
                    assert(groups_view(self.groups@)[i as int] == (
                        category@,
                        names_view(self.groups@[i as int].paths@),
                    ));
                }
                return Some(&self.groups[i].paths);
            }
            i = i + 1;
        }
        None
    }
}

/// Find the index of the group whose category is `cat`.
fn find_group(groups: &Vec<CategoryGroup>, cat: &str) -> (r: Option<usize>)
    ensures
        match r {
            Some(j) => j < groups@.len() && groups@[j as int].category@ == cat@ && forall|k: int|
                0 <= k < j ==> groups@[k].category@ != cat@,
            None => forall|k: int| 0 <= k < groups@.len() ==> groups@[k].category@ != cat@,
        },
{
    let mut j: usize = 0;
    while j < groups.len()
        invariant
            j <= groups@.len(),
            forall|k: int| 0 <= k < j ==> groups@[k].category@ != cat@,
        decreases groups@.len() - j,
    {
        if str_eq(groups[j].category.as_str(), cat) {
            return Some(j);
        }
        j = j + 1;
    }
    None
}

/// No two groups share a category.
pub open spec fn distinct_groups(gs: Seq<(Seq<char>, Seq<Seq<char>>)>) -> bool {
    forall|k1: int, k2: int| 0 <= k1 < k2 < gs.len() ==> (#[trigger] gs[k1]).0 != (#[trigger] gs[k2]).0
}

/// Group document paths by PARA category. Never fails; the `Result` is
/// kept so that callers treat grouping like the other build stages.
pub fn organize_by_category(paths: &Vec<String>) -> (r: Result<CategoryGroups, ParaSsgError>)
    ensures
        r is Ok,
        groups_view(r.unwrap().groups@) == organize_spec(names_view(paths@)),
{
    let mut groups: Vec<CategoryGroup> = Vec::new();
    let mut i: usize = 0;
    while i < paths.len()
        invariant
            i <= paths@.len(),
            groups_view(groups@) == organize_spec(names_view(paths@).subrange(0, i as int)),
            distinct_groups(groups_view(groups@)),
        decreases paths@.len() - i,
    {
        let cat = detect_para_category(paths[i].as_str());
        let ghost pre = groups_view(groups@);
        let ghost p = names_view(paths@)[i as int];
        proof {
            assert(cat@ == detect_para_category_spec(p));
        }
        match find_group(&groups, cat.as_str()) {
            Some(j) => {
                let ghost jj = j as int;
                let mut g = groups.remove(j);
                g.paths.push(str_string(paths[i].as_str()));
                groups.insert(j, g);
                proof {
                    assert(pre[jj].0 == cat@);
                    let w = choose|w: int| 0 <= w < pre.len() && pre[w].0 == cat@;
                    assert(w == jj) by {
                        if w < jj {
                            assert(pre[w].0 != cat@);
                        } else if jj < w {
                            assert(pre[jj].0 != pre[w].0);
                        }
                    }
                    assert(names_view(groups@[jj].paths@) =~= pre[jj].1 + seq![p]);
                    assert(groups_view(groups@) =~= pre.update(jj, (cat@, pre[jj].1 + seq![p])));
                    assert(groups_view(groups@) == organize_step(pre, p));
                    assert(forall|k: int|
                        0 <= k < groups_view(groups@).len() ==> (#[trigger] groups_view(
                            groups@,
                        )[k]).0 == pre[k].0);
                    assert(distinct_groups(groups_view(groups@)));
                }
            },
            None => {
                let g = CategoryGroup { category: cat, paths: vec![str_string(paths[i].as_str())] };
                groups.push(g);
                proof {
                    assert(forall|k: int| 0 <= k < pre.len() ==> (#[trigger] pre[k]).0 != cat@);
                    assert(names_view(groups@.last().paths@) =~= seq![p]);
                    assert(groups_view(groups@) =~= pre + seq![(cat@, seq![p])]);
                    assert(groups_view(groups@) == organize_step(pre, p));
                    assert(distinct_groups(groups_view(groups@)));
                }
            },
        }
        i = i + 1;
        proof {
            assert(names_view(paths@).subrange(0, i as int).drop_last() =~= names_view(
                paths@,
            ).subrange(0, i as int - 1));
            assert(names_view(paths@).subrange(0, i as int).last() == names_view(paths@)[i as int
                - 1]);
        }
    }
    proof {
        assert(names_view(paths@).subrange(0, paths@.len() as int) =~= names_view(paths@));
    }
    Ok(CategoryGroups { groups })
}

/// The four category names and `root` are pairwise distinct.
pub proof fn lemma_para_names_distinct()
    ensures
        "projects"@ != "areas"@,
        "projects"@ != "resources"@,
        "projects"@ != "archives"@,
        "projects"@ != "root"@,
        "areas"@ != "resources"@,
        "areas"@ != "archives"@,
        "areas"@ != "root"@,
        "resources"@ != "archives"@,
        "resources"@ != "root"@,
        "archives"@ != "root"@,
{
    reveal_strlit("projects");
    reveal_strlit("areas");
    reveal_strlit("resources");
    reveal_strlit("archives");
    reveal_strlit("root");
    assert("projects"@.len() == 8);
    assert("areas"@.len() == 5);
    assert("resources"@.len() == 9);
    assert("archives"@.len() == 8);
    assert("root"@.len() == 4);
    assert("projects"@[0] == 'p');
    assert("archives"@[0] == 'a');
}

/// Counts of documents per PARA category.
pub struct ParaStatistics {
    /// Documents under `projects`.
    pub projects_count: usize,
    /// Documents under `areas`.
    pub areas_count: usize,
    /// Documents under `resources`.
    pub resources_count: usize,
    /// Documents under `archives`.
    pub archives_count: usize,
    /// Documents outside the four categories.
    pub root_count: usize,
    /// All documents.
    pub total_count: usize,
}

/// The number of documents in `docs` whose category is `cat`.
pub open spec fn count_category(docs: Seq<DocumentInfo>, cat: Seq<char>) -> int {
    docs.filter(|d: DocumentInfo| d.category@ == cat).len() as int
}

/// The number of documents in `docs` whose category is none of the four
/// PARA names.
pub open spec fn count_root(docs: Seq<DocumentInfo>) -> int {
    docs.filter(|d: DocumentInfo| !is_para_category_spec(d.category@)).len() as int
}

impl ParaStatistics {
    /// Count documents per category.
    pub fn from_documents(documents: &Vec<DocumentInfo>) -> (r: ParaStatistics)
        ensures
            r.total_count == documents@.len(),
            r.projects_count == count_category(documents@, "projects"@),
            r.areas_count == count_category(documents@, "areas"@),
            r.resources_count == count_category(documents@, "resources"@),
            r.archives_count == count_category(documents@, "archives"@),
            r.root_count == count_root(documents@),
    {
        let mut projects_count: usize = 0;
        let mut areas_count: usize = 0;
        let mut resources_count: usize = 0;
        let mut archives_count: usize = 0;
        let mut root_count: usize = 0;
        let mut i: usize = 0;
        while i < documents.len()
            invariant
                i <= documents@.len(),
                projects_count == count_category(documents@.subrange(0, i as int), "projects"@),
                areas_count == count_category(documents@.subrange(0, i as int), "areas"@),
                resources_count == count_category(documents@.subrange(0, i as int), "resources"@),
                archives_count == count_category(documents@.subrange(0, i as int), "archives"@),
                root_count == count_root(documents@.subrange(0, i as int)),
                projects_count + areas_count + resources_count + archives_count + root_count <= i,
            decreases documents@.len() - i,
        {
            let d = &documents[i];
            if str_eq(d.category.as_str(), "projects") {
                projects_count = projects_count + 1;
            } else if str_eq(d.category.as_str(), "areas") {
                areas_count = areas_count + 1;
            } else if str_eq(d.category.as_str(), "resources") {
                resources_count = resources_count + 1;
            } else if str_eq(d.category.as_str(), "archives") {
                archives_count = archives_count + 1;
            } else {
                root_count = root_count + 1;
            }
            i = i + 1;
            proof {
                lemma_para_names_distinct();
                let pre = documents@.subrange(0, i - 1);
                let post = documents@.subrange(0, i as int);
                assert(post.drop_last() =~= pre);
                assert(post.last() == documents@[i - 1]);
                reveal_with_fuel(Seq::filter, 2);
                assert(projects_count == count_category(post, "projects"@));
                assert(areas_count == count_category(post, "areas"@));
                assert(resources_count == count_category(post, "resources"@));
                assert(archives_count == count_category(post, "archives"@));
                assert(root_count == count_root(post));
            }
        }
        proof {
            assert(documents@.subrange(0, documents@.len() as int) =~= documents@);
        }
        ParaStatistics {
            projects_count,
            areas_count,
            resources_count,
            archives_count,
            root_count,
            total_count: documents.len(),
        }
    }
}

} // verus!
