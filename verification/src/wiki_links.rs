//! Wiki-link parsing and resolution: the inline `[[target]]` /
//! `[[target|display]]` syntax, the normalized lookup table that targets
//! are resolved against, and the in-place rewriting of link spans into
//! HTML.

use vstd::prelude::*;
use vstd::string::StringExecFns;

use crate::error::ParaSsgError;
use crate::text::chars_eq;
use crate::text::chars_slice;
use crate::text::chars_to_string;
use crate::text::push_all;
use crate::text::slash_pred;
use crate::text::split_runs_slash;
use crate::text::vecs_view;
use crate::text::join;
use crate::text::join_chars;
use crate::text::lemma_join_chars;
use crate::text::lemma_runs_join_inverse;
use crate::text::lemma_runs_wf;
use crate::text::lower_char;
use crate::text::lower_char_spec;
use crate::text::good_runs;
use crate::text::runs;
use crate::text::space_pred;
use crate::text::split_runs_ws;
use crate::text::str_chars;
use crate::text::trim_chars;
use crate::text::trim_spec;

verus! {

/// How one character is normalized for lookup: hyphens and underscores
/// become spaces, letters are folded to lower case.
pub open spec fn norm_char_spec(c: char) -> char {
    if c == '-' || c == '_' {
        ' '
    } else {
        lower_char_spec(c)
    }
}

/// `s` with every character normalized.
pub open spec fn norm_map(s: Seq<char>) -> Seq<char> {
    s.map_values(|c: char| norm_char_spec(c))
}

/// A normalized lookup key: case folded, hyphens and underscores turned
/// into spaces, and whitespace collapsed into single spaces with none at
/// either end.
pub open spec fn normalize_spec(s: Seq<char>) -> Seq<char> {
    join(runs(norm_map(s), space_pred()), ' ')
}

/// Normalizing one character twice is the same as normalizing it once.
pub proof fn lemma_norm_char_idempotent(c: char)
    ensures
        norm_char_spec(norm_char_spec(c)) == norm_char_spec(c),
{
    if !(c == '-' || c == '_') && 'A' <= c && c <= 'Z' {
        assert(c as u8 >= 65 && c as u8 <= 90);
        let l = ((c as u8) + 32) as char;
        assert(l as u8 >= 97 && l as u8 <= 122);
        assert(!('A' <= l && l <= 'Z'));
        assert(l != '-' && l != '_');
    }
}

/// Normalize a string for case- and separator-insensitive lookup.
pub fn normalize_for_lookup(s: &str) -> (r: String)
    ensures
        r@ == normalize_spec(s@),
{
    let v = str_chars(s);
    let mut m: Vec<char> = Vec::new();
    let mut i: usize = 0;
    while i < v.len()
        invariant
            i <= v@.len(),
            m@ == norm_map(v@).take(i as int),
        decreases v@.len() - i,
    {
        let c = v[i];
        if c == '-' || c == '_' {
            m.push(' ');
        } else {
            m.push(lower_char(c));
        }
        i = i + 1;
        proof {
            assert(m@ =~= norm_map(v@).take(i as int));
        }
    }
    proof {
        assert(norm_map(v@).take(v@.len() as int) =~= norm_map(v@));
    }
    let words = split_runs_ws(&m);
    let joined = join_chars(&words, ' ');
    chars_to_string(&joined)
}

/// Normalization is idempotent: normalizing a normalized key changes
/// nothing.
pub proof fn lemma_normalize_idempotent(s: Seq<char>)
    ensures
        normalize_spec(normalize_spec(s)) == normalize_spec(s),
{
    let fixed = |c: char| norm_char_spec(c) == c;
    let m = norm_map(s);
    let ws = runs(m, space_pred());
    let r = join(ws, ' ');
    lemma_runs_wf(m, space_pred());
    assert forall|i: int, j: int| 0 <= i < ws.len() && 0 <= j < ws[i].len() implies fixed(
        #[trigger] ws[i][j],
    ) by {
        assert(m.contains(ws[i][j]));
        let k = choose|k: int| 0 <= k < m.len() && m[k] == ws[i][j];
        assert(m[k] == norm_char_spec(s[k]));
        lemma_norm_char_idempotent(s[k]);
    }
    assert(fixed(' '));
    lemma_join_chars(ws, ' ', fixed);
    assert(norm_map(r) =~= r);
    lemma_runs_join_inverse(ws, ' ', space_pred());
    assert(normalize_spec(r) == r);
}

/// A parsed wiki link.
#[derive(Debug, Clone, PartialEq)]
pub struct WikiLink {
    /// The full matched text, brackets included.
    pub full_match: String,
    /// The link target (before the pipe), trimmed.
    pub target: String,
    /// The display text (after the pipe, if present), trimmed.
    pub display: Option<String>,
    /// Starting character position in the source text.
    pub start: usize,
    /// Ending character position in the source text (exclusive).
    pub end: usize,
}

/// The mathematical content of a wiki link: target, display and the
/// half-open span `[start, end)` in the source text.
pub struct LinkSpan {
    /// The trimmed target.
    pub target: Seq<char>,
    /// The trimmed display text, when a pipe was present.
    pub display: Option<Seq<char>>,
    /// Starting character position.
    pub start: int,
    /// Ending character position (exclusive).
    pub end: int,
}

/// The span a parsed link denotes.
pub open spec fn link_view(l: WikiLink) -> LinkSpan {
    LinkSpan {
        target: l.target@,
        display: match l.display {
            Some(d) => Some(d@),
            None => None,
        },
        start: l.start as int,
        end: l.end as int,
    }
}

/// The spans a list of parsed links denotes.
pub open spec fn links_view(ls: Seq<WikiLink>) -> Seq<LinkSpan> {
    ls.map_values(|l: WikiLink| link_view(l))
}

/// Length of the run of target characters (no brackets, no pipe)
/// starting at `j`.
pub open spec fn tgt_run_len(s: Seq<char>, j: int) -> nat
    decreases s.len() - j,
{
    if j < 0 || j >= s.len() || s[j] == '[' || s[j] == ']' || s[j] == '|' {
        0
    } else {
        1 + tgt_run_len(s, j + 1)
    }
}

/// Length of the run of display characters (no brackets) starting at `j`.
pub open spec fn disp_run_len(s: Seq<char>, j: int) -> nat
    decreases s.len() - j,
{
    if j < 0 || j >= s.len() || s[j] == '[' || s[j] == ']' {
        0
    } else {
        1 + disp_run_len(s, j + 1)
    }
}

/// The wiki link starting exactly at position `i`, if the text there
/// matches `[[target]]` or `[[target|display]]`: after the opening
/// brackets come one or more characters that are neither brackets nor a
/// pipe, then either the closing brackets, or a pipe, one or more
/// non-bracket characters and the closing brackets. Target and display
/// are recorded trimmed.
pub open spec fn match_at(s: Seq<char>, i: int) -> Option<LinkSpan> {
    if !(0 <= i && i + 2 <= s.len() && s[i] == '[' && s[i + 1] == '[') {
        None
    } else {
        let t = tgt_run_len(s, i + 2) as int;
        if t == 0 {
            None
        } else {
            let k = i + 2 + t;
            if k < s.len() && s[k] == '|' {
                let d = disp_run_len(s, k + 1) as int;
                if d > 0 && k + 3 + d <= s.len() && s[k + 1 + d] == ']' && s[k + 2 + d] == ']' {
                    Some(
                        LinkSpan {
                            target: trim_spec(s.subrange(i + 2, k)),
                            display: Some(trim_spec(s.subrange(k + 1, k + 1 + d))),
                            start: i,
                            end: k + 3 + d,
                        },
                    )
                } else {
                    None
                }
            } else if k + 2 <= s.len() && s[k] == ']' && s[k + 1] == ']' {
                Some(
                    LinkSpan {
                        target: trim_spec(s.subrange(i + 2, k)),
                        display: None,
                        start: i,
                        end: k + 2,
                    },
                )
            } else {
                None
            }
        }
    }
}

/// All wiki links whose match starts at or after position `i`, in order
/// of their starting position. No link can start strictly inside another
/// match, because targets and display texts contain no brackets.
pub open spec fn links_from(s: Seq<char>, i: int) -> Seq<LinkSpan>
    decreases s.len() - i,
{
    if i < 0 || i >= s.len() {
        Seq::empty()
    } else {
        let rest = links_from(s, i + 1);
        match match_at(s, i) {
            Some(m) => seq![m] + rest,
            None => rest,
        }
    }
}

/// All wiki links of a text, in order.
pub open spec fn parse_links_spec(s: Seq<char>) -> Seq<LinkSpan> {
    links_from(s, 0)
}

/// Find where the target run starting at `from` ends.
fn tgt_run_end(v: &Vec<char>, from: usize) -> (r: usize)
    requires
        from <= v@.len(),
    ensures
        from <= r <= v@.len(),
        r == from + tgt_run_len(v@, from as int),
{
    let mut j: usize = from;
    while j < v.len() && v[j] != '[' && v[j] != ']' && v[j] != '|'
        invariant
            from <= j <= v@.len(),
            tgt_run_len(v@, from as int) == (j - from) + tgt_run_len(v@, j as int),
        decreases v@.len() - j,
    {
        j = j + 1;
    }
    j
}

/// Find where the display run starting at `from` ends.
fn disp_run_end(v: &Vec<char>, from: usize) -> (r: usize)
    requires
        from <= v@.len(),
    ensures
        from <= r <= v@.len(),
        r == from + disp_run_len(v@, from as int),
{
    let mut j: usize = from;
    while j < v.len() && v[j] != '[' && v[j] != ']'
        invariant
            from <= j <= v@.len(),
            disp_run_len(v@, from as int) == (j - from) + disp_run_len(v@, j as int),
        decreases v@.len() - j,
    {
        j = j + 1;
    }
    j
}

/// Try to read a wiki link starting exactly at position `i`.
fn try_match_at(v: &Vec<char>, i: usize) -> (r: Option<WikiLink>)
    requires
        i < v@.len(),
    ensures
        match r {
            Some(l) => match_at(v@, i as int) == Some(link_view(l)) && l.full_match@
                == v@.subrange(l.start as int, l.end as int) && l.start == i && i < l.end
                <= v@.len(),
            None => match_at(v@, i as int) is None,
        },
{
    let n = v.len();
    if n - i < 2 || v[i] != '[' || v[i + 1] != '[' {
        return None;
    }
    let t_end = tgt_run_end(v, i + 2);
    if t_end == i + 2 {
        return None;
    }
    let k = t_end;
    if k < n && v[k] == '|' {
        let d_end = disp_run_end(v, k + 1);
        if d_end > k + 1 && n - d_end >= 2 && v[d_end] == ']' && v[d_end + 1] == ']' {
            let target_raw = chars_slice(v, i + 2, k);
            let target = trim_chars(&target_raw);
            let display_raw = chars_slice(v, k + 1, d_end);
            let display = trim_chars(&display_raw);
            let full = chars_slice(v, i, d_end + 2);
            let l = WikiLink {
                full_match: chars_to_string(&full),
                target: chars_to_string(&target),
                display: Some(chars_to_string(&display)),
                start: i,
                end: d_end + 2,
            };
            proof {
                let d = disp_run_len(v@, k as int + 1) as int;
                assert(d_end == k + 1 + d);
                assert(match_at(v@, i as int) == Some(link_view(l)));
            }
            Some(l)
        } else {
            None
        }
    } else if n - k >= 2 && v[k] == ']' && v[k + 1] == ']' {
        let target_raw = chars_slice(v, i + 2, k);
        let target = trim_chars(&target_raw);
        let full = chars_slice(v, i, k + 2);
        let l = WikiLink {
            full_match: chars_to_string(&full),
            target: chars_to_string(&target),
            display: None,
            start: i,
            end: k + 2,
        };
        proof {
            assert(match_at(v@, i as int) == Some(link_view(l)));
        }
        Some(l)
    } else {
        None
    }
}

/// Parse all wiki links of a text, with their positions.
pub fn parse_wiki_links(content: &str) -> (r: Vec<WikiLink>)
    ensures
        links_view(r@) == parse_links_spec(content@),
        forall|x: int|
            0 <= x < r@.len() ==> (#[trigger] r@[x]).start < r@[x].end <= content@.len()
                && r@[x].full_match@ == content@.subrange(r@[x].start as int, r@[x].end as int),
{
    let v = str_chars(content);
    let mut r: Vec<WikiLink> = Vec::new();
    let mut i: usize = 0;
    while i < v.len()
        invariant
            i <= v@.len(),
            v@ == content@,
            links_view(r@) + links_from(v@, i as int) == links_from(v@, 0),
            forall|x: int|
                0 <= x < r@.len() ==> (#[trigger] r@[x]).start < r@[x].end <= content@.len()
                    && r@[x].full_match@ == content@.subrange(r@[x].start as int, r@[x].end as int),
        decreases v@.len() - i,
    {
        let ghost pre = links_view(r@);
        match try_match_at(&v, i) {
            Some(l) => {
                let ghost m = link_view(l);
                r.push(l);
                proof {
                    assert(links_view(r@) =~= pre + seq![m]);
                    assert(links_from(v@, i as int) == seq![m] + links_from(v@, i as int + 1));
                    assert(links_view(r@) + links_from(v@, i as int + 1) =~= links_from(v@, 0));
                }
            },
            None => {
                proof {
                    assert(links_from(v@, i as int) == links_from(v@, i as int + 1));
                }
            },
        }
        i = i + 1;
    }
    proof {
        assert(links_from(v@, v@.len() as int) =~= Seq::<LinkSpan>::empty());
        assert(links_view(r@) =~= links_from(v@, 0));
    }
    r
}

/// The view of key/path entries.
pub open spec fn entries_view(es: Seq<(String, String)>) -> Seq<(Seq<char>, Seq<char>)> {
    es.map_values(|e: (String, String)| (e.0@, e.1@))
}

/// First-match lookup in an entry list.
pub open spec fn lookup_get_spec(es: Seq<(Seq<char>, Seq<char>)>, key: Seq<char>) -> Option<
    Seq<char>,
>
    decreases es.len(),
{
    if es.len() == 0 {
        None
    } else if es[0].0 == key {
        Some(es[0].1)
    } else {
        lookup_get_spec(es.drop_first(), key)
    }
}

/// The table wiki-link targets are resolved against: normalized keys
/// mapped to output paths.
pub struct DocumentLookup {
    /// The entries; a key occurring earlier shadows any later one.
    pub entries: Vec<(String, String)>,
}

impl DocumentLookup {
    /// The path the table gives for a key.
    pub open spec fn spec_get(&self, key: Seq<char>) -> Option<Seq<char>> {
        lookup_get_spec(entries_view(self.entries@), key)
    }

    /// An empty table.
    pub fn new() -> (r: DocumentLookup)
        ensures
            forall|k: Seq<char>| r.spec_get(k) is None,
    {
        DocumentLookup { entries: Vec::new() }
    }

    /// The number of entries.
    pub fn len(&self) -> (r: usize)
        ensures
            r == self.entries@.len(),
    {
        self.entries.len()
    }

    /// Look a key up.
    pub fn get(&self, key: &str) -> (r: Option<&String>)
        ensures
            match r {
                Some(p) => self.spec_get(key@) == Some(p@),
                None => self.spec_get(key@) is None,
            },
    {
        let mut i: usize = 0;
        proof {
            assert(entries_view(self.entries@).skip(0) =~= entries_view(self.entries@));
        }
        while i < self.entries.len()
            invariant
                i <= self.entries@.len(),
                lookup_get_spec(entries_view(self.entries@), key@) == lookup_get_spec(
                    entries_view(self.entries@).skip(i as int),
                    key@,
                ),
        decreases self.entries@.len() - i,
        {
            proof {
                assert(entries_view(self.entries@).skip(i as int)[0] == entries_view(
                    self.entries@,
                )[i as int]);
                assert(entries_view(self.entries@).skip(i as int).drop_first() =~= entries_view(
                    self.entries@,
                ).skip(i as int + 1));
            }
            if crate::text::str_eq(self.entries[i].0.as_str(), key) {
                return Some(&self.entries[i].1);
            }
            i = i + 1;
        }
        proof {
            assert(entries_view(self.entries@).skip(self.entries@.len() as int)
                =~= Seq::<(Seq<char>, Seq<char>)>::empty());
        }
        None
    }

    /// Whether a key is present.
    pub fn contains_key(&self, key: &str) -> (r: bool)
        ensures
            r == (self.spec_get(key@) is Some),
    {
        match self.get(key) {
            Some(_) => true,
            None => false,
        }
    }

    /// Map `key` to `path`, shadowing any earlier mapping of the key.
    pub fn insert(&mut self, key: String, path: String)
        ensures
            forall|k: Seq<char>|
                final(self).spec_get(k) == if k == key@ {
                    Some(path@)
                } else {
                    old(self).spec_get(k)
                },
    {
        let ghost kv = key@;
        let ghost pv = path@;
        self.entries.insert(0, (key, path));
        proof {
            assert(entries_view(self.entries@).drop_first() =~= entries_view(old(self).entries@));
            assert(entries_view(self.entries@)[0] == (kv, pv));
        }
    }

    /// Map `key` to `path` unless the key is already present.
    fn insert_if_absent(&mut self, key: String, path: String)
        ensures
            forall|k: Seq<char>|
                final(self).spec_get(k) == if k == key@ && old(self).spec_get(k) is None {
                    Some(path@)
                } else {
                    old(self).spec_get(k)
                },
    {
        if !self.contains_key(key.as_str()) {
            self.insert(key, path);
        }
    }
}

/// The key under which a document's title is entered.
pub open spec fn title_keyf() -> spec_fn((Seq<char>, Seq<char>)) -> Seq<char> {
    |d: (Seq<char>, Seq<char>)| normalize_spec(d.1)
}

/// The key under which a document's file stem is entered.
pub open spec fn stem_keyf() -> spec_fn((Seq<char>, Seq<char>)) -> Seq<char> {
    |d: (Seq<char>, Seq<char>)| normalize_spec(crate::fsinfo::file_stem_spec(d.0))
}

/// The key under which a document's extension-less path is entered.
pub open spec fn path_keyf() -> spec_fn((Seq<char>, Seq<char>)) -> Seq<char> {
    |d: (Seq<char>, Seq<char>)| normalize_spec(crate::fsinfo::path_no_ext_spec(d.0))
}

/// The path of the first document (in `docs` order) whose key under
/// `keyf` is `k`.
pub open spec fn assoc_first(
    docs: Seq<(Seq<char>, Seq<char>)>,
    keyf: spec_fn((Seq<char>, Seq<char>)) -> Seq<char>,
    k: Seq<char>,
) -> Option<Seq<char>>
    decreases docs.len(),
{
    if docs.len() == 0 {
        None
    } else if keyf(docs[0]) == k {
        Some(docs[0].0)
    } else {
        assoc_first(docs.drop_first(), keyf, k)
    }
}

/// Appending a document changes a first-match lookup only for keys that
/// were absent.
proof fn lemma_assoc_first_push(
    docs: Seq<(Seq<char>, Seq<char>)>,
    d: (Seq<char>, Seq<char>),
    keyf: spec_fn((Seq<char>, Seq<char>)) -> Seq<char>,
    k: Seq<char>,
)
    ensures
        assoc_first(docs.push(d), keyf, k) == if assoc_first(docs, keyf, k) is Some {
            assoc_first(docs, keyf, k)
        } else if keyf(d) == k {
            Some(d.0)
        } else {
            None::<Seq<char>>
        },
    decreases docs.len(),
{
    if docs.len() == 0 {
        assert(docs.push(d)[0] == d);
        assert(docs.push(d).drop_first() =~= Seq::<(Seq<char>, Seq<char>)>::empty());
    } else {
        assert(docs.push(d)[0] == docs[0]);
        assert(docs.push(d).drop_first() =~= docs.drop_first().push(d));
        lemma_assoc_first_push(docs.drop_first(), d, keyf, k);
    }
}

/// What `build_document_lookup` maps a key to: the first document whose
/// normalized title matches; else the first whose normalized file stem
/// matches; else the first whose normalized extension-less path matches.
pub open spec fn lookup_result(docs: Seq<(Seq<char>, Seq<char>)>, k: Seq<char>) -> Option<
    Seq<char>,
> {
    if assoc_first(docs, title_keyf(), k) is Some {
        assoc_first(docs, title_keyf(), k)
    } else if assoc_first(docs, stem_keyf(), k) is Some {
        assoc_first(docs, stem_keyf(), k)
    } else {
        assoc_first(docs, path_keyf(), k)
    }
}

/// Build the lookup table from `(output path, title)` pairs. Keys derived
/// from titles take precedence over keys derived from file stems, which
/// take precedence over keys derived from paths; within each kind the
/// first document wins.
pub fn build_document_lookup(documents: &Vec<(String, String)>) -> (r: DocumentLookup)
    ensures
        forall|k: Seq<char>| r.spec_get(k) == lookup_result(entries_view(documents@), k),
{
    let ghost docs = entries_view(documents@);
    let mut lookup = DocumentLookup::new();
    let mut i: usize = 0;
    proof {
        assert(docs.take(0) =~= Seq::<(Seq<char>, Seq<char>)>::empty());
    }
    while i < documents.len()
        invariant
            i <= documents@.len(),
            docs == entries_view(documents@),
            forall|k: Seq<char>|
                lookup.spec_get(k) == assoc_first(docs.take(i as int), title_keyf(), k),
        decreases documents@.len() - i,
    {
        let key = normalize_for_lookup(documents[i].1.as_str());
        let path = crate::para::str_string(documents[i].0.as_str());
        let ghost pre = lookup;
        lookup.insert_if_absent(key, path);
        i = i + 1;
        proof {
            assert(docs.take(i as int) =~= docs.take(i as int - 1).push(docs[i as int - 1]));
            assert forall|k: Seq<char>|
                lookup.spec_get(k) == assoc_first(docs.take(i as int), title_keyf(), k) by {
                lemma_assoc_first_push(docs.take(i as int - 1), docs[i as int - 1], title_keyf(), k);
            }
        }
    }
    proof {
        assert(docs.take(documents@.len() as int) =~= docs);
    }
    let mut i: usize = 0;
    proof {
        assert(docs.take(0) =~= Seq::<(Seq<char>, Seq<char>)>::empty());
    }
    while i < documents.len()
        invariant
            i <= documents@.len(),
            docs == entries_view(documents@),
            forall|k: Seq<char>|
                lookup.spec_get(k) == if assoc_first(docs, title_keyf(), k) is Some {
                    assoc_first(docs, title_keyf(), k)
                } else {
                    assoc_first(docs.take(i as int), stem_keyf(), k)
                },
        decreases documents@.len() - i,
    {
        let stem = crate::fsinfo::file_stem_of(documents[i].0.as_str());
        let key = normalize_for_lookup(stem.as_str());
        let path = crate::para::str_string(documents[i].0.as_str());
        lookup.insert_if_absent(key, path);
        i = i + 1;
        proof {
            assert(docs.take(i as int) =~= docs.take(i as int - 1).push(docs[i as int - 1]));
            assert forall|k: Seq<char>|
                lookup.spec_get(k) == if assoc_first(docs, title_keyf(), k) is Some {
                    assoc_first(docs, title_keyf(), k)
                } else {
                    assoc_first(docs.take(i as int), stem_keyf(), k)
                } by {
                lemma_assoc_first_push(docs.take(i as int - 1), docs[i as int - 1], stem_keyf(), k);
            }
        }
    }
    proof {
        assert(docs.take(documents@.len() as int) =~= docs);
    }
    let mut i: usize = 0;
    proof {
        assert(docs.take(0) =~= Seq::<(Seq<char>, Seq<char>)>::empty());
    }
    while i < documents.len()
        invariant
            i <= documents@.len(),
            docs == entries_view(documents@),
            forall|k: Seq<char>|
                lookup.spec_get(k) == if assoc_first(docs, title_keyf(), k) is Some {
                    assoc_first(docs, title_keyf(), k)
                } else if assoc_first(docs, stem_keyf(), k) is Some {
                    assoc_first(docs, stem_keyf(), k)
                } else {
                    assoc_first(docs.take(i as int), path_keyf(), k)
                },
        decreases documents@.len() - i,
    {
        let cut = crate::fsinfo::path_no_ext_of(documents[i].0.as_str());
        let key = normalize_for_lookup(cut.as_str());
        let path = crate::para::str_string(documents[i].0.as_str());
        lookup.insert_if_absent(key, path);
        i = i + 1;
        proof {
            assert(docs.take(i as int) =~= docs.take(i as int - 1).push(docs[i as int - 1]));
            assert forall|k: Seq<char>|
                lookup.spec_get(k) == if assoc_first(docs, title_keyf(), k) is Some {
                    assoc_first(docs, title_keyf(), k)
                } else if assoc_first(docs, stem_keyf(), k) is Some {
                    assoc_first(docs, stem_keyf(), k)
                } else {
                    assoc_first(docs.take(i as int), path_keyf(), k)
                } by {
                lemma_assoc_first_push(docs.take(i as int - 1), docs[i as int - 1], path_keyf(), k);
            }
        }
    }
    proof {
        assert(docs.take(documents@.len() as int) =~= docs);
    }
    lookup
}

/// A wiki link together with the outcome of resolving it.
#[derive(Debug, Clone)]
pub struct ResolvedLink {
    /// The original wiki link.
    pub wiki_link: WikiLink,
    /// The output path of the target document, when one was found.
    pub resolved_path: Option<String>,
    /// Whether resolution failed.
    pub is_broken: bool,
}

/// Copy a wiki link.
fn clone_wiki_link(l: &WikiLink) -> (r: WikiLink)
    ensures
        r == *l,
{
    WikiLink {
        full_match: l.full_match.clone(),
        target: l.target.clone(),
        display: match &l.display {
            Some(d) => Some(d.clone()),
            None => None,
        },
        start: l.start,
        end: l.end,
    }
}

/// Resolve parsed wiki links against the lookup table: the target is
/// normalized exactly as lookup keys are, a hit yields the stored output
/// path, and a miss marks the link broken.
pub fn resolve_wiki_links(wiki_links: Vec<WikiLink>, document_lookup: &DocumentLookup) -> (r: Vec<
    ResolvedLink,
>)
    ensures
        r@.len() == wiki_links@.len(),
        forall|x: int|
            0 <= x < r@.len() ==> (#[trigger] r@[x]).wiki_link == wiki_links@[x] && r@[x].is_broken
                == (document_lookup.spec_get(normalize_spec(wiki_links@[x].target@)) is None)
                && (match r@[x].resolved_path {
                Some(p) => document_lookup.spec_get(normalize_spec(wiki_links@[x].target@)) == Some(
                    p@,
                ),
                None => document_lookup.spec_get(normalize_spec(wiki_links@[x].target@)) is None,
            }),
{
    let mut r: Vec<ResolvedLink> = Vec::new();
    let mut i: usize = 0;
    while i < wiki_links.len()
        invariant
            i <= wiki_links@.len(),
            r@.len() == i,
            forall|x: int|
                0 <= x < i ==> (#[trigger] r@[x]).wiki_link == wiki_links@[x] && r@[x].is_broken
                    == (document_lookup.spec_get(normalize_spec(wiki_links@[x].target@)) is None)
                    && (match r@[x].resolved_path {
                    Some(p) => document_lookup.spec_get(normalize_spec(wiki_links@[x].target@))
                        == Some(p@),
                    None => document_lookup.spec_get(normalize_spec(wiki_links@[x].target@))
                        is None,
                }),
        decreases wiki_links@.len() - i,
    {
        let link = clone_wiki_link(&wiki_links[i]);
        let key = normalize_for_lookup(link.target.as_str());
        let resolved_path = match document_lookup.get(key.as_str()) {
            Some(p) => Some(p.clone()),
            None => None,
        };
        let is_broken = match &resolved_path {
            Some(_) => false,
            None => true,
        };
        r.push(ResolvedLink { wiki_link: link, resolved_path, is_broken });
        i = i + 1;
    }
    r
}

/// The wiki links among `rs` whose resolution failed.
pub open spec fn broken_of(rs: Seq<ResolvedLink>) -> Seq<WikiLink>
    decreases rs.len(),
{
    if rs.len() == 0 {
        Seq::empty()
    } else {
        (if rs[0].is_broken {
            seq![rs[0].wiki_link]
        } else {
            Seq::empty()
        }) + broken_of(rs.drop_first())
    }
}

/// Extract the broken links from resolved links.
pub fn get_broken_links<'a>(resolved_links: &'a Vec<ResolvedLink>) -> (r: Vec<&'a WikiLink>)
    ensures
        r@.map_values(|l: &WikiLink| *l) == broken_of(resolved_links@),
{
    let mut r: Vec<&WikiLink> = Vec::new();
    let mut i: usize = 0;
    proof {
        assert(resolved_links@.skip(0) =~= resolved_links@);
        assert(r@.map_values(|l: &WikiLink| *l) + broken_of(resolved_links@) =~= broken_of(
            resolved_links@,
        ));
    }
    while i < resolved_links.len()
        invariant
            i <= resolved_links@.len(),
            r@.map_values(|l: &WikiLink| *l) + broken_of(resolved_links@.skip(i as int))
                == broken_of(resolved_links@),
        decreases resolved_links@.len() - i,
    {
        let ghost pre = r@.map_values(|l: &WikiLink| *l);
        proof {
            assert(resolved_links@.skip(i as int)[0] == resolved_links@[i as int]);
            assert(resolved_links@.skip(i as int).drop_first() =~= resolved_links@.skip(
                i as int + 1,
            ));
        }
        if resolved_links[i].is_broken {
            r.push(&resolved_links[i].wiki_link);
            proof {
                assert(r@.map_values(|l: &WikiLink| *l) =~= pre + seq![
                    resolved_links@[i as int].wiki_link,
                ]);
            }
        }
        i = i + 1;
        proof {
            assert(r@.map_values(|l: &WikiLink| *l) + broken_of(resolved_links@.skip(i as int))
                =~= broken_of(resolved_links@));
        }
    }
    proof {
        assert(resolved_links@.skip(resolved_links@.len() as int)
            =~= Seq::<ResolvedLink>::empty());
        assert(r@.map_values(|l: &WikiLink| *l) =~= broken_of(resolved_links@));
    }
    r
}

/// How one character is escaped for HTML output.
pub open spec fn escape_char_spec(c: char) -> Seq<char> {
    if c == '&' {
        "&amp;"@
    } else if c == '<' {
        "&lt;"@
    } else if c == '>' {
        "&gt;"@
    } else if c == '"' {
        "&quot;"@
    } else if c == '\'' {
        "&#39;"@
    } else {
        seq![c]
    }
}

/// `s` with the five HTML-special characters escaped.
pub open spec fn escape_spec(s: Seq<char>) -> Seq<char>
    decreases s.len(),
{
    if s.len() == 0 {
        Seq::empty()
    } else {
        escape_char_spec(s[0]) + escape_spec(s.drop_first())
    }
}

/// Escape the HTML-special characters of `s`.
pub fn html_escape(s: &str) -> (r: String)
    ensures
        r@ == escape_spec(s@),
{
    let v = str_chars(s);
    let mut out = String::new();
    let mut i: usize = 0;
    proof {
        assert(v@.skip(0) =~= v@);
        assert(out@ + escape_spec(v@) =~= escape_spec(v@));
    }
    while i < v.len()
        invariant
            i <= v@.len(),
            out@ + escape_spec(v@.skip(i as int)) == escape_spec(v@),
        decreases v@.len() - i,
    {
        proof {
            assert(v@.skip(i as int)[0] == v@[i as int]);
            assert(v@.skip(i as int).drop_first() =~= v@.skip(i as int + 1));
            assert(escape_spec(v@.skip(i as int)) == escape_char_spec(v@[i as int]) + escape_spec(
                v@.skip(i as int + 1),
            ));
        }
        let c = v[i];
        if c == '&' {
            out.append("&amp;");
        } else if c == '<' {
            out.append("&lt;");
        } else if c == '>' {
            out.append("&gt;");
        } else if c == '"' {
            out.append("&quot;");
        } else if c == '\'' {
            out.append("&#39;");
        } else {
            crate::text::push_char(&mut out, c);
        }
        i = i + 1;
        proof {
            assert(out@ + escape_spec(v@.skip(i as int)) =~= escape_spec(v@));
        }
    }
    proof {
        assert(v@.skip(v@.len() as int) =~= Seq::<char>::empty());
        assert(out@ =~= escape_spec(v@));
    }
    out
}

} // verus!

verus! {

/// The components of a path: the `/`-separated pieces, empty pieces
/// dropped.
pub open spec fn components_spec(s: Seq<char>) -> Seq<Seq<char>> {
    runs(s, slash_pred())
}

/// The components of the directory containing the file `s` names.
pub open spec fn parent_components(s: Seq<char>) -> Seq<Seq<char>> {
    if components_spec(s).len() == 0 {
        components_spec(s)
    } else {
        components_spec(s).drop_last()
    }
}

/// The length of the longest common prefix of two component lists.
pub open spec fn common_len(a: Seq<Seq<char>>, b: Seq<Seq<char>>) -> int
    decreases a.len(),
{
    if a.len() == 0 || b.len() == 0 || a[0] != b[0] {
        0
    } else {
        1 + common_len(a.drop_first(), b.drop_first())
    }
}

/// `n` copies of the `..` component.
pub open spec fn ups(n: int) -> Seq<Seq<char>> {
    Seq::new(n as nat, |i: int| ".."@)
}

/// The components of the relative path from the document at `from` to
/// the document at `to`: one `..` for each component of `from`'s
/// directory past the common prefix, then `to`'s components past it.
pub open spec fn rel_components_spec(from: Seq<char>, to: Seq<char>) -> Seq<Seq<char>> {
    let f = parent_components(from);
    let t = components_spec(to);
    let c = common_len(f, t);
    ups(f.len() - c) + t.skip(c)
}

/// The relative path from `from` to `to`.
pub open spec fn relative_path_spec(from: Seq<char>, to: Seq<char>) -> Seq<char> {
    join(rel_components_spec(from, to), '/')
}

/// The common prefix is a prefix of both lists, and where both go on,
/// they differ right after it.
proof fn lemma_common_len(a: Seq<Seq<char>>, b: Seq<Seq<char>>)
    ensures
        0 <= common_len(a, b) <= a.len(),
        common_len(a, b) <= b.len(),
        forall|i: int| 0 <= i < common_len(a, b) ==> a[i] == b[i],
    decreases a.len(),
{
    if a.len() > 0 && b.len() > 0 && a[0] == b[0] {
        lemma_common_len(a.drop_first(), b.drop_first());
        assert forall|i: int| 0 <= i < common_len(a, b) implies a[i] == b[i] by {
            if i > 0 {
                assert(a.drop_first()[i - 1] == b.drop_first()[i - 1]);
            }
        }
    }
}

/// Find the length of the common prefix of two component lists.
fn common_prefix_len(a: &Vec<Vec<char>>, b: &Vec<Vec<char>>) -> (r: usize)
    ensures
        r == common_len(vecs_view(a@), vecs_view(b@)),
{
    let ghost av = vecs_view(a@);
    let ghost bv = vecs_view(b@);
    let mut i: usize = 0;
    proof {
        assert(av.skip(0) =~= av);
        assert(bv.skip(0) =~= bv);
    }
    while i < a.len() && i < b.len() && chars_eq(&a[i], &b[i])
        invariant
            i <= av.len(),
            i <= bv.len(),
            av == vecs_view(a@),
            bv == vecs_view(b@),
            common_len(av, bv) == i + common_len(av.skip(i as int), bv.skip(i as int)),
        decreases av.len() - i,
    {
        proof {
            assert(av.skip(i as int)[0] == av[i as int]);
            assert(bv.skip(i as int)[0] == bv[i as int]);
            assert(av.skip(i as int).drop_first() =~= av.skip(i as int + 1));
            assert(bv.skip(i as int).drop_first() =~= bv.skip(i as int + 1));
        }
        i = i + 1;
    }
    proof {
        if i < av.len() && i < bv.len() {
            assert(av.skip(i as int)[0] == av[i as int]);
            assert(bv.skip(i as int)[0] == bv[i as int]);
            assert(common_len(av.skip(i as int), bv.skip(i as int)) == 0);
        } else if i >= av.len() {
            assert(av.skip(i as int) =~= Seq::<Seq<char>>::empty());
        } else {
            assert(bv.skip(i as int) =~= Seq::<Seq<char>>::empty());
        }
    }
    i
}

/// The relative path from `from` to `to`, as character data.
fn relative_path_chars(from: &str, to: &str) -> (r: Vec<char>)
    ensures
        r@ == relative_path_spec(from@, to@),
{
    let fv = str_chars(from);
    let tv = str_chars(to);
    let mut f = split_runs_slash(&fv);
    let t = split_runs_slash(&tv);
    if f.len() > 0 {
        f.pop();
        proof {
            assert(vecs_view(f@) =~= parent_components(from@));
        }
    } else {
        proof {
            assert(vecs_view(f@) =~= parent_components(from@));
        }
    }
    let c = common_prefix_len(&f, &t);
    proof {
        lemma_common_len(vecs_view(f@), vecs_view(t@));
    }
    let mut rel: Vec<Vec<char>> = Vec::new();
    let mut i: usize = c;
    proof {
        assert(vecs_view(rel@) =~~= ups(0));
    }
    while i < f.len()
        invariant
            c <= i <= vecs_view(f@).len() || (c > vecs_view(f@).len() && i == c),
            c == common_len(vecs_view(f@), vecs_view(t@)),
            vecs_view(rel@) == ups(i - c),
        decreases vecs_view(f@).len() - i,
    {
        let ghost old_rel = rel@;
        let dots = str_chars("..");
        proof {
            assert(dots@ == ".."@);
        }
        rel.push(dots);
        i = i + 1;
        proof {
            assert(rel@ == old_rel.push(dots));
            assert(vecs_view(rel@) =~~= vecs_view(old_rel).push(".."@));
            assert(vecs_view(old_rel) == ups(i - 1 - c));
            assert(ups(i - c).len() == i - c);
            assert forall|x: int| 0 <= x < i - c implies #[trigger] ups(i - c)[x] == ".."@ by {}
            assert(vecs_view(rel@) =~~= ups(i - c));
        }
    }
    proof {
        lemma_common_len(vecs_view(f@), vecs_view(t@));
        assert(i == vecs_view(f@).len());
    }
    let mut j: usize = c;
    while j < t.len()
        invariant
            c <= j <= vecs_view(t@).len() || (c > vecs_view(t@).len() && j == c),
            c == common_len(vecs_view(f@), vecs_view(t@)),
            vecs_view(rel@) == ups(vecs_view(f@).len() - c) + vecs_view(t@).skip(c as int).take(
                j - c,
            ),
        decreases vecs_view(t@).len() - j,
    {
        let piece = chars_slice(&t[j], 0, t[j].len());
        proof {
            assert(piece@ =~= vecs_view(t@)[j as int]);
        }
        let ghost old_rel = rel@;
        rel.push(piece);
        j = j + 1;
        proof {
            let tv = vecs_view(t@);
            let m = vecs_view(f@).len() - c;
            assert(vecs_view(rel@) =~~= vecs_view(old_rel).push(tv[j - 1]));
            assert(tv.skip(c as int).take(j - c) =~= tv.skip(c as int).take(j - 1 - c).push(
                tv[j - 1],
            ));
            assert(vecs_view(rel@) =~~= ups(m) + tv.skip(c as int).take(j - c));
        }
    }
    proof {
        lemma_common_len(vecs_view(f@), vecs_view(t@));
        assert(j == vecs_view(t@).len());
        assert(vecs_view(t@).skip(c as int).take(vecs_view(t@).len() - c) =~= vecs_view(t@).skip(
            c as int,
        ));
        assert(vecs_view(rel@) =~~= rel_components_spec(from@, to@));
    }
    join_chars(&rel, '/')
}

/// The relative path between two document paths. It always succeeds: the
/// `Result` mirrors how callers consume it alongside the other stages.
pub fn calculate_relative_path(from: &str, to: &str) -> (r: Result<String, ParaSsgError>)
    ensures
        r is Ok,
        r.unwrap()@ == relative_path_spec(from@, to@),
{
    let v = relative_path_chars(from, to);
    Ok(chars_to_string(&v))
}

/// What a relative link means to a browser: starting from the components
/// of the current document's directory, each `..` removes a trailing
/// component and every other component is appended.
pub open spec fn resolve_from(acc: Seq<Seq<char>>, comps: Seq<Seq<char>>) -> Seq<Seq<char>>
    decreases comps.len(),
{
    if comps.len() == 0 {
        acc
    } else if comps[0] == ".."@ {
        resolve_from(
            if acc.len() > 0 {
                acc.drop_last()
            } else {
                acc
            },
            comps.drop_first(),
        )
    } else {
        resolve_from(acc.push(comps[0]), comps.drop_first())
    }
}

/// The document a relative href names, given the directory of the
/// document it appears in.
pub open spec fn resolve_path_spec(base: Seq<Seq<char>>, rel: Seq<char>) -> Seq<Seq<char>> {
    resolve_from(base, components_spec(rel))
}

/// Resolving components free of `..` just appends them.
proof fn lemma_resolve_plain(acc: Seq<Seq<char>>, comps: Seq<Seq<char>>)
    requires
        forall|i: int| 0 <= i < comps.len() ==> comps[i] != ".."@,
    ensures
        resolve_from(acc, comps) == acc + comps,
    decreases comps.len(),
{
    if comps.len() == 0 {
        assert(acc + comps =~= acc);
    } else {
        lemma_resolve_plain(acc.push(comps[0]), comps.drop_first());
        assert(acc.push(comps[0]) + comps.drop_first() =~= acc + comps);
    }
}

/// Resolving `n` leading `..` components removes the last `n` components
/// of the base.
proof fn lemma_resolve_ups(acc: Seq<Seq<char>>, n: int, rest: Seq<Seq<char>>)
    requires
        0 <= n <= acc.len(),
    ensures
        resolve_from(acc, ups(n) + rest) == resolve_from(acc.take(acc.len() - n), rest),
    decreases n,
{
    if n == 0 {
        assert(ups(0) + rest =~= rest);
        assert(acc.take(acc.len() as int) =~= acc);
    } else {
        let comps = ups(n) + rest;
        assert(comps[0] == ".."@);
        assert(comps.drop_first() =~= ups(n - 1) + rest);
        lemma_resolve_ups(acc.drop_last(), n - 1, rest);
        assert(acc.drop_last().take(acc.drop_last().len() - (n - 1)) =~= acc.take(acc.len() - n));
    }
}

/// The round trip of relative-link math: for any two documents whose
/// paths contain no `..` component, the relative path from the first to
/// the second, resolved against the first document's directory, lands
/// exactly on the second document.
pub proof fn lemma_relative_path_round_trip(from: Seq<char>, to: Seq<char>)
    requires
        forall|i: int|
            0 <= i < components_spec(from).len() ==> (#[trigger] components_spec(from)[i])
                != ".."@,
        forall|i: int|
            0 <= i < components_spec(to).len() ==> (#[trigger] components_spec(to)[i]) != ".."@,
    ensures
        resolve_path_spec(parent_components(from), relative_path_spec(from, to))
            == components_spec(to),
{
    let f = parent_components(from);
    let t = components_spec(to);
    let c = common_len(f, t);
    lemma_common_len(f, t);
    let relc = rel_components_spec(from, to);
    let m = f.len() - c;
    // The href splits back into exactly its components.
    lemma_runs_wf(to, slash_pred());
    reveal_strlit("..");
    assert(".."@.len() == 2);
    assert(".."@[0] == '.' && ".."@[1] == '.');
    assert forall|i: int| 0 <= i < relc.len() implies (#[trigger] relc[i]).len() > 0 && (forall|
        j: int,
    |
        0 <= j < relc[i].len() ==> !(slash_pred()(relc[i][j]))) by {
        if i < m {
            assert(relc[i] == ".."@);
            assert(forall|j: int| 0 <= j < relc[i].len() ==> relc[i][j] == '.');
        } else {
            assert(relc[i] == t[c + i - m]);
            assert(good_runs(t, slash_pred()));
        }
    }
    lemma_runs_join_inverse(relc, '/', slash_pred());
    assert(components_spec(relative_path_spec(from, to)) == relc);
    // Resolving: the `..` components peel `f` back to the common prefix,
    // the remaining components of `to` are appended.
    assert(relc =~= ups(m) + t.skip(c));
    lemma_resolve_ups(f, m, t.skip(c));
    assert(f.take(c) =~= t.take(c));
    assert forall|i: int| 0 <= i < t.skip(c).len() implies (#[trigger] t.skip(c)[i]) != ".."@ by {
        if components_spec(from).len() > 0 {
            assert(forall|i: int| 0 <= i < f.len() ==> f[i] == components_spec(from)[i]);
        }
        assert(t.skip(c)[i] == t[c + i]);
    }
    lemma_resolve_plain(t.take(c), t.skip(c));
    assert(t.take(c) + t.skip(c) =~= t);
}

} // verus!

verus! {

/// Characters inside a target run are neither brackets nor pipes.
proof fn lemma_tgt_run_chars(s: Seq<char>, j: int, x: int)
    requires
        j <= x < j + tgt_run_len(s, j),
    ensures
        0 <= x < s.len() && s[x] != '[' && s[x] != ']' && s[x] != '|',
    decreases x - j,
{
    if x > j {
        lemma_tgt_run_chars(s, j + 1, x);
    }
}

/// Characters inside a display run are not brackets.
proof fn lemma_disp_run_chars(s: Seq<char>, j: int, x: int)
    requires
        j <= x < j + disp_run_len(s, j),
    ensures
        0 <= x < s.len() && s[x] != '[' && s[x] != ']',
    decreases x - j,
{
    if x > j {
        lemma_disp_run_chars(s, j + 1, x);
    }
}

/// No wiki link can start strictly inside another link's match: the only
/// `[[` in a matched span is its opening one.
proof fn lemma_match_inside_none(s: Seq<char>, i: int, j: int, m: LinkSpan)
    requires
        match_at(s, i) == Some(m),
        i < j < m.end,
    ensures
        match_at(s, j) is None,
{
    let t = tgt_run_len(s, i + 2) as int;
    let k = i + 2 + t;
    if j == i + 1 {
        // the character after `[[` opens the target run, so it is not `[`
        assert(t >= 1);
        lemma_tgt_run_chars(s, i + 2, i + 2);
        assert(s[j + 1] != '[');
    } else if i + 2 <= j < k {
        lemma_tgt_run_chars(s, i + 2, j);
        assert(s[j] != '[');
    } else if j == k {
        // the character ending the target run is `|` or `]`
        assert(s[j] != '[');
    } else {
        // inside the display run or at the closing brackets
        if k < s.len() && s[k] == '|' {
            let d = disp_run_len(s, k + 1) as int;
            if k + 1 <= j < k + 1 + d {
                lemma_disp_run_chars(s, k + 1, j);
                assert(s[j] != '[');
            } else {
                assert(j == k + 1 + d || j == k + 2 + d);
                assert(s[j] == ']');
            }
        } else {
            assert(j == k + 1);
            assert(s[j] == ']');
        }
    }
}

/// Every matched span starts where it was found, ends inside the text,
/// and is nonempty.
proof fn lemma_match_at_bounds(s: Seq<char>, i: int, m: LinkSpan)
    requires
        match_at(s, i) == Some(m),
    ensures
        m.start == i,
        i < m.end <= s.len(),
{
}

/// The spans parsed from a text are in strictly ascending order and do
/// not overlap, and each is exactly the match found at its own start.
proof fn lemma_links_from_ascending(s: Seq<char>, i: int)
    ensures
        forall|x: int|
            0 <= x < links_from(s, i).len() ==> {
                let m = #[trigger] links_from(s, i)[x];
                i <= m.start && m.start < m.end <= s.len() && match_at(s, m.start) == Some(m)
            },
        forall|x: int, y: int|
            0 <= x < y < links_from(s, i).len() ==> (#[trigger] links_from(s, i)[x]).end <= (
            #[trigger] links_from(s, i)[y]).start,
    decreases s.len() - i,
{
    if i < 0 || i >= s.len() {
    } else {
        lemma_links_from_ascending(s, i + 1);
        let rest = links_from(s, i + 1);
        match match_at(s, i) {
            Some(m) => {
                lemma_match_at_bounds(s, i, m);
                let ls = links_from(s, i);
                assert(ls == seq![m] + rest);
                assert forall|x: int| 0 <= x < ls.len() implies {
                    let e = #[trigger] ls[x];
                    i <= e.start && e.start < e.end <= s.len() && match_at(s, e.start) == Some(e)
                } by {
                    if x > 0 {
                        assert(ls[x] == rest[x - 1]);
                    }
                }
                assert forall|x: int, y: int| 0 <= x < y < ls.len() implies (#[trigger] ls[x]).end
                    <= (#[trigger] ls[y]).start by {
                    if x > 0 {
                        assert(ls[x] == rest[x - 1] && ls[y] == rest[y - 1]);
                    } else {
                        let e = rest[y - 1];
                        assert(match_at(s, e.start) == Some(e));
                        assert(e.start >= i + 1);
                        if e.start < m.end {
                            lemma_match_inside_none(s, i, e.start, m);
                            assert(false);
                        }
                    }
                }
            },
            None => {
            },
        }
    }
}

/// The spans parsed from a text, with their recorded text, are strictly
/// ascending and lie within the text.
pub proof fn lemma_parse_links_ascending(s: Seq<char>)
    ensures
        forall|x: int|
            0 <= x < parse_links_spec(s).len() ==> (#[trigger] parse_links_spec(s)[x]).start
                < parse_links_spec(s)[x].end <= s.len(),
        forall|x: int, y: int|
            0 <= x < y < parse_links_spec(s).len() ==> (#[trigger] parse_links_spec(s)[x]).end <= (
            #[trigger] parse_links_spec(s)[y]).start,
{
    lemma_links_from_ascending(s, 0);
}

/// Spans recorded in a list of resolved links are nonempty, lie within a
/// text of length `len`, and come in strictly ascending disjoint order.
pub open spec fn links_ascending(rs: Seq<ResolvedLink>, len: int) -> bool {
    (forall|x: int|
        0 <= x < rs.len() ==> (#[trigger] rs[x]).wiki_link.start < rs[x].wiki_link.end <= len)
        && (forall|x: int, y: int|
        0 <= x < y < rs.len() ==> (#[trigger] rs[x]).wiki_link.end <= (
        #[trigger] rs[y]).wiki_link.start)
}

/// Insert a link into a list sorted by descending start position, after
/// any link that starts at the same position or later.
pub open spec fn insert_desc(x: ResolvedLink, s: Seq<ResolvedLink>) -> Seq<ResolvedLink>
    decreases s.len(),
{
    if s.len() == 0 {
        seq![x]
    } else if s[0].wiki_link.start >= x.wiki_link.start {
        seq![s[0]] + insert_desc(x, s.drop_first())
    } else {
        seq![x] + s
    }
}

/// The links sorted by descending start position; links with equal starts
/// keep their order.
pub open spec fn sort_desc(s: Seq<ResolvedLink>) -> Seq<ResolvedLink>
    decreases s.len(),
{
    if s.len() == 0 {
        Seq::empty()
    } else {
        insert_desc(s.last(), sort_desc(s.drop_last()))
    }
}

/// Sorting strictly ascending links by descending start reverses them.
pub proof fn lemma_sort_desc_of_ascending(rs: Seq<ResolvedLink>, len: int)
    requires
        links_ascending(rs, len),
    ensures
        sort_desc(rs) == rs.reverse(),
    decreases rs.len(),
{
    if rs.len() == 0 {
        assert(sort_desc(rs) =~= rs.reverse());
    } else {
        let front = rs.drop_last();
        assert(links_ascending(front, len)) by {
            assert(forall|x: int| 0 <= x < front.len() ==> front[x] == rs[x]);
        }
        lemma_sort_desc_of_ascending(front, len);
        let x = rs.last();
        let sorted = front.reverse();
        if sorted.len() == 0 {
            assert(insert_desc(x, sorted) =~= rs.reverse());
        } else {
            assert(sorted[0] == rs[rs.len() - 2]);
            assert(rs[rs.len() - 2].wiki_link.end <= x.wiki_link.start);
            assert(sorted[0].wiki_link.start < x.wiki_link.start);
            assert(insert_desc(x, sorted) == seq![x] + sorted);
            assert(seq![x] + sorted =~= rs.reverse());
        }
    }
}

/// The spans of links produced by `sort_desc` come in strictly
/// descending, disjoint order when the input was ascending; the sequence
/// is the input reversed, so sorting identical inputs always gives
/// byte-identical output.
pub proof fn lemma_sorted_links_descending(rs: Seq<ResolvedLink>, len: int)
    requires
        links_ascending(rs, len),
    ensures
        forall|x: int, y: int|
            0 <= x < y < sort_desc(rs).len() ==> (#[trigger] sort_desc(rs)[y]).wiki_link.end <= (
            #[trigger] sort_desc(rs)[x]).wiki_link.start,
        forall|x: int|
            0 <= x < sort_desc(rs).len() ==> (#[trigger] sort_desc(rs)[x]).wiki_link.start
                < sort_desc(rs)[x].wiki_link.end <= len,
        sort_desc(rs).len() == rs.len(),
{
    lemma_sort_desc_of_ascending(rs, len);
}

/// The text a resolved link is rendered as: the display text when one was
/// given, else the raw target.
pub open spec fn link_text_spec(l: ResolvedLink) -> Seq<char> {
    match l.wiki_link.display {
        Some(d) => d@,
        None => l.wiki_link.target@,
    }
}

/// The anchor element a resolved link becomes.
pub open spec fn anchor_spec(href: Seq<char>, text: Seq<char>) -> Seq<char> {
    "<a href=\""@ + escape_spec(href) + "\" class=\"wiki-link\">"@ + escape_spec(text) + "</a>"@
}

/// The marker a broken link becomes: a non-clickable span naming the
/// original target.
pub open spec fn broken_span_spec(target: Seq<char>, text: Seq<char>) -> Seq<char> {
    "<span class=\"wiki-link broken\" title=\"Link target not found: "@ + escape_spec(target)
        + "\">"@ + escape_spec(text) + "</span>"@
}

/// What a resolved link's span is replaced with, for a document rendered
/// at `current`: an anchor holding the relative path to the target, or
/// the broken-link marker.
pub open spec fn replacement_spec(l: ResolvedLink, current: Seq<char>) -> Seq<char> {
    match l.resolved_path {
        Some(p) => anchor_spec(relative_path_spec(current, p@), link_text_spec(l)),
        None => broken_span_spec(l.wiki_link.target@, link_text_spec(l)),
    }
}

/// The broken-link marker carries the original, non-normalized target
/// text (escaped for HTML).
pub proof fn lemma_broken_marker_contains_target(l: ResolvedLink, current: Seq<char>)
    requires
        l.resolved_path is None,
    ensures
        exists|pre: Seq<char>, post: Seq<char>|
            replacement_spec(l, current) == pre + escape_spec(l.wiki_link.target@) + post,
{
    let pre = "<span class=\"wiki-link broken\" title=\"Link target not found: "@;
    let post = "\">"@ + escape_spec(link_text_spec(l)) + "</span>"@;
    assert(replacement_spec(l, current) =~= pre + escape_spec(l.wiki_link.target@) + post);
}

/// Rewriting replaces each link's span, in the order given, with its
/// replacement; spans are taken against the text as it stands when their
/// turn comes, which is why callers order them by descending start.
pub open spec fn rewrite_spec(s: Seq<char>, links: Seq<ResolvedLink>, current: Seq<char>) -> Seq<
    char,
>
    decreases links.len(),
{
    if links.len() == 0 {
        s
    } else {
        let l = links[0];
        let spliced = s.take(l.wiki_link.start as int) + replacement_spec(l, current) + s.skip(
            l.wiki_link.end as int,
        );
        rewrite_spec(spliced, links.drop_first(), current)
    }
}

/// Render the replacement text for one resolved link.
fn build_replacement(l: &ResolvedLink, current: &str) -> (r: String)
    ensures
        r@ == replacement_spec(*l, current@),
{
    let text: &String = match &l.wiki_link.display {
        Some(d) => d,
        None => &l.wiki_link.target,
    };
    match &l.resolved_path {
        Some(p) => {
            let rel = relative_path_chars(current, p.as_str());
            let rel_s = chars_to_string(&rel);
            let mut out = String::new();
            out.append("<a href=\"");
            let href = html_escape(rel_s.as_str());
            out.append(href.as_str());
            out.append("\" class=\"wiki-link\">");
            let t = html_escape(text.as_str());
            out.append(t.as_str());
            out.append("</a>");
            proof {
                assert(out@ =~= replacement_spec(*l, current@));
            }
            out
        },
        None => {
            let mut out = String::new();
            out.append("<span class=\"wiki-link broken\" title=\"Link target not found: ");
            let t = html_escape(l.wiki_link.target.as_str());
            out.append(t.as_str());
            out.append("\">");
            let d = html_escape(text.as_str());
            out.append(d.as_str());
            out.append("</span>");
            proof {
                assert(out@ =~= replacement_spec(*l, current@));
            }
            out
        },
    }
}

/// Replace every wiki-link span of `content` with its rendered HTML.
/// Replacement proceeds in descending start order so that the spans not
/// yet replaced keep their positions. The spans must be those parsed from
/// this content: in ascending order and within bounds. The `Result`
/// mirrors how callers consume the function; with paths held as text the
/// rewrite cannot fail.
pub fn replace_wiki_links_with_html(
    content: &str,
    resolved_links: &Vec<ResolvedLink>,
    current_doc_path: &str,
) -> (r: Result<String, ParaSsgError>)
    requires
        links_ascending(resolved_links@, content@.len() as int),
    ensures
        r is Ok,
        r.unwrap()@ == rewrite_spec(content@, sort_desc(resolved_links@), current_doc_path@),
{
    let ghost sorted = sort_desc(resolved_links@);
    let ghost len0 = content@.len() as int;
    proof {
        lemma_sorted_links_descending(resolved_links@, len0);
        lemma_sort_desc_of_ascending(resolved_links@, len0);
    }
    let n = resolved_links.len();
    let mut text: Vec<char> = str_chars(content);
    let mut i: usize = 0;
    proof {
        assert(sorted.skip(0) =~= sorted);
    }
    while i < n
        invariant
            i <= n,
            n == resolved_links@.len(),
            sorted == sort_desc(resolved_links@),
            sorted == resolved_links@.reverse(),
            len0 == content@.len(),
            links_ascending(resolved_links@, len0),
            rewrite_spec(text@, sorted.skip(i as int), current_doc_path@) == rewrite_spec(
                content@,
                sorted,
                current_doc_path@,
            ),
            (if i == 0 {
                len0
            } else {
                sorted[i - 1].wiki_link.start as int
            }) <= text@.len(),
            text@.take(
                if i == 0 {
                    len0
                } else {
                    sorted[i - 1].wiki_link.start as int
                },
            ) == content@.take(
                if i == 0 {
                    len0
                } else {
                    sorted[i - 1].wiki_link.start as int
                },
            ),
        decreases n - i,
    {
        let ghost bound: int = if i == 0 {
            len0
        } else {
            sorted[i - 1].wiki_link.start as int
        };
        let l = &resolved_links[n - 1 - i];
        proof {
            assert(sorted[i as int] == resolved_links@[n - 1 - i]);
            assert(l.wiki_link.start < l.wiki_link.end <= len0);
            if i > 0 {
                assert(sorted[i - 1] == resolved_links@[n - i]);
                assert(resolved_links@[n - 1 - i].wiki_link.end
                    <= resolved_links@[n - i].wiki_link.start);
            }
            assert(l.wiki_link.end <= bound);
        }
        let start = l.wiki_link.start;
        let end = l.wiki_link.end;
        let repl = build_replacement(l, current_doc_path);
        let repl_chars = str_chars(repl.as_str());
        let mut new_text = chars_slice(&text, 0, start);
        proof {
            assert(text@.subrange(0, start as int) =~= text@.take(start as int));
        }
        push_all(&mut new_text, &repl_chars);
        let tail = chars_slice(&text, end, text.len());
        push_all(&mut new_text, &tail);
        proof {
            assert(text@.subrange(end as int, text@.len() as int) =~= text@.skip(end as int));
            assert(new_text@ == text@.take(start as int) + replacement_spec(
                sorted[i as int],
                current_doc_path@,
            ) + text@.skip(end as int));
            assert(sorted.skip(i as int)[0] == sorted[i as int]);
            assert(sorted.skip(i as int).drop_first() =~= sorted.skip(i as int + 1));
        }
        text = new_text;
        i = i + 1;
        proof {
            let nb: int = sorted[i - 1].wiki_link.start as int;
            assert(nb == start as int);
            assert(nb <= text@.len());
            assert forall|x: int| 0 <= x < nb implies text@[x] == content@[x] by {
                assert(text@[x] == text@.take(start as int)[x]);
            }
            assert(text@.take(nb) =~= content@.take(nb));
        }
    }
    proof {
        assert(sorted.skip(n as int) =~= Seq::<ResolvedLink>::empty());
    }
    Ok(chars_to_string(&text))
}

} // verus!
