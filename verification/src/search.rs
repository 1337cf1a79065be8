//! The search index: per-document entries of plain text extracted from
//! the rendered HTML, and the statistics over them. Serializing the index
//! to disk is the caller's business.

use vstd::prelude::*;

use crate::document::Document;
use crate::text::chars_slice;
use crate::text::chars_to_string;
use crate::text::join;
use crate::text::lower_char;
use crate::text::lower_char_spec;
use crate::text::occurs_at;
use crate::text::occurs_here;
use crate::text::runs;
use crate::text::space_pred;
use crate::text::split_runs_ws;
use crate::text::str_chars;
use crate::text::str_eq;
use crate::text::join_chars;
use crate::text::trim_chars;
use crate::text::trim_spec;
use crate::markdown::rfind_char;

verus! {

/// What a `<script>` element scan leaves: text outside script elements,
/// with one space standing for each element; an unterminated element
/// drops the rest.
pub open spec fn strip_script_from(s: Seq<char>, i: int, inside: bool) -> Seq<char>
    decreases s.len() - i,
{
    if i < 0 || i >= s.len() {
        Seq::empty()
    } else if inside {
        if occurs_at(s, "</script>"@, i) && i + 9 <= s.len() {
            strip_script_from(s, i + 9, false)
        } else {
            strip_script_from(s, i + 1, true)
        }
    } else if occurs_at(s, "<script"@, i) {
        seq![' '] + strip_script_from(s, i + 1, true)
    } else {
        seq![s[i]] + strip_script_from(s, i + 1, false)
    }
}

/// As `strip_script_from`, for `<style>` elements.
pub open spec fn strip_style_from(s: Seq<char>, i: int, inside: bool) -> Seq<char>
    decreases s.len() - i,
{
    if i < 0 || i >= s.len() {
        Seq::empty()
    } else if inside {
        if occurs_at(s, "</style>"@, i) && i + 8 <= s.len() {
            strip_style_from(s, i + 8, false)
        } else {
            strip_style_from(s, i + 1, true)
        }
    } else if occurs_at(s, "<style"@, i) {
        seq![' '] + strip_style_from(s, i + 1, true)
    } else {
        seq![s[i]] + strip_style_from(s, i + 1, false)
    }
}

/// What a tag scan leaves: a space for each tag, text kept otherwise; an
/// unterminated tag drops the rest.
pub open spec fn strip_tags_from(s: Seq<char>, i: int, inside: bool) -> Seq<char>
    decreases s.len() - i,
{
    if i < 0 || i >= s.len() {
        Seq::empty()
    } else if inside {
        if s[i] == '>' {
            strip_tags_from(s, i + 1, false)
        } else {
            strip_tags_from(s, i + 1, true)
        }
    } else if s[i] == '<' {
        seq![' '] + strip_tags_from(s, i + 1, true)
    } else {
        seq![s[i]] + strip_tags_from(s, i + 1, false)
    }
}

/// The five entities HTML escaping produces, decoded; other text kept.
pub open spec fn decode_entities_from(s: Seq<char>, i: int) -> Seq<char>
    decreases s.len() - i,
{
    if i < 0 || i >= s.len() {
        Seq::empty()
    } else if occurs_at(s, "&amp;"@, i) && i + 5 <= s.len() {
        seq!['&'] + decode_entities_from(s, i + 5)
    } else if occurs_at(s, "&lt;"@, i) && i + 4 <= s.len() {
        seq!['<'] + decode_entities_from(s, i + 4)
    } else if occurs_at(s, "&gt;"@, i) && i + 4 <= s.len() {
        seq!['>'] + decode_entities_from(s, i + 4)
    } else if occurs_at(s, "&quot;"@, i) && i + 6 <= s.len() {
        seq!['"'] + decode_entities_from(s, i + 6)
    } else if occurs_at(s, "&#39;"@, i) && i + 5 <= s.len() {
        seq!['\''] + decode_entities_from(s, i + 5)
    } else {
        seq![s[i]] + decode_entities_from(s, i + 1)
    }
}

/// The plain text of an HTML fragment: script and style elements
/// removed, tags removed, the basic entities decoded, and whitespace
/// collapsed to single spaces with none at either end.
pub open spec fn plain_text_spec(s: Seq<char>) -> Seq<char> {
    join(
        runs(
            decode_entities_from(
                strip_tags_from(strip_style_from(strip_script_from(s, 0, false), 0, false), 0, false),
                0,
            ),
            space_pred(),
        ),
        ' ',
    )
}

/// Run the script-element scan.
fn strip_script_exec(v: &Vec<char>) -> (r: Vec<char>)
    ensures
        r@ == strip_script_from(v@, 0, false),
{
    let mut out: Vec<char> = Vec::new();
    let mut inside = false;
    let mut i: usize = 0;
    proof {
        reveal_strlit("<script");
        reveal_strlit("</script>");
        assert("<script"@.len() == 7);
        assert("</script>"@.len() == 9);
        assert(out@ + strip_script_from(v@, 0, false) =~= strip_script_from(v@, 0, false));
    }
    let n = v.len();
    while i < n
        invariant
            i <= v@.len(),
            n == v@.len(),
            out@ + strip_script_from(v@, i as int, inside) == strip_script_from(v@, 0, false),
        decreases v@.len() - i,
    {
        let ghost pre = out@;
        if inside {
            if occurs_here(v, "</script>", i) {
                proof {
                    reveal_strlit("</script>");
                    assert("</script>"@.len() == 9);
                    assert(i + 9 <= v@.len());
                }
                inside = false;
                i = i + 9;
            } else {
                i = i + 1;
            }
        } else if occurs_here(v, "<script", i) {
            out.push(' ');
            inside = true;
            i = i + 1;
            proof {
                assert(out@ =~= pre + seq![' ']);
            }
        } else {
            out.push(v[i]);
            i = i + 1;
            proof {
                assert(out@ =~= pre + seq![v@[i - 1]]);
            }
        }
    }
    out
}

/// Run the style-element scan.
fn strip_style_exec(v: &Vec<char>) -> (r: Vec<char>)
    ensures
        r@ == strip_style_from(v@, 0, false),
{
    let mut out: Vec<char> = Vec::new();
    let mut inside = false;
    let mut i: usize = 0;
    proof {
        reveal_strlit("<style");
        reveal_strlit("</style>");
        assert("<style"@.len() == 6);
        assert("</style>"@.len() == 8);
        assert(out@ + strip_style_from(v@, 0, false) =~= strip_style_from(v@, 0, false));
    }
    let n = v.len();
    while i < n
        invariant
            i <= v@.len(),
            n == v@.len(),
            out@ + strip_style_from(v@, i as int, inside) == strip_style_from(v@, 0, false),
        decreases v@.len() - i,
    {
        let ghost pre = out@;
        if inside {
            if occurs_here(v, "</style>", i) {
                proof {
                    reveal_strlit("</style>");
                    assert("</style>"@.len() == 8);
                    assert(i + 8 <= v@.len());
                }
                inside = false;
                i = i + 8;
            } else {
                i = i + 1;
            }
        } else if occurs_here(v, "<style", i) {
            out.push(' ');
            inside = true;
            i = i + 1;
            proof {
                assert(out@ =~= pre + seq![' ']);
            }
        } else {
            out.push(v[i]);
            i = i + 1;
            proof {
                assert(out@ =~= pre + seq![v@[i - 1]]);
            }
        }
    }
    out
}

/// Run the tag scan.
fn strip_tags_exec(v: &Vec<char>) -> (r: Vec<char>)
    ensures
        r@ == strip_tags_from(v@, 0, false),
{
    let mut out: Vec<char> = Vec::new();
    let mut inside = false;
    let mut i: usize = 0;
    proof {
        assert(out@ + strip_tags_from(v@, 0, false) =~= strip_tags_from(v@, 0, false));
    }
    while i < v.len()
        invariant
            i <= v@.len(),
            out@ + strip_tags_from(v@, i as int, inside) == strip_tags_from(v@, 0, false),
        decreases v@.len() - i,
    {
        let ghost pre = out@;
        if inside {
            if v[i] == '>' {
                inside = false;
            }
            i = i + 1;
        } else if v[i] == '<' {
            out.push(' ');
            inside = true;
            i = i + 1;
            proof {
                assert(out@ =~= pre + seq![' ']);
            }
        } else {
            out.push(v[i]);
            i = i + 1;
            proof {
                assert(out@ =~= pre + seq![v@[i - 1]]);
            }
        }
    }
    out
}

/// Run the entity scan.
fn decode_entities_exec(v: &Vec<char>) -> (r: Vec<char>)
    ensures
        r@ == decode_entities_from(v@, 0),
{
    let mut out: Vec<char> = Vec::new();
    let mut i: usize = 0;
    proof {
        reveal_strlit("&amp;");
        reveal_strlit("&lt;");
        reveal_strlit("&gt;");
        reveal_strlit("&quot;");
        reveal_strlit("&#39;");
        assert("&amp;"@.len() == 5);
        assert("&lt;"@.len() == 4);
        assert("&gt;"@.len() == 4);
        assert("&quot;"@.len() == 6);
        assert("&#39;"@.len() == 5);
        assert(out@ + decode_entities_from(v@, 0) =~= decode_entities_from(v@, 0));
    }
    let n = v.len();
    while i < n
        invariant
            i <= v@.len(),
            n == v@.len(),
            out@ + decode_entities_from(v@, i as int) == decode_entities_from(v@, 0),
        decreases v@.len() - i,
    {
        let ghost pre = out@;
        proof {
            reveal_strlit("&amp;");
            reveal_strlit("&lt;");
            reveal_strlit("&gt;");
            reveal_strlit("&quot;");
            reveal_strlit("&#39;");
            assert("&amp;"@.len() == 5 && "&lt;"@.len() == 4 && "&gt;"@.len() == 4
                && "&quot;"@.len() == 6 && "&#39;"@.len() == 5);
        }
        if occurs_here(v, "&amp;", i) {
            out.push('&');
            i = i + 5;
            proof {
                assert(out@ =~= pre + seq!['&']);
            }
        } else if occurs_here(v, "&lt;", i) {
            out.push('<');
            i = i + 4;
            proof {
                assert(out@ =~= pre + seq!['<']);
            }
        } else if occurs_here(v, "&gt;", i) {
            out.push('>');
            i = i + 4;
            proof {
                assert(out@ =~= pre + seq!['>']);
            }
        } else if occurs_here(v, "&quot;", i) {
            out.push('"');
            i = i + 6;
            proof {
                assert(out@ =~= pre + seq!['"']);
            }
        } else if occurs_here(v, "&#39;", i) {
            out.push('\'');
            i = i + 5;
            proof {
                assert(out@ =~= pre + seq!['\'']);
            }
        } else {
            out.push(v[i]);
            i = i + 1;
            proof {
                assert(out@ =~= pre + seq![v@[i - 1]]);
            }
        }
    }
    out
}

/// Extract plain text from HTML content.
pub fn extract_plain_text(html: &str) -> (r: String)
    ensures
        r@ == plain_text_spec(html@),
{
    let v = str_chars(html);
    let a = strip_script_exec(&v);
    let b = strip_style_exec(&a);
    let c = strip_tags_exec(&b);
    let d = decode_entities_exec(&c);
    let words = split_runs_ws(&d);
    let joined = join_chars(&words, ' ');
    chars_to_string(&joined)
}

/// An excerpt of at most `max` characters (plus the ellipsis): text that
/// fits is kept whole; longer text is cut at the last word boundary
/// before the limit (or hard at the limit), trimmed and marked.
pub open spec fn excerpt_spec(s: Seq<char>, max: int) -> Seq<char> {
    if s.len() <= max {
        s
    } else {
        let cut = s.take(max);
        let sp = rfind_char(cut, ' ');
        let base = if sp >= 0 {
            cut.take(sp)
        } else {
            cut
        };
        trim_spec(base) + "..."@
    }
}

/// Generate an excerpt from content.
pub fn generate_excerpt(content: &str, max_length: usize) -> (r: String)
    ensures
        r@ == excerpt_spec(content@, max_length as int),
{
    let v = str_chars(content);
    if v.len() <= max_length {
        return chars_to_string(&v);
    }
    let cut = chars_slice(&v, 0, max_length);
    proof {
        assert(cut@ =~= v@.take(max_length as int));
    }
    let base = match crate::markdown::rfind_space(&cut) {
        Some(sp) => chars_slice(&cut, 0, sp),
        None => cut,
    };
    proof {
        if rfind_char(v@.take(max_length as int), ' ') >= 0 {
            assert(base@ =~= v@.take(max_length as int).take(
                rfind_char(v@.take(max_length as int), ' '),
            ));
        }
    }
    let trimmed = trim_chars(&base);
    let mut out = chars_to_string(&trimmed);
    out.append("...");
    out
}

/// Searchable content: the text folded to lower case and cut to at most
/// `max` characters.
pub open spec fn search_content_spec(s: Seq<char>, max: int) -> Seq<char> {
    let lowered = s.map_values(|c: char| lower_char_spec(c));
    if lowered.len() > max {
        lowered.take(max)
    } else {
        lowered
    }
}

/// Process content for searching: lower-cased and truncated.
pub fn process_content_for_search(content: &str, max_length: usize) -> (r: String)
    ensures
        r@ == search_content_spec(content@, max_length as int),
{
    let v = str_chars(content);
    let mut m: Vec<char> = Vec::new();
    let mut i: usize = 0;
    while i < v.len()
        invariant
            i <= v@.len(),
            m@ == v@.map_values(|c: char| lower_char_spec(c)).take(i as int),
        decreases v@.len() - i,
    {
        m.push(lower_char(v[i]));
        i = i + 1;
        proof {
            assert(m@ =~= v@.map_values(|c: char| lower_char_spec(c)).take(i as int));
        }
    }
    proof {
        let full = v@.map_values(|c: char| lower_char_spec(c));
        assert(full.take(v@.len() as int) =~= full);
    }
    if m.len() > max_length {
        let cut = chars_slice(&m, 0, max_length);
        chars_to_string(&cut)
    } else {
        proof {
            let full = v@.map_values(|c: char| lower_char_spec(c));
            assert(m@ == full);
        }
        chars_to_string(&m)
    }
}

/// One searchable document.
pub struct SearchEntry {
    /// Document title.
    pub title: String,
    /// Path of the rendered page, relative to the site root.
    pub path: String,
    /// PARA category.
    pub category: String,
    /// Document tags.
    pub tags: Vec<String>,
    /// Content excerpt for previews.
    pub excerpt: String,
    /// Lower-cased text for case-insensitive search.
    pub content: String,
}

/// Excerpts are cut at 200 characters.
pub open spec fn max_excerpt_len() -> int {
    200
}

/// Indexed content is cut at 5000 characters per document.
pub open spec fn max_content_len() -> int {
    5000
}

/// Copy a list of strings.
fn clone_strings(v: &Vec<String>) -> (r: Vec<String>)
    ensures
        r@ == v@,
{
    let mut r: Vec<String> = Vec::new();
    let mut i: usize = 0;
    while i < v.len()
        invariant
            i <= v@.len(),
            r@ == v@.take(i as int),
        decreases v@.len() - i,
    {
        r.push(v[i].clone());
        i = i + 1;
        proof {
            assert(r@ =~= v@.take(i as int));
        }
    }
    proof {
        assert(v@.take(v@.len() as int) =~= v@);
    }
    r
}

impl SearchEntry {
    /// Build the search entry of one document from its rendered HTML.
    pub fn from_document(doc: &Document) -> (r: SearchEntry)
        ensures
            r.title@ == doc.title_spec(),
            r.path == doc.output_path,
            r.category@ == doc.effective_category_spec(),
            r.tags@ == doc.metadata.tags@,
            r.excerpt@ == excerpt_spec(plain_text_spec(doc.html_content@), max_excerpt_len()),
            r.content@ == search_content_spec(
                plain_text_spec(doc.html_content@),
                max_content_len(),
            ),
    {
        let plain = extract_plain_text(doc.html_content.as_str());
        let excerpt = generate_excerpt(plain.as_str(), 200);
        let content = process_content_for_search(plain.as_str(), 5000);
        SearchEntry {
            title: doc.title(),
            path: doc.output_path.clone(),
            category: doc.effective_category(),
            tags: clone_strings(&doc.metadata.tags),
            excerpt,
            content,
        }
    }
}

} // verus!

verus! {

/// Statistics over the index.
pub struct IndexStats {
    /// Number of indexed documents.
    pub total_documents: usize,
    /// Number of documents per category, in first-appearance order.
    pub documents_by_category: Vec<(String, usize)>,
    /// Total size of indexed content, in characters.
    pub total_content_size: usize,
    /// Average excerpt length, in characters.
    pub avg_excerpt_length: usize,
}

/// The whole search index.
pub struct SearchIndex {
    /// Version of the index format.
    pub version: String,
    /// One entry per published document.
    pub documents: Vec<SearchEntry>,
    /// Statistics over the entries.
    pub stats: IndexStats,
}

/// The documents the index covers: the set with drafts removed.
pub open spec fn published_docs(docs: Seq<Document>) -> Seq<Document>
    decreases docs.len(),
{
    if docs.len() == 0 {
        Seq::empty()
    } else {
        (if docs[0].is_draft_spec() {
            Seq::empty()
        } else {
            seq![docs[0]]
        }) + published_docs(docs.drop_first())
    }
}

/// The sum of the indexed content sizes over the published documents.
pub open spec fn content_sizes_spec(docs: Seq<Document>) -> int
    decreases docs.len(),
{
    if docs.len() == 0 {
        0
    } else {
        search_content_spec(plain_text_spec(docs[0].html_content@), max_content_len()).len()
            + content_sizes_spec(docs.drop_first())
    }
}

/// The sum of the excerpt lengths over the published documents.
pub open spec fn excerpt_sizes_spec(docs: Seq<Document>) -> int
    decreases docs.len(),
{
    if docs.len() == 0 {
        0
    } else {
        excerpt_spec(plain_text_spec(docs[0].html_content@), max_excerpt_len()).len()
            + excerpt_sizes_spec(docs.drop_first())
    }
}

/// Per-category counts, keyed by effective category in first-appearance
/// order.
pub open spec fn category_counts_step(
    acc: Seq<(Seq<char>, int)>,
    cat: Seq<char>,
) -> Seq<(Seq<char>, int)> {
    if exists|i: int| 0 <= i < acc.len() && acc[i].0 == cat {
        let i = choose|i: int| 0 <= i < acc.len() && acc[i].0 == cat;
        acc.update(i, (cat, acc[i].1 + 1))
    } else {
        acc + seq![(cat, 1int)]
    }
}

/// The category counts of a list of entries (by their category fields).
pub open spec fn category_counts_spec(cats: Seq<Seq<char>>) -> Seq<(Seq<char>, int)>
    decreases cats.len(),
{
    if cats.len() == 0 {
        Seq::empty()
    } else {
        category_counts_step(category_counts_spec(cats.drop_last()), cats.last())
    }
}

/// The categories of a list of entries.
pub open spec fn entry_cats(es: Seq<SearchEntry>) -> Seq<Seq<char>> {
    es.map_values(|e: SearchEntry| e.category@)
}

/// View of the per-category counters.
pub open spec fn counters_view(cs: Seq<(String, usize)>) -> Seq<(Seq<char>, int)> {
    cs.map_values(|c: (String, usize)| (c.0@, c.1 as int))
}

/// No two counters share a category.
pub open spec fn distinct_counters(cs: Seq<(Seq<char>, int)>) -> bool {
    forall|k1: int, k2: int|
        0 <= k1 < k2 < cs.len() ==> (#[trigger] cs[k1]).0 != (#[trigger] cs[k2]).0
}

/// Find the counter for a category.
fn find_counter(cs: &Vec<(String, usize)>, cat: &str) -> (r: Option<usize>)
    ensures
        match r {
            Some(k) => k < cs@.len() && cs@[k as int].0@ == cat@ && forall|x: int|
                0 <= x < k ==> cs@[x].0@ != cat@,
            None => forall|x: int| 0 <= x < cs@.len() ==> cs@[x].0@ != cat@,
        },
{
    let mut k: usize = 0;
    while k < cs.len()
        invariant
            k <= cs@.len(),
            forall|x: int| 0 <= x < k ==> cs@[x].0@ != cat@,
        decreases cs@.len() - k,
    {
        if str_eq(cs[k].0.as_str(), cat) {
            return Some(k);
        }
        k = k + 1;
    }
    None
}

impl SearchIndex {
    /// Build the index over the published (non-draft) documents: one
    /// entry per document, with counts per category and size statistics.
    /// The total content size must fit the machine's word size.
    pub fn from_documents(documents: &Vec<Document>) -> (r: SearchIndex)
        requires
            content_sizes_spec(published_docs(documents@)) <= usize::MAX,
            excerpt_sizes_spec(published_docs(documents@)) <= usize::MAX,
        ensures
            r.version@ == "1.0"@,
            r.documents@.len() == published_docs(documents@).len(),
            forall|i: int|
                0 <= i < r.documents@.len() ==> {
                    let d = published_docs(documents@)[i];
                    let e = #[trigger] r.documents@[i];
                    e.title@ == d.title_spec() && e.path == d.output_path && e.category@
                        == d.effective_category_spec() && e.tags@ == d.metadata.tags@ && e.excerpt@
                        == excerpt_spec(plain_text_spec(d.html_content@), max_excerpt_len())
                        && e.content@ == search_content_spec(
                        plain_text_spec(d.html_content@),
                        max_content_len(),
                    )
                },
            r.stats.total_documents == published_docs(documents@).len(),
            counters_view(r.stats.documents_by_category@) == category_counts_spec(
                entry_cats(r.documents@),
            ),
            r.stats.total_content_size == content_sizes_spec(published_docs(documents@)),
            r.stats.avg_excerpt_length == (if published_docs(documents@).len() == 0 {
                0int
            } else {
                excerpt_sizes_spec(published_docs(documents@)) / (published_docs(
                    documents@,
                ).len() as int)
            }),
    {
        let mut entries: Vec<SearchEntry> = Vec::new();
        let mut total_content_size: usize = 0;
        let mut total_excerpt_length: usize = 0;
        let mut i: usize = 0;
        proof {
            assert(documents@.skip(0) =~= documents@);
            lemma_published_append_empty(documents@);
        }
        while i < documents.len()
            invariant
                i <= documents@.len(),
                published_take(documents@, i as int).len() == entries@.len(),
                forall|k: int|
                    0 <= k < entries@.len() ==> {
                        let d = published_take(documents@, i as int)[k];
                        let e = #[trigger] entries@[k];
                        e.title@ == d.title_spec() && e.path == d.output_path && e.category@
                            == d.effective_category_spec() && e.tags@ == d.metadata.tags@
                            && e.excerpt@ == excerpt_spec(
                            plain_text_spec(d.html_content@),
                            max_excerpt_len(),
                        ) && e.content@ == search_content_spec(
                            plain_text_spec(d.html_content@),
                            max_content_len(),
                        )
                    },
                total_content_size <= usize::MAX,
                total_excerpt_length <= usize::MAX,
                content_sizes_spec(published_docs(documents@)) <= usize::MAX,
                excerpt_sizes_spec(published_docs(documents@)) <= usize::MAX,
                total_content_size + content_sizes_spec(
                    published_skip_part(documents@, i as int),
                ) == content_sizes_spec(published_docs(documents@)),
                total_excerpt_length + excerpt_sizes_spec(
                    published_skip_part(documents@, i as int),
                ) == excerpt_sizes_spec(published_docs(documents@)),
            decreases documents@.len() - i,
        {
            let doc = &documents[i];
            proof {
                lemma_published_take_step(documents@, i as int);
            }
            if !doc.is_draft() {
                let entry = SearchEntry::from_document(doc);
                proof {
                    lemma_sizes_nonneg(published_skip_part(documents@, i as int + 1));
                    assert(content_sizes_spec(published_skip_part(documents@, i as int))
                        == entry.content@.len() + content_sizes_spec(
                        published_skip_part(documents@, i as int + 1),
                    ));
                    assert(excerpt_sizes_spec(published_skip_part(documents@, i as int))
                        == entry.excerpt@.len() + excerpt_sizes_spec(
                        published_skip_part(documents@, i as int + 1),
                    ));
                }
                total_content_size = total_content_size + entry.content.as_str().unicode_len();
                total_excerpt_length = total_excerpt_length + entry.excerpt.as_str().unicode_len();
                entries.push(entry);
            }
            i = i + 1;
        }
        proof {
            lemma_published_take_full(documents@);
        }
        let mut documents_by_category: Vec<(String, usize)> = Vec::new();
        let mut j: usize = 0;
        proof {
            assert(entry_cats(entries@).take(0) =~= Seq::<Seq<char>>::empty());
            assert(counters_view(documents_by_category@) =~= category_counts_spec(
                entry_cats(entries@).take(0),
            ));
        }
        while j < entries.len()
            invariant
                j <= entries@.len(),
                counters_view(documents_by_category@) == category_counts_spec(
                    entry_cats(entries@).take(j as int),
                ),
                distinct_counters(counters_view(documents_by_category@)),
                forall|k: int|
                    0 <= k < documents_by_category@.len() ==> (
                    #[trigger] documents_by_category@[k]).1 <= j,
            decreases entries@.len() - j,
        {
            let cat = entries[j].category.clone();
            let ghost pre = counters_view(documents_by_category@);
            let ghost cv = entries@[j as int].category@;
            let found = find_counter(&documents_by_category, cat.as_str());
            if let Some(k) = found {
                let ghost kk = k as int;
                let mut c = documents_by_category.remove(k);
                proof {
                    assert(pre[kk].1 <= j);
                }
                c.1 = c.1 + 1;
                documents_by_category.insert(k, c);
                proof {
                    assert(pre[kk].0 == cv);
                    let w = choose|w: int| 0 <= w < pre.len() && pre[w].0 == cv;
                    assert(w == kk) by {
                        if w < kk {
                            assert(pre[w].0 != cv);
                        } else if kk < w {
                            assert(pre[kk].0 != pre[w].0);
                        }
                    }
                    assert(counters_view(documents_by_category@) =~= pre.update(
                        kk,
                        (cv, pre[kk].1 + 1),
                    ));
                    assert(counters_view(documents_by_category@) == category_counts_step(pre, cv));
                    assert(forall|x: int|
                        0 <= x < counters_view(documents_by_category@).len() ==> (
                        #[trigger] counters_view(documents_by_category@)[x]).0 == pre[x].0);
                    assert(distinct_counters(counters_view(documents_by_category@)));
                }
            } else {
                documents_by_category.push((cat, 1));
                proof {
                    assert forall|x: int| 0 <= x < pre.len() implies (#[trigger] pre[x]).0 != cv by {
                        assert(pre[x].0 == documents_by_category@[x].0@);
                    }
                    assert(counters_view(documents_by_category@) =~= pre + seq![(cv, 1int)]);
                    assert(counters_view(documents_by_category@) == category_counts_step(pre, cv));
                    assert(distinct_counters(counters_view(documents_by_category@)));
                }
            }
            j = j + 1;
            proof {
                assert(entry_cats(entries@).take(j as int).drop_last() =~= entry_cats(
                    entries@,
                ).take(j as int - 1));
                assert(entry_cats(entries@).take(j as int).last() == entry_cats(entries@)[j - 1]);
            }
        }
        proof {
            assert(entry_cats(entries@).take(entries@.len() as int) =~= entry_cats(entries@));
        }
        proof {
            assert(total_excerpt_length == excerpt_sizes_spec(published_docs(documents@)));
        }
        let avg_excerpt_length: usize = if entries.len() == 0 {
            0
        } else {
            total_excerpt_length / entries.len()
        };
        let mut version = String::new();
        version.append("1.0");
        proof {
            assert(version@ =~= "1.0"@);
        }
        let total_documents = entries.len();
        SearchIndex {
            version,
            documents: entries,
            stats: IndexStats {
                total_documents,
                documents_by_category,
                total_content_size,
                avg_excerpt_length,
            },
        }
    }
}

/// The published documents among the first `i`.
pub open spec fn published_take(docs: Seq<Document>, i: int) -> Seq<Document> {
    published_docs(docs.take(i))
}

/// The published documents from position `i` on.
pub open spec fn published_skip_part(docs: Seq<Document>, i: int) -> Seq<Document> {
    published_docs(docs.skip(i))
}

/// Sizes are not negative.
proof fn lemma_sizes_nonneg(docs: Seq<Document>)
    ensures
        content_sizes_spec(docs) >= 0,
        excerpt_sizes_spec(docs) >= 0,
    decreases docs.len(),
{
    if docs.len() > 0 {
        lemma_sizes_nonneg(docs.drop_first());
        lemma_sizes_nonneg(docs.drop_last());
    }
}

/// Taking no documents publishes none, and the whole tail is published
/// from position zero.
proof fn lemma_published_append_empty(docs: Seq<Document>)
    ensures
        published_take(docs, 0) == Seq::<Document>::empty(),
        published_skip_part(docs, 0) == published_docs(docs),
{
    assert(docs.take(0) =~= Seq::<Document>::empty());
    assert(docs.skip(0) =~= docs);
}

/// Appending one document to a prefix appends its entry when it is
/// published.
proof fn lemma_published_push(docs: Seq<Document>, d: Document)
    ensures
        published_docs(docs.push(d)) == published_docs(docs) + (if d.is_draft_spec() {
            Seq::<Document>::empty()
        } else {
            seq![d]
        }),
    decreases docs.len(),
{
    if docs.len() == 0 {
        assert(docs.push(d)[0] == d);
        assert(docs.push(d).drop_first() =~= docs);
        assert(published_docs(docs.push(d)) =~= published_docs(docs) + (if d.is_draft_spec() {
            Seq::<Document>::empty()
        } else {
            seq![d]
        }));
    } else {
        assert(docs.push(d)[0] == docs[0]);
        assert(docs.push(d).drop_first() =~= docs.drop_first().push(d));
        lemma_published_push(docs.drop_first(), d);
        assert(published_docs(docs.push(d)) =~= published_docs(docs) + (if d.is_draft_spec() {
            Seq::<Document>::empty()
        } else {
            seq![d]
        }));
    }
}

/// One step of the scan extends the published prefix and shrinks the
/// published suffix by the same document.
proof fn lemma_published_take_step(docs: Seq<Document>, i: int)
    requires
        0 <= i < docs.len(),
    ensures
        published_take(docs, i + 1) == published_take(docs, i) + (if docs[i].is_draft_spec() {
            Seq::<Document>::empty()
        } else {
            seq![docs[i]]
        }),
        published_skip_part(docs, i) == (if docs[i].is_draft_spec() {
            Seq::<Document>::empty()
        } else {
            seq![docs[i]]
        }) + published_skip_part(docs, i + 1),
        content_sizes_spec(published_skip_part(docs, i)) == (if docs[i].is_draft_spec() {
            0int
        } else {
            search_content_spec(plain_text_spec(docs[i].html_content@), max_content_len()).len()
                as int
        }) + content_sizes_spec(published_skip_part(docs, i + 1)),
        excerpt_sizes_spec(published_skip_part(docs, i)) == (if docs[i].is_draft_spec() {
            0int
        } else {
            excerpt_spec(plain_text_spec(docs[i].html_content@), max_excerpt_len()).len() as int
        }) + excerpt_sizes_spec(published_skip_part(docs, i + 1)),
{
    lemma_published_push(docs.take(i), docs[i]);
    assert(docs.take(i + 1) =~= docs.take(i).push(docs[i]));
    assert(docs.skip(i)[0] == docs[i]);
    assert(docs.skip(i).drop_first() =~= docs.skip(i + 1));
    let tail = published_skip_part(docs, i + 1);
    if !docs[i].is_draft_spec() {
        lemma_sizes_head(seq![docs[i]] + tail);
        assert((seq![docs[i]] + tail)[0] == docs[i]);
        assert((seq![docs[i]] + tail).drop_first() =~= tail);
    }
}

/// Unfolding the size sums at a nonempty list's head.
proof fn lemma_sizes_head(docs: Seq<Document>)
    requires
        docs.len() > 0,
    ensures
        content_sizes_spec(docs) == search_content_spec(
            plain_text_spec(docs[0].html_content@),
            max_content_len(),
        ).len() + content_sizes_spec(docs.drop_first()),
        excerpt_sizes_spec(docs) == excerpt_spec(
            plain_text_spec(docs[0].html_content@),
            max_excerpt_len(),
        ).len() + excerpt_sizes_spec(docs.drop_first()),
{
}

/// Scanning every document publishes the whole set.
proof fn lemma_published_take_full(docs: Seq<Document>)
    ensures
        published_take(docs, docs.len() as int) == published_docs(docs),
        published_skip_part(docs, docs.len() as int) == Seq::<Document>::empty(),
        content_sizes_spec(Seq::<Document>::empty()) == 0,
        excerpt_sizes_spec(Seq::<Document>::empty()) == 0,
{
    assert(docs.take(docs.len() as int) =~= docs);
    assert(docs.skip(docs.len() as int) =~= Seq::<Document>::empty());
}

} // verus!
