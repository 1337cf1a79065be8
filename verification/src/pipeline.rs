//! The build pipeline: parse every source document, build the lookup
//! table from the whole set, resolve and rewrite each document's wiki
//! links, invert them into backlinks, and derive the statistics. Reading
//! files and writing pages is the caller's business; the pipeline works
//! on contents already read.

use vstd::prelude::*;

use crate::backlinks::LinkStatistics;
use crate::backlinks::all_contribs;
use crate::backlinks::apply_backlinks_to_documents;
use crate::backlinks::applied_backlinks;
use crate::backlinks::backlinks_view;
use crate::backlinks::broken_links_spec;
use crate::backlinks::build_backlink_index;
use crate::backlinks::calculate_link_statistics;
use crate::backlinks::index_get;
use crate::backlinks::index_spec;
use crate::backlinks::index_view;
use crate::backlinks::same_doc_but_backlinks;
use crate::backlinks::sort_blv;
use crate::backlinks::sorted_by_title;
use crate::backlinks::lemma_sort_blv_sorted;
use crate::backlinks::total_links_spec;
use crate::document::Document;
use crate::document::DocumentMetadata;
use crate::document::output_path_spec;
use crate::error::ParaSsgError;
use crate::frontmatter::FmSplit;
use crate::frontmatter::date_field_spec;
use crate::frontmatter::has_tab_indent;
use crate::frontmatter::parse_frontmatter;
use crate::frontmatter::split_frontmatter_spec;
use crate::markdown::cmark_html;
use crate::markdown::markdown_to_html;
use crate::markdown::render_document_content;
use crate::text::trim_spec;
use crate::wiki_links::build_document_lookup;
use crate::wiki_links::links_view;
use crate::wiki_links::lookup_result;
use crate::wiki_links::normalize_spec;
use crate::wiki_links::entries_view;
use crate::wiki_links::parse_links_spec;
use crate::wiki_links::ResolvedLink;
use crate::wiki_links::rewrite_spec;
use crate::wiki_links::sort_desc;
use crate::yaml::yaml_field;
use crate::yaml::yaml_ok;
use crate::yaml::yaml_top_keys_of;

verus! {

/// One document handed to the pipeline, its content already read.
pub struct SourceDocument {
    /// Path of the source file.
    pub path: String,
    /// Path relative to the input root.
    pub relative_path: String,
    /// PARA category detected during traversal.
    pub category: String,
    /// The file's text.
    pub content: String,
    /// The file's modification time, used when the frontmatter gives no
    /// date at all.
    pub fallback_modified: Option<i64>,
}

/// Whether a document's text parses: its frontmatter is absent, or the
/// block is closed, free of tab indentation, well-formed YAML and a
/// mapping (or effectively empty).
pub open spec fn parses_ok(content: Seq<char>) -> bool {
    match split_frontmatter_spec(content) {
        FmSplit::NoFrontmatter => true,
        FmSplit::Unclosed => false,
        FmSplit::Block { yaml, body } => trim_spec(yaml).len() == 0
            || crate::frontmatter::block_ok(yaml),
    }
}

/// The body a document's text parses to.
pub open spec fn body_of(content: Seq<char>) -> Seq<char> {
    match split_frontmatter_spec(content) {
        FmSplit::NoFrontmatter => content,
        FmSplit::Unclosed => content,
        FmSplit::Block { yaml, body } => body,
    }
}

/// A default metadata record with the fallback time as its modification
/// time.
pub open spec fn default_with_fallback(md: DocumentMetadata, fb: Option<i64>) -> bool {
    md.title is None && md.description is None && md.tags@.len() == 0 && md.created is None
        && md.date is None && md.modified == fb && md.status is None && md.category is None
        && md.author is None && md.custom@.len() == 0
}

/// How a parsed document's metadata relates to its text: read from the
/// frontmatter block, except that a record with no date at all takes the
/// file's modification time.
pub open spec fn metadata_ok(content: Seq<char>, fb: Option<i64>, md: DocumentMetadata) -> bool {
    match split_frontmatter_spec(content) {
        FmSplit::NoFrontmatter => default_with_fallback(md, fb),
        FmSplit::Unclosed => true,
        FmSplit::Block { yaml, body } => {
            if trim_spec(yaml).len() == 0 {
                default_with_fallback(md, fb)
            } else {
                match yaml_top_keys_of(yaml) {
                    Some(keys) => {
                        let base_modified = date_field_spec(yaml, "modified"@);
                        md.title.deep_view() == yaml_field(yaml, "title"@)
                            && md.description.deep_view() == yaml_field(yaml, "description"@)
                            && md.status.deep_view() == yaml_field(yaml, "status"@)
                            && md.category.deep_view() == yaml_field(yaml, "category"@)
                            && md.author.deep_view() == yaml_field(yaml, "author"@)
                            && md.tags.deep_view() == (match crate::yaml::yaml_list_field(
                            yaml,
                            "tags"@,
                        ) {
                            Some(l) => l,
                            None => Seq::empty(),
                        }) && md.created == date_field_spec(yaml, "created"@) && md.date
                            == date_field_spec(yaml, "date"@) && md.modified == (if date_field_spec(
                            yaml,
                            "created"@,
                        ) is None && date_field_spec(yaml, "date"@) is None && base_modified
                            is None {
                            fb
                        } else {
                            base_modified
                        }) && entries_view(md.custom@) == crate::frontmatter::custom_entries_spec(
                            keys,
                            yaml,
                        )
                    },
                    None => true,
                }
            }
        },
    }
}

/// What parsing one source document owes: a text that parses becomes a
/// document carrying its body raw and rendered, the metadata read from
/// the frontmatter (with the modification-time fallback), no links and no
/// backlinks yet; a text that does not parse is the error the
/// frontmatter stage describes for it.
pub open spec fn parsed_doc_ok(
    content: Seq<char>,
    source_path: String,
    relative_path: String,
    category: String,
    fb: Option<i64>,
    r: Result<Document, ParaSsgError>,
) -> bool {
    if parses_ok(content) {
        match r {
            Ok(d) => d.source_path == source_path && d.relative_path == relative_path && d.category
                == category && d.output_path@ == output_path_spec(relative_path@) && d.raw_content@
                == body_of(content) && d.html_content@ == cmark_html(body_of(content))
                && d.wiki_links@.len() == 0 && d.backlinks@.len() == 0 && metadata_ok(
                content,
                fb,
                d.metadata,
            ),
            Err(_) => false,
        }
    } else {
        match r {
            Ok(_) => false,
            Err(e) => crate::frontmatter::parse_error_matches(content, e),
        }
    }
}

/// Parse one document: split the frontmatter, read the metadata (falling
/// back to the file time when no date is given), and render the body.
pub fn parse_document(
    content: &str,
    source_path: String,
    relative_path: String,
    category: String,
    fallback_modified: Option<i64>,
) -> (r: Result<Document, ParaSsgError>)
    ensures
        parsed_doc_ok(content@, source_path, relative_path, category, fallback_modified, r),
{
    let (mut metadata, raw_content) = match parse_frontmatter(content) {
        Ok(p) => p,
        Err(e) => {
            return Err(e);
        },
    };
    if metadata.date.is_none() && metadata.modified.is_none() && metadata.created.is_none() {
        metadata.modified = fallback_modified;
    }
    let html_content = match markdown_to_html(raw_content.as_str()) {
        Ok(h) => h,
        Err(e) => {
            return Err(e);
        },
    };
    let mut doc = crate::document::Document::new(source_path, relative_path, category);
    doc.metadata = metadata;
    doc.raw_content = raw_content;
    doc.html_content = html_content;
    Ok(doc)
}

/// The sources that parse, in order.
pub open spec fn survivors(srcs: Seq<SourceDocument>) -> Seq<SourceDocument>
    decreases srcs.len(),
{
    if srcs.len() == 0 {
        Seq::empty()
    } else {
        (if parses_ok(srcs[0].content@) {
            seq![srcs[0]]
        } else {
            Seq::empty()
        }) + survivors(srcs.drop_first())
    }
}

/// The number of wiki links the surviving sources will carry.
pub open spec fn links_sum(ss: Seq<SourceDocument>) -> int
    decreases ss.len(),
{
    if ss.len() == 0 {
        0
    } else {
        parse_links_spec(body_of(ss[0].content@)).len() + links_sum(ss.drop_first())
    }
}

/// Appending one source extends the survivors by it when it parses.
proof fn lemma_survivors_push(srcs: Seq<SourceDocument>, s: SourceDocument)
    ensures
        survivors(srcs.push(s)) == survivors(srcs) + (if parses_ok(s.content@) {
            seq![s]
        } else {
            Seq::<SourceDocument>::empty()
        }),
    decreases srcs.len(),
{
    if srcs.len() == 0 {
        assert(srcs.push(s)[0] == s);
        assert(srcs.push(s).drop_first() =~= srcs);
        assert(survivors(srcs.push(s)) =~= survivors(srcs) + (if parses_ok(s.content@) {
            seq![s]
        } else {
            Seq::<SourceDocument>::empty()
        }));
    } else {
        assert(srcs.push(s)[0] == srcs[0]);
        assert(srcs.push(s).drop_first() =~= srcs.drop_first().push(s));
        lemma_survivors_push(srcs.drop_first(), s);
        assert(survivors(srcs.push(s)) =~= survivors(srcs) + (if parses_ok(s.content@) {
            seq![s]
        } else {
            Seq::<SourceDocument>::empty()
        }));
    }
}

/// Link sums are not negative.
proof fn lemma_links_sum_nonneg(ss: Seq<SourceDocument>)
    ensures
        links_sum(ss) >= 0,
    decreases ss.len(),
{
    if ss.len() > 0 {
        lemma_links_sum_nonneg(ss.drop_first());
    }
}

/// The sources that do not parse, in order.
pub open spec fn failures(srcs: Seq<SourceDocument>) -> Seq<SourceDocument>
    decreases srcs.len(),
{
    if srcs.len() == 0 {
        Seq::empty()
    } else {
        (if parses_ok(srcs[0].content@) {
            Seq::empty()
        } else {
            seq![srcs[0]]
        }) + failures(srcs.drop_first())
    }
}

/// Appending one source extends the failures by it when it does not
/// parse.
proof fn lemma_failures_push(srcs: Seq<SourceDocument>, s: SourceDocument)
    ensures
        failures(srcs.push(s)) == failures(srcs) + (if parses_ok(s.content@) {
            Seq::<SourceDocument>::empty()
        } else {
            seq![s]
        }),
    decreases srcs.len(),
{
    if srcs.len() == 0 {
        assert(srcs.push(s)[0] == s);
        assert(srcs.push(s).drop_first() =~= srcs);
        assert(failures(srcs.push(s)) =~= failures(srcs) + (if parses_ok(s.content@) {
            Seq::<SourceDocument>::empty()
        } else {
            seq![s]
        }));
    } else {
        assert(srcs.push(s)[0] == srcs[0]);
        assert(srcs.push(s).drop_first() =~= srcs.drop_first().push(s));
        lemma_failures_push(srcs.drop_first(), s);
        assert(failures(srcs.push(s)) =~= failures(srcs) + (if parses_ok(s.content@) {
            Seq::<SourceDocument>::empty()
        } else {
            seq![s]
        }));
    }
}

/// The lookup pairs of a document set: each document's output path and
/// title, in order. The whole-set lookup table is built from exactly
/// these.
pub open spec fn doc_pairs(docs: Seq<Document>) -> Seq<(Seq<char>, Seq<char>)> {
    docs.map_values(|d: Document| (d.output_path@, d.title_spec()))
}

/// How one resolved link relates to the whole-set lookup: broken exactly
/// when the normalized target is absent, and carrying the found output
/// path otherwise.
pub open spec fn link_resolved_against(l: ResolvedLink, pairs: Seq<(Seq<char>, Seq<char>)>) -> bool {
    l.is_broken == (lookup_result(pairs, normalize_spec(l.wiki_link.target@)) is None) && (match l.resolved_path {
        Some(p) => lookup_result(pairs, normalize_spec(l.wiki_link.target@)) == Some(p@),
        None => lookup_result(pairs, normalize_spec(l.wiki_link.target@)) is None,
    })
}

/// Documents that differ only in their backlinks contribute the same
/// entries to the backlink index.
proof fn lemma_all_contribs_same(a: Seq<Document>, b: Seq<Document>)
    requires
        a.len() == b.len(),
        forall|x: int| 0 <= x < a.len() ==> same_doc_but_backlinks(#[trigger] a[x], b[x]),
    ensures
        all_contribs(a) == all_contribs(b),
    decreases a.len(),
{
    if a.len() > 0 {
        assert(same_doc_but_backlinks(a[0], b[0]));
        assert(a[0].title_spec() == b[0].title_spec());
        assert(forall|x: int|
            0 <= x < a.drop_first().len() ==> (#[trigger] a.drop_first()[x]) == a[x + 1]);
        assert(forall|x: int|
            0 <= x < b.drop_first().len() ==> (#[trigger] b.drop_first()[x]) == b[x + 1]);
        lemma_all_contribs_same(a.drop_first(), b.drop_first());
    }
}

/// Documents whose link counts match the surviving sources sum to the
/// same total.
proof fn lemma_total_links_eq(docs: Seq<Document>, ss: Seq<SourceDocument>)
    requires
        docs.len() == ss.len(),
        forall|x: int|
            0 <= x < docs.len() ==> (#[trigger] docs[x]).wiki_links@.len() == parse_links_spec(
                body_of(ss[x].content@),
            ).len(),
    ensures
        total_links_spec(docs) == links_sum(ss),
    decreases docs.len(),
{
    if docs.len() > 0 {
        assert(forall|x: int|
            0 <= x < docs.drop_first().len() ==> (#[trigger] docs.drop_first()[x])
                == docs[x + 1]);
        assert(forall|x: int|
            0 <= x < ss.drop_first().len() ==> (#[trigger] ss.drop_first()[x]) == ss[x + 1]);
        lemma_total_links_eq(docs.drop_first(), ss.drop_first());
    }
}

/// What one build produces.
pub struct BuildOutput {
    /// The enriched documents, in source order.
    pub documents: Vec<Document>,
    /// The documents that failed to parse: relative path and cause.
    pub parse_errors: Vec<(String, ParaSsgError)>,
    /// The number of broken wiki links over all documents.
    pub broken_links: usize,
    /// The derived link statistics.
    pub stats: LinkStatistics,
}

/// Run the whole pipeline over the given sources: parse every document
/// (recording failures and dropping those documents), build the lookup
/// table from the full surviving set, resolve and rewrite each document's
/// wiki links and render it, invert the links into sorted backlinks, and
/// derive the statistics. The build fails only when some sources were
/// given and none parsed, or when the total link count does not fit the
/// machine's word size.
pub fn build_site(sources: &Vec<SourceDocument>) -> (r: Result<BuildOutput, ParaSsgError>)
    ensures
        r is Err <==> ((sources@.len() > 0 && survivors(sources@).len() == 0) || links_sum(
            survivors(sources@),
        ) > usize::MAX),
        r is Ok ==> {
            let out = r.unwrap();
            let surv = survivors(sources@);
            &&& out.documents@.len() == surv.len()
            &&& out.documents@.len() + out.parse_errors@.len() == sources@.len()
            &&& out.parse_errors@.len() == failures(sources@).len()
            &&& forall|x: int|
                0 <= x < out.parse_errors@.len() ==> (#[trigger] out.parse_errors@[x]).0
                    == failures(sources@)[x].relative_path
                    && crate::frontmatter::parse_error_matches(
                    failures(sources@)[x].content@,
                    out.parse_errors@[x].1,
                )
            &&& forall|x: int|
                0 <= x < out.documents@.len() ==> {
                    let d = #[trigger] out.documents@[x];
                    &&& d.source_path == surv[x].path
                    &&& d.relative_path == surv[x].relative_path
                    &&& d.category == surv[x].category
                    &&& d.output_path@ == output_path_spec(surv[x].relative_path@)
                    &&& d.raw_content@ == body_of(surv[x].content@)
                    &&& metadata_ok(surv[x].content@, surv[x].fallback_modified, d.metadata)
                    &&& links_view(d.wiki_links@.map_values(|l: ResolvedLink| l.wiki_link))
                        == parse_links_spec(body_of(surv[x].content@))
                    &&& forall|y: int|
                        0 <= y < d.wiki_links@.len() ==> link_resolved_against(
                            #[trigger] d.wiki_links@[y],
                            doc_pairs(out.documents@),
                        )
                    &&& d.html_content@ == cmark_html(
                        rewrite_spec(d.raw_content@, sort_desc(d.wiki_links@), d.output_path@),
                    )
                    &&& backlinks_view(d.backlinks@) == (match index_get(
                        index_spec(all_contribs(out.documents@)),
                        d.output_path@,
                    ) {
                        Some(bs) => sort_blv(bs),
                        None => Seq::empty(),
                    })
                    &&& sorted_by_title(backlinks_view(d.backlinks@))
                }
            &&& out.stats.total_documents == out.documents@.len()
            &&& out.stats.documents_with_backlinks == crate::backlinks::docs_with_backlinks_spec(
                out.documents@,
            )
            &&& out.stats.orphaned_documents@.map_values(|p: String| p@)
                == crate::backlinks::orphans_spec(out.documents@)
            &&& out.stats.total_links == total_links_spec(out.documents@)
            &&& out.stats.broken_links == broken_links_spec(out.documents@)
            &&& out.stats.valid_links == total_links_spec(out.documents@) - broken_links_spec(
                out.documents@,
            )
            &&& out.broken_links == broken_links_spec(out.documents@)
        },
{
    let ghost surv = survivors(sources@);
    // Pass 1: parse every document, recording failures.
    let mut documents: Vec<Document> = Vec::new();
    let mut parse_errors: Vec<(String, ParaSsgError)> = Vec::new();
    let mut i: usize = 0;
    proof {
        assert(sources@.take(0) =~= Seq::<SourceDocument>::empty());
    }
    while i < sources.len()
        invariant
            i <= sources@.len(),
            surv == survivors(sources@),
            documents@.len() == survivors(sources@.take(i as int)).len(),
            documents@.len() + parse_errors@.len() == i,
            parse_errors@.len() == failures(sources@.take(i as int)).len(),
            forall|x: int|
                0 <= x < parse_errors@.len() ==> (#[trigger] parse_errors@[x]).0
                    == failures(sources@.take(i as int))[x].relative_path
                    && crate::frontmatter::parse_error_matches(
                    failures(sources@.take(i as int))[x].content@,
                    parse_errors@[x].1,
                ),
            forall|x: int|
                0 <= x < documents@.len() ==> {
                    let d = #[trigger] documents@[x];
                    let s = survivors(sources@.take(i as int))[x];
                    &&& d.source_path == s.path
                    &&& d.relative_path == s.relative_path
                    &&& d.category == s.category
                    &&& d.output_path@ == output_path_spec(s.relative_path@)
                    &&& d.raw_content@ == body_of(s.content@)
                    &&& d.html_content@ == cmark_html(body_of(s.content@))
                    &&& d.wiki_links@.len() == 0
                    &&& d.backlinks@.len() == 0
                    &&& metadata_ok(s.content@, s.fallback_modified, d.metadata)
                },
        decreases sources@.len() - i,
    {
        let src = &sources[i];
        let ghost pre_surv = survivors(sources@.take(i as int));
        let result = parse_document(
            src.content.as_str(),
            src.path.clone(),
            src.relative_path.clone(),
            src.category.clone(),
            src.fallback_modified,
        );
        proof {
            lemma_survivors_push(sources@.take(i as int), sources@[i as int]);
            lemma_failures_push(sources@.take(i as int), sources@[i as int]);
            assert(sources@.take(i as int + 1) =~= sources@.take(i as int).push(
                sources@[i as int],
            ));
        }
        match result {
            Ok(doc) => {
                documents.push(doc);
            },
            Err(e) => {
                let ghost ev = e;
                parse_errors.push((src.relative_path.clone(), e));
                proof {
                    assert(!parses_ok(sources@[i as int].content@));
                    assert(parse_errors@.last().0 == sources@[i as int].relative_path);
                    assert(crate::frontmatter::parse_error_matches(
                        sources@[i as int].content@,
                        ev,
                    ));
                }
            },
        }
        i = i + 1;
    }
    proof {
        assert(sources@.take(sources@.len() as int) =~= sources@);
    }
    if sources.len() > 0 && documents.len() == 0 {
        let mut m = String::new();
        m.append("every document failed to parse");
        proof {
            lemma_links_sum_nonneg(Seq::<SourceDocument>::empty());
            assert(surv =~= Seq::<SourceDocument>::empty());
        }
        return Err(ParaSsgError::GenerationError(m));
    }
    // Build the lookup table from the whole surviving set.
    let ghost lk_pairs = doc_pairs(documents@);
    let mut pairs: Vec<(String, String)> = Vec::new();
    let mut i: usize = 0;
    proof {
        assert(entries_view(pairs@) =~~= lk_pairs.take(0));
    }
    while i < documents.len()
        invariant
            i <= documents@.len(),
            lk_pairs == doc_pairs(documents@),
            entries_view(pairs@) == lk_pairs.take(i as int),
        decreases documents@.len() - i,
    {
        let title = documents[i].title();
        let ghost pre_pairs = entries_view(pairs@);
        pairs.push((documents[i].output_path.clone(), title));
        i = i + 1;
        proof {
            assert(entries_view(pairs@) =~~= pre_pairs.push(
                (documents@[i - 1].output_path@, documents@[i - 1].title_spec()),
            ));
            assert(lk_pairs.take(i as int) =~= lk_pairs.take(i as int - 1).push(
                lk_pairs[i - 1],
            ));
            assert(entries_view(pairs@) =~~= lk_pairs.take(i as int));
        }
    }
    proof {
        assert(lk_pairs.take(lk_pairs.len() as int) =~= lk_pairs);
    }
    let lookup = build_document_lookup(&pairs);
    proof {
        assert(forall|k: Seq<char>| #[trigger] lookup.spec_get(k) == lookup_result(lk_pairs, k));
    }
    // Pass 2: resolve and rewrite every document's wiki links.
    let mut i: usize = 0;
    while i < documents.len()
        invariant
            i <= documents@.len(),
            surv == survivors(sources@),
            documents@.len() == surv.len(),
            lk_pairs == doc_pairs(documents@),
            forall|k: Seq<char>| #[trigger] lookup.spec_get(k) == lookup_result(lk_pairs, k),
            forall|x: int|
                0 <= x < documents@.len() ==> {
                    let d = #[trigger] documents@[x];
                    let s = surv[x];
                    &&& d.source_path == s.path
                    &&& d.relative_path == s.relative_path
                    &&& d.category == s.category
                    &&& d.output_path@ == output_path_spec(s.relative_path@)
                    &&& d.raw_content@ == body_of(s.content@)
                    &&& d.backlinks@.len() == 0
                    &&& metadata_ok(s.content@, s.fallback_modified, d.metadata)
                },
            forall|x: int|
                0 <= x < i ==> {
                    let d = #[trigger] documents@[x];
                    &&& links_view(d.wiki_links@.map_values(|l: ResolvedLink| l.wiki_link))
                        == parse_links_spec(body_of(surv[x].content@))
                    &&& forall|y: int|
                        0 <= y < d.wiki_links@.len() ==> link_resolved_against(
                            #[trigger] d.wiki_links@[y],
                            lk_pairs,
                        )
                    &&& d.html_content@ == cmark_html(
                        rewrite_spec(d.raw_content@, sort_desc(d.wiki_links@), d.output_path@),
                    )
                },
        decreases documents@.len() - i,
    {
        let ghost before_iter = documents@;
        let mut d = documents.remove(i);
        let rendered = match render_document_content(&d, &lookup) {
            Ok(p) => p,
            Err(e) => {
                proof {
                    assert(false);
                }
                return Err(e);
            },
        };
        let (html, links) = rendered;
        d.html_content = html;
        d.wiki_links = links;
        let ghost dv = d;
        documents.insert(i, d);
        i = i + 1;
        proof {
            assert(documents@ =~= before_iter.update(i - 1, dv));
            assert(forall|x: int|
                0 <= x < documents@.len() && x != i - 1 ==> #[trigger] documents@[x]
                    == before_iter[x]);
            assert(doc_pairs(documents@) =~~= lk_pairs);
            assert forall|y: int| 0 <= y < dv.wiki_links@.len() implies link_resolved_against(
                #[trigger] dv.wiki_links@[y],
                lk_pairs,
            ) by {
                let l = dv.wiki_links@[y];
                assert(lookup.spec_get(normalize_spec(l.wiki_link.target@)) == lookup_result(
                    lk_pairs,
                    normalize_spec(l.wiki_link.target@),
                ));
            }
        }
    }
    // Count the links, guarding the machine's word size.
    let mut total: usize = 0;
    let mut i: usize = 0;
    proof {
        assert(documents@.skip(0) =~= documents@);
        assert forall|x: int| 0 <= x < documents@.len() implies (
        #[trigger] documents@[x]).wiki_links@.len() == parse_links_spec(
            body_of(surv[x].content@),
        ).len() by {
            assert(links_view(
                documents@[x].wiki_links@.map_values(|l: ResolvedLink| l.wiki_link),
            ).len() == parse_links_spec(body_of(surv[x].content@)).len());
        }
        lemma_total_links_eq(documents@, surv);
        lemma_total_links_nonneg(documents@);
    }
    while i < documents.len()
        invariant
            i <= documents@.len(),
            surv == survivors(sources@),
            total_links_spec(documents@) == links_sum(surv),
            total + total_links_spec(documents@.skip(i as int)) == total_links_spec(documents@),
            total <= total_links_spec(documents@),
        decreases documents@.len() - i,
    {
        proof {
            assert(documents@.skip(i as int)[0] == documents@[i as int]);
            assert(documents@.skip(i as int).drop_first() =~= documents@.skip(i as int + 1));
            lemma_total_links_nonneg(documents@.skip(i as int + 1));
        }
        let n = documents[i].wiki_links.len();
        if usize::MAX - total < n {
            let mut m = String::new();
            m.append("too many links to count");
            proof {
                assert(total_links_spec(documents@) > usize::MAX);
            }
            return Err(ParaSsgError::GenerationError(m));
        }
        total = total + n;
        i = i + 1;
    }
    proof {
        assert(documents@.skip(documents@.len() as int) =~= Seq::<Document>::empty());
        assert(total == total_links_spec(documents@));
    }
    // Pass 3: invert the links into backlinks, sorted by source title.
    let index = build_backlink_index(&documents);
    let ghost before_apply = documents@;
    apply_backlinks_to_documents(&mut documents, &index);
    proof {
        assert forall|x: int| 0 <= x < documents@.len() implies sorted_by_title(
            backlinks_view((#[trigger] documents@[x]).backlinks@),
        ) by {
            assert(applied_backlinks(
                before_apply[x],
                documents@[x],
                index_view(index.entries@),
            ));
            match crate::backlinks::index_get(
                index_view(index.entries@),
                before_apply[x].output_path@,
            ) {
                Some(bs) => {
                    lemma_sort_blv_sorted(bs);
                },
                None => {
                    assert(backlinks_view(documents@[x].backlinks@) =~= backlinks_view(
                        before_apply[x].backlinks@,
                    ));
                    assert(backlinks_view(before_apply[x].backlinks@).len() == 0);
                },
            }
        }
        assert forall|x: int| 0 <= x < documents@.len() implies (#[trigger] documents@[x]).wiki_links@.len()
            == parse_links_spec(body_of(surv[x].content@)).len() by {
            assert(applied_backlinks(
                before_apply[x],
                documents@[x],
                index_view(index.entries@),
            ));
            assert(links_view(
                before_apply[x].wiki_links@.map_values(|l: ResolvedLink| l.wiki_link),
            ).len() == parse_links_spec(body_of(surv[x].content@)).len());
        }
        lemma_total_links_eq(documents@, surv);
        // Attaching backlinks changes no field the lookup pairs or the
        // index contributions read.
        assert forall|x: int| 0 <= x < documents@.len() implies same_doc_but_backlinks(
            #[trigger] documents@[x],
            before_apply[x],
        ) by {
            assert(applied_backlinks(
                before_apply[x],
                documents@[x],
                index_view(index.entries@),
            ));
        }
        assert(doc_pairs(documents@) =~~= lk_pairs);
        assert forall|x: int, y: int|
            0 <= x < documents@.len() && 0 <= y < documents@[x].wiki_links@.len() implies link_resolved_against(
            #[trigger] documents@[x].wiki_links@[y],
            lk_pairs,
        ) by {
            assert(documents@[x].wiki_links == before_apply[x].wiki_links);
            assert(link_resolved_against(before_apply[x].wiki_links@[y], lk_pairs));
        }
        lemma_all_contribs_same(documents@, before_apply);
        assert(index_view(index.entries@) == index_spec(all_contribs(documents@)));
        // Each document's final backlinks are exactly its sorted index
        // entry (or nothing, when no document links to it).
        assert forall|x: int| 0 <= x < documents@.len() implies backlinks_view(
            (#[trigger] documents@[x]).backlinks@,
        ) == (match index_get(index_spec(all_contribs(documents@)), documents@[x].output_path@) {
            Some(bs) => sort_blv(bs),
            None => Seq::empty(),
        }) by {
            assert(applied_backlinks(
                before_apply[x],
                documents@[x],
                index_view(index.entries@),
            ));
            assert(documents@[x].output_path == before_apply[x].output_path);
            match index_get(index_spec(all_contribs(documents@)), documents@[x].output_path@) {
                Some(bs) => {
                },
                None => {
                    assert(backlinks_view(before_apply[x].backlinks@) =~= Seq::<
                        (Seq<char>, Seq<char>, Option<Seq<char>>),
                    >::empty());
                },
            }
        }
    }
    // Derive the statistics.
    let stats = calculate_link_statistics(&documents);
    let broken_links = stats.broken_links;
    Ok(BuildOutput { documents, parse_errors, broken_links, stats })
}

/// Totals are not negative.
proof fn lemma_total_links_nonneg(docs: Seq<Document>)
    ensures
        total_links_spec(docs) >= 0,
    decreases docs.len(),
{
    if docs.len() > 0 {
        lemma_total_links_nonneg(docs.drop_first());
    }
}

} // verus!
