//! Backlinks: inverting the resolved forward links of a document set
//! into per-target inbound references, and the statistics derived from
//! the final set.

use vstd::prelude::*;
use vstd::string::StringExecFns;

use crate::document::BacklinkReference;
use crate::document::Document;
use crate::fsinfo::file_name_spec;
use crate::fsinfo::file_name_of;
use crate::text::chars_slice;
use crate::text::chars_to_string;
use crate::text::find_sub;
use crate::text::first_occurrence;
use crate::text::str_chars;
use crate::text::str_eq;
use crate::text::trim_chars;
use crate::text::trim_spec;
use crate::wiki_links::ResolvedLink;

verus! {

/// The context snippet for a link whose literal text occurs in the
/// source body: up to 50 characters on each side of the first
/// occurrence, newlines flattened to spaces, trimmed, with an ellipsis
/// on each side that was cut.
pub open spec fn context_spec(content: Seq<char>, link_text: Seq<char>) -> Option<Seq<char>> {
    let p = first_occurrence(content, link_text, 0);
    if p < 0 {
        None
    } else {
        let cs = if p >= 50 {
            p - 50
        } else {
            0
        };
        let ce_raw = p + link_text.len() + 50;
        let ce = if ce_raw <= content.len() {
            ce_raw
        } else {
            content.len() as int
        };
        let core = trim_spec(flatten_lines(content.subrange(cs, ce)));
        let with_pre = if cs > 0 {
            "..."@ + core
        } else {
            core
        };
        Some(
            if ce < content.len() {
                with_pre + "..."@
            } else {
                with_pre
            },
        )
    }
}

/// Line breaks replaced by single spaces: `\r\n` and `\n` each become
/// one space; other characters stay.
pub open spec fn flatten_lines(s: Seq<char>) -> Seq<char>
    decreases s.len(),
{
    if s.len() == 0 {
        Seq::empty()
    } else if s.len() >= 2 && s[0] == '\r' && s[1] == '\n' {
        seq![' '] + flatten_lines(s.skip(2))
    } else if s[0] == '\n' {
        seq![' '] + flatten_lines(s.drop_first())
    } else {
        seq![s[0]] + flatten_lines(s.drop_first())
    }
}

/// Flatten line breaks of `v` into single spaces.
fn flatten_lines_exec(v: &Vec<char>) -> (r: Vec<char>)
    ensures
        r@ == flatten_lines(v@),
{
    let mut r: Vec<char> = Vec::new();
    let mut i: usize = 0;
    proof {
        assert(v@.skip(0) =~= v@);
        assert(r@ + flatten_lines(v@) =~= flatten_lines(v@));
    }
    while i < v.len()
        invariant
            i <= v@.len(),
            r@ + flatten_lines(v@.skip(i as int)) == flatten_lines(v@),
        decreases v@.len() - i,
    {
        let ghost pre = r@;
        proof {
            assert(v@.skip(i as int)[0] == v@[i as int]);
            if i + 1 < v@.len() {
                assert(v@.skip(i as int)[1] == v@[i as int + 1]);
            }
            assert(v@.skip(i as int).drop_first() =~= v@.skip(i as int + 1));
            if i + 2 <= v@.len() {
                assert(v@.skip(i as int).skip(2) =~= v@.skip(i as int + 2));
            }
        }
        if v[i] == '\r' && i + 1 < v.len() && v[i + 1] == '\n' {
            r.push(' ');
            i = i + 2;
            proof {
                assert(r@ =~= pre + seq![' ']);
                assert(r@ + flatten_lines(v@.skip(i as int)) =~= flatten_lines(v@));
            }
        } else if v[i] == '\n' {
            r.push(' ');
            i = i + 1;
            proof {
                assert(r@ =~= pre + seq![' ']);
                assert(r@ + flatten_lines(v@.skip(i as int)) =~= flatten_lines(v@));
            }
        } else {
            r.push(v[i]);
            i = i + 1;
            proof {
                assert(r@ =~= pre + seq![v@[i - 1]]);
                assert(r@ + flatten_lines(v@.skip(i as int)) =~= flatten_lines(v@));
            }
        }
    }
    proof {
        assert(v@.skip(v@.len() as int) =~= Seq::<char>::empty());
        assert(r@ =~= flatten_lines(v@));
    }
    r
}

/// Extract the context around the first occurrence of a link's literal
/// text in the content; a link whose text cannot be found verbatim gets
/// no context.
pub fn extract_link_context(content: &str, link_text: &str) -> (r: Option<String>)
    ensures
        r.deep_view() == context_spec(content@, link_text@),
{
    let v = str_chars(content);
    let pat = str_chars(link_text);
    match find_sub(&v, &pat, 0) {
        None => None,
        Some(p) => {
            let cs: usize = if p >= 50 {
                p - 50
            } else {
                0
            };
            let n = v.len();
            proof {
                assert(p + pat@.len() <= v@.len());
            }
            let want = p + pat.len();
            let ce: usize = if n - want >= 50 {
                want + 50
            } else {
                n
            };
            let window = chars_slice(&v, cs, ce);
            let flat = flatten_lines_exec(&window);
            let core = trim_chars(&flat);
            let mut out = String::new();
            if cs > 0 {
                out.append("...");
            }
            let core_s = chars_to_string(&core);
            out.append(core_s.as_str());
            if ce < v.len() {
                out.append("...");
            }
            proof {
                let spec_r = context_spec(content@, link_text@);
                assert(spec_r is Some);
                assert(out@ =~= spec_r.unwrap());
            }
            Some(out)
        },
    }
}

/// The view of one backlink reference.
pub open spec fn backlink_view(b: BacklinkReference) -> (Seq<char>, Seq<char>, Option<Seq<char>>) {
    (b.source_path@, b.source_title@, b.link_context.deep_view())
}

/// The view of a list of backlink references.
pub open spec fn backlinks_view(bs: Seq<BacklinkReference>) -> Seq<
    (Seq<char>, Seq<char>, Option<Seq<char>>),
> {
    bs.map_values(|b: BacklinkReference| backlink_view(b))
}

/// The reverse index: target output paths mapped to the references that
/// point at them.
pub struct BacklinkIndex {
    /// One entry per linked-to path, in order of first contribution.
    pub entries: Vec<(String, Vec<BacklinkReference>)>,
}

/// The view of the index.
pub open spec fn index_view(es: Seq<(String, Vec<BacklinkReference>)>) -> Seq<
    (Seq<char>, Seq<(Seq<char>, Seq<char>, Option<Seq<char>>)>),
> {
    es.map_values(|e: (String, Vec<BacklinkReference>)| (e.0@, backlinks_view(e.1@)))
}

/// The contributions one document's links make to the index: one
/// `(target path, reference)` pair per resolved, non-broken link.
pub open spec fn contribs_of_links(
    links: Seq<ResolvedLink>,
    src_path: Seq<char>,
    src_title: Seq<char>,
    content: Seq<char>,
) -> Seq<(Seq<char>, (Seq<char>, Seq<char>, Option<Seq<char>>))>
    decreases links.len(),
{
    if links.len() == 0 {
        Seq::empty()
    } else {
        let l = links[0];
        (if !l.is_broken && l.resolved_path is Some {
            seq![
                (
                    l.resolved_path.unwrap()@,
                    (src_path, src_title, context_spec(content, l.wiki_link.full_match@)),
                ),
            ]
        } else {
            Seq::empty()
        }) + contribs_of_links(links.drop_first(), src_path, src_title, content)
    }
}

/// The contributions of a whole document set, in document order.
pub open spec fn all_contribs(docs: Seq<Document>) -> Seq<
    (Seq<char>, (Seq<char>, Seq<char>, Option<Seq<char>>)),
>
    decreases docs.len(),
{
    if docs.len() == 0 {
        Seq::empty()
    } else {
        contribs_of_links(
            docs[0].wiki_links@,
            docs[0].relative_path@,
            docs[0].title_spec(),
            docs[0].raw_content@,
        ) + all_contribs(docs.drop_first())
    }
}

/// One contribution applied to the index: appended to its path's entry,
/// with a new entry opened at the end the first time a path appears.
pub open spec fn add_contrib(
    acc: Seq<(Seq<char>, Seq<(Seq<char>, Seq<char>, Option<Seq<char>>)>)>,
    c: (Seq<char>, (Seq<char>, Seq<char>, Option<Seq<char>>)),
) -> Seq<(Seq<char>, Seq<(Seq<char>, Seq<char>, Option<Seq<char>>)>)> {
    if exists|i: int| 0 <= i < acc.len() && acc[i].0 == c.0 {
        let i = choose|i: int| 0 <= i < acc.len() && acc[i].0 == c.0;
        acc.update(i, (c.0, acc[i].1 + seq![c.1]))
    } else {
        acc + seq![(c.0, seq![c.1])]
    }
}

/// The index a list of contributions builds.
pub open spec fn index_spec(cs: Seq<(Seq<char>, (Seq<char>, Seq<char>, Option<Seq<char>>))>) -> Seq<
    (Seq<char>, Seq<(Seq<char>, Seq<char>, Option<Seq<char>>)>),
>
    decreases cs.len(),
{
    if cs.len() == 0 {
        Seq::empty()
    } else {
        add_contrib(index_spec(cs.drop_last()), cs.last())
    }
}

/// No two entries of an index share a path.
pub open spec fn distinct_paths(
    es: Seq<(Seq<char>, Seq<(Seq<char>, Seq<char>, Option<Seq<char>>)>)>,
) -> bool {
    forall|k1: int, k2: int|
        0 <= k1 < k2 < es.len() ==> (#[trigger] es[k1]).0 != (#[trigger] es[k2]).0
}

/// Find the index entry for a path.
fn find_entry(entries: &Vec<(String, Vec<BacklinkReference>)>, path: &str) -> (r: Option<usize>)
    ensures
        match r {
            Some(j) => j < entries@.len() && entries@[j as int].0@ == path@ && forall|k: int|
                0 <= k < j ==> entries@[k].0@ != path@,
            None => forall|k: int| 0 <= k < entries@.len() ==> entries@[k].0@ != path@,
        },
{
    let mut j: usize = 0;
    while j < entries.len()
        invariant
            j <= entries@.len(),
            forall|k: int| 0 <= k < j ==> entries@[k].0@ != path@,
        decreases entries@.len() - j,
    {
        if str_eq(entries[j].0.as_str(), path) {
            return Some(j);
        }
        j = j + 1;
    }
    None
}

/// Build the reverse index of document relationships from the resolved,
/// non-broken wiki links of the whole set; broken links contribute
/// nothing.
pub fn build_backlink_index(documents: &Vec<Document>) -> (r: BacklinkIndex)
    ensures
        index_view(r.entries@) == index_spec(all_contribs(documents@)),
{
    let mut entries: Vec<(String, Vec<BacklinkReference>)> = Vec::new();
    let mut i: usize = 0;
    proof {
        assert(all_contribs_take(documents@, 0) =~= Seq::<
            (Seq<char>, (Seq<char>, Seq<char>, Option<Seq<char>>)),
        >::empty());
        assert(index_view(entries@) =~= index_spec(all_contribs_take(documents@, 0)));
    }
    while i < documents.len()
        invariant
            i <= documents@.len(),
            index_view(entries@) == index_spec(all_contribs_take(documents@, i as int)),
            distinct_paths(index_view(entries@)),
        decreases documents@.len() - i,
    {
        let doc = &documents[i];
        let title = doc.title();
        let ghost src_path = doc.relative_path@;
        let ghost src_title = doc.title_spec();
        let ghost content = doc.raw_content@;
        let ghost base = all_contribs_take(documents@, i as int);
        let mut j: usize = 0;
        proof {
            assert(contribs_prefix(doc.wiki_links@, 0, src_path, src_title, content) =~= Seq::<
                (Seq<char>, (Seq<char>, Seq<char>, Option<Seq<char>>)),
            >::empty());
            assert(base + contribs_prefix(doc.wiki_links@, 0, src_path, src_title, content) =~= base);
        }
        while j < doc.wiki_links.len()
            invariant
                j <= doc.wiki_links@.len(),
                src_path == doc.relative_path@,
                src_title == doc.title_spec(),
                title@ == doc.title_spec(),
                content == doc.raw_content@,
                index_view(entries@) == index_spec(
                    base + contribs_prefix(doc.wiki_links@, j as int, src_path, src_title, content),
                ),
                distinct_paths(index_view(entries@)),
            decreases doc.wiki_links@.len() - j,
        {
            let link = &doc.wiki_links[j];
            let ghost cp = contribs_prefix(doc.wiki_links@, j as int, src_path, src_title, content);
            proof {
                lemma_contribs_prefix_step(doc.wiki_links@, j as int, src_path, src_title, content);
            }
            if !link.is_broken {
                match &link.resolved_path {
                    Some(target) => {
                        let context = extract_link_context(
                            doc.raw_content.as_str(),
                            link.wiki_link.full_match.as_str(),
                        );
                        let backlink = BacklinkReference {
                            source_path: doc.relative_path.clone(),
                            source_title: title.clone(),
                            link_context: context,
                        };
                        let ghost c = (
                            link.resolved_path.unwrap()@,
                            (src_path, src_title, context_spec(content, link.wiki_link.full_match@)),
                        );
                        let ghost pre = index_view(entries@);
                        match find_entry(&entries, target.as_str()) {
                            Some(e) => {
                                let ghost ee = e as int;
                                let mut entry = entries.remove(e);
                                entry.1.push(backlink);
                                entries.insert(e, entry);
                                proof {
                                    assert(pre[ee].0 == c.0);
                                    let w = choose|w: int| 0 <= w < pre.len() && pre[w].0 == c.0;
                                    assert(w == ee) by {
                                        if w < ee {
                                            assert(pre[w].0 != c.0);
                                        } else if ee < w {
                                            assert(pre[ee].0 != pre[w].0);
                                        }
                                    }
                                    assert(backlinks_view(entries@[ee].1@) =~= pre[ee].1 + seq![
                                        c.1,
                                    ]);
                                    assert(index_view(entries@) =~= pre.update(
                                        ee,
                                        (c.0, pre[ee].1 + seq![c.1]),
                                    ));
                                    assert(index_view(entries@) == add_contrib(pre, c));
                                    assert(forall|k: int|
                                        0 <= k < index_view(entries@).len() ==> (
                                        #[trigger] index_view(entries@)[k]).0 == pre[k].0);
                                    assert(distinct_paths(index_view(entries@)));
                                    assert(index_spec(base + cp + seq![c]) == add_contrib(
                                        index_spec(base + cp),
                                        c,
                                    )) by {
                                        assert((base + cp + seq![c]).drop_last() =~= base + cp);
                                        assert((base + cp + seq![c]).last() == c);
                                    }
                                    assert(base + (cp + seq![c]) =~= base + cp + seq![c]);
                                }
                            },
                            None => {
                                let path_copy = target.clone();
                                entries.push((path_copy, vec![backlink]));
                                proof {
                                    assert(forall|k: int|
                                        0 <= k < pre.len() ==> (#[trigger] pre[k]).0 != c.0);
                                    assert(backlinks_view(entries@.last().1@) =~= seq![c.1]);
                                    assert(index_view(entries@) =~= pre + seq![(c.0, seq![c.1])]);
                                    assert(index_view(entries@) == add_contrib(pre, c));
                                    assert(distinct_paths(index_view(entries@)));
                                    assert(index_spec(base + cp + seq![c]) == add_contrib(
                                        index_spec(base + cp),
                                        c,
                                    )) by {
                                        assert((base + cp + seq![c]).drop_last() =~= base + cp);
                                        assert((base + cp + seq![c]).last() == c);
                                    }
                                    assert(base + (cp + seq![c]) =~= base + cp + seq![c]);
                                }
                            },
                        }
                    },
                    None => {
                    },
                }
            }
            j = j + 1;
        }
        i = i + 1;
        proof {
            lemma_all_contribs_take_step(documents@, i - 1);
            assert(contribs_prefix(
                doc.wiki_links@,
                doc.wiki_links@.len() as int,
                src_path,
                src_title,
                content,
            ) =~= contribs_of_links(doc.wiki_links@, src_path, src_title, content)) by {
                lemma_contribs_prefix_full(doc.wiki_links@, src_path, src_title, content);
            }
        }
    }
    proof {
        lemma_all_contribs_take_full(documents@);
    }
    BacklinkIndex { entries }
}

/// The contributions of the first `i` documents.
pub open spec fn all_contribs_take(docs: Seq<Document>, i: int) -> Seq<
    (Seq<char>, (Seq<char>, Seq<char>, Option<Seq<char>>)),
> {
    all_contribs(docs.take(i))
}

/// The contributions of the first `j` links of a document.
pub open spec fn contribs_prefix(
    links: Seq<ResolvedLink>,
    j: int,
    src_path: Seq<char>,
    src_title: Seq<char>,
    content: Seq<char>,
) -> Seq<(Seq<char>, (Seq<char>, Seq<char>, Option<Seq<char>>))> {
    contribs_of_links(links.take(j), src_path, src_title, content)
}

/// One more link extends the contribution prefix by that link's
/// contribution.
proof fn lemma_contribs_prefix_step(
    links: Seq<ResolvedLink>,
    j: int,
    src_path: Seq<char>,
    src_title: Seq<char>,
    content: Seq<char>,
)
    requires
        0 <= j < links.len(),
    ensures
        contribs_prefix(links, j + 1, src_path, src_title, content) == contribs_prefix(
            links,
            j,
            src_path,
            src_title,
            content,
        ) + (if !links[j].is_broken && links[j].resolved_path is Some {
            seq![
                (
                    links[j].resolved_path.unwrap()@,
                    (src_path, src_title, context_spec(content, links[j].wiki_link.full_match@)),
                ),
            ]
        } else {
            Seq::empty()
        }),
{
    lemma_contribs_append(links.take(j), links[j], src_path, src_title, content);
    assert(links.take(j + 1) =~= links.take(j).push(links[j]));
}

/// Appending one link to a list appends its contribution.
proof fn lemma_contribs_append(
    links: Seq<ResolvedLink>,
    l: ResolvedLink,
    src_path: Seq<char>,
    src_title: Seq<char>,
    content: Seq<char>,
)
    ensures
        contribs_of_links(links.push(l), src_path, src_title, content) == contribs_of_links(
            links,
            src_path,
            src_title,
            content,
        ) + (if !l.is_broken && l.resolved_path is Some {
            seq![
                (
                    l.resolved_path.unwrap()@,
                    (src_path, src_title, context_spec(content, l.wiki_link.full_match@)),
                ),
            ]
        } else {
            Seq::empty()
        }),
    decreases links.len(),
{
    if links.len() == 0 {
        assert(links.push(l)[0] == l);
        assert(links.push(l).drop_first() =~= links);
        assert(contribs_of_links(links.push(l), src_path, src_title, content) =~= contribs_of_links(
            links,
            src_path,
            src_title,
            content,
        ) + (if !l.is_broken && l.resolved_path is Some {
            seq![
                (
                    l.resolved_path.unwrap()@,
                    (src_path, src_title, context_spec(content, l.wiki_link.full_match@)),
                ),
            ]
        } else {
            Seq::empty()
        }));
    } else {
        assert(links.push(l)[0] == links[0]);
        assert(links.push(l).drop_first() =~= links.drop_first().push(l));
        lemma_contribs_append(links.drop_first(), l, src_path, src_title, content);
        assert(contribs_of_links(links.push(l), src_path, src_title, content) =~= contribs_of_links(
            links,
            src_path,
            src_title,
            content,
        ) + (if !l.is_broken && l.resolved_path is Some {
            seq![
                (
                    l.resolved_path.unwrap()@,
                    (src_path, src_title, context_spec(content, l.wiki_link.full_match@)),
                ),
            ]
        } else {
            Seq::empty()
        }));
    }
}

/// The full prefix is the whole document's contribution.
proof fn lemma_contribs_prefix_full(
    links: Seq<ResolvedLink>,
    src_path: Seq<char>,
    src_title: Seq<char>,
    content: Seq<char>,
)
    ensures
        contribs_of_links(links.take(links.len() as int), src_path, src_title, content)
            == contribs_of_links(links, src_path, src_title, content),
{
    assert(links.take(links.len() as int) =~= links);
}

/// Appending one document to a prefix appends its contributions.
proof fn lemma_all_contribs_push(docs: Seq<Document>, d: Document)
    ensures
        all_contribs(docs.push(d)) == all_contribs(docs) + contribs_of_links(
            d.wiki_links@,
            d.relative_path@,
            d.title_spec(),
            d.raw_content@,
        ),
    decreases docs.len(),
{
    if docs.len() == 0 {
        assert(docs.push(d)[0] == d);
        assert(docs.push(d).drop_first() =~= docs);
        assert(all_contribs(docs.push(d)) =~= all_contribs(docs) + contribs_of_links(
            d.wiki_links@,
            d.relative_path@,
            d.title_spec(),
            d.raw_content@,
        ));
    } else {
        assert(docs.push(d)[0] == docs[0]);
        assert(docs.push(d).drop_first() =~= docs.drop_first().push(d));
        lemma_all_contribs_push(docs.drop_first(), d);
        assert(all_contribs(docs.push(d)) =~= all_contribs(docs) + contribs_of_links(
            d.wiki_links@,
            d.relative_path@,
            d.title_spec(),
            d.raw_content@,
        ));
    }
}

/// One more document extends the contributions by that document's.
proof fn lemma_all_contribs_take_step(docs: Seq<Document>, i: int)
    requires
        0 <= i < docs.len(),
    ensures
        all_contribs_take(docs, i + 1) == all_contribs_take(docs, i) + contribs_of_links(
            docs[i].wiki_links@,
            docs[i].relative_path@,
            docs[i].title_spec(),
            docs[i].raw_content@,
        ),
{
    lemma_all_contribs_push(docs.take(i), docs[i]);
    assert(docs.take(i + 1) =~= docs.take(i).push(docs[i]));
}

/// Taking all documents takes all contributions.
proof fn lemma_all_contribs_take_full(docs: Seq<Document>)
    ensures
        all_contribs_take(docs, docs.len() as int) == all_contribs(docs),
{
    assert(docs.take(docs.len() as int) =~= docs);
}

} // verus!

verus! {

/// Lexicographic order on character sequences (by Unicode scalar value,
/// matching how strings compare).
pub open spec fn lex_leq(a: Seq<char>, b: Seq<char>) -> bool
    decreases a.len(),
{
    if a.len() == 0 {
        true
    } else if b.len() == 0 {
        false
    } else if (a[0] as u32) < (b[0] as u32) {
        true
    } else if (a[0] as u32) > (b[0] as u32) {
        false
    } else {
        lex_leq(a.drop_first(), b.drop_first())
    }
}

/// Any two sequences compare one way or the other.
pub proof fn lemma_lex_total(a: Seq<char>, b: Seq<char>)
    ensures
        lex_leq(a, b) || lex_leq(b, a),
    decreases a.len(),
{
    if a.len() > 0 && b.len() > 0 {
        vstd::utf8::char_u32_cast(a[0], a[0] as u32);
        vstd::utf8::char_u32_cast(b[0], b[0] as u32);
        if a[0] == b[0] {
            lemma_lex_total(a.drop_first(), b.drop_first());
        }
    }
}

/// The order is transitive.
pub proof fn lemma_lex_trans(a: Seq<char>, b: Seq<char>, c: Seq<char>)
    requires
        lex_leq(a, b),
        lex_leq(b, c),
    ensures
        lex_leq(a, c),
    decreases a.len(),
{
    if a.len() > 0 && b.len() > 0 && c.len() > 0 {
        vstd::utf8::char_u32_cast(a[0], a[0] as u32);
        vstd::utf8::char_u32_cast(b[0], b[0] as u32);
        vstd::utf8::char_u32_cast(c[0], c[0] as u32);
        if a[0] == b[0] && b[0] == c[0] {
            lemma_lex_trans(a.drop_first(), b.drop_first(), c.drop_first());
        }
    }
}

/// Compare two strings in lexicographic order.
fn str_leq(a: &str, b: &str) -> (r: bool)
    ensures
        r == lex_leq(a@, b@),
{
    let av = str_chars(a);
    let bv = str_chars(b);
    let mut i: usize = 0;
    proof {
        assert(av@.skip(0) =~= av@);
        assert(bv@.skip(0) =~= bv@);
    }
    while i < av.len() && i < bv.len()
        invariant
            i <= av@.len(),
            i <= bv@.len(),
            av@ == a@,
            bv@ == b@,
            lex_leq(a@, b@) == lex_leq(a@.skip(i as int), b@.skip(i as int)),
        decreases av@.len() - i,
    {
        proof {
            assert(a@.skip(i as int)[0] == a@[i as int]);
            assert(b@.skip(i as int)[0] == b@[i as int]);
            assert(a@.skip(i as int).drop_first() =~= a@.skip(i as int + 1));
            assert(b@.skip(i as int).drop_first() =~= b@.skip(i as int + 1));
        }
        let ca = av[i];
        let cb = bv[i];
        if ca != cb {
            proof {
                vstd::utf8::char_u32_cast(ca, ca as u32);
                vstd::utf8::char_u32_cast(cb, cb as u32);
            }
            return (ca as u32) < (cb as u32);
        }
        i = i + 1;
    }
    proof {
        if i >= av@.len() {
            assert(a@.skip(i as int) =~= Seq::<char>::empty());
        } else {
            assert(b@.skip(i as int) =~= Seq::<char>::empty());
            assert(a@.skip(i as int).len() > 0);
        }
    }
    av.len() <= bv.len()
}

/// A backlink reference inserted into a list sorted by source title,
/// after every reference whose title is not greater.
pub open spec fn insert_blv(
    x: (Seq<char>, Seq<char>, Option<Seq<char>>),
    s: Seq<(Seq<char>, Seq<char>, Option<Seq<char>>)>,
) -> Seq<(Seq<char>, Seq<char>, Option<Seq<char>>)>
    decreases s.len(),
{
    if s.len() == 0 {
        seq![x]
    } else if lex_leq(s[0].1, x.1) {
        seq![s[0]] + insert_blv(x, s.drop_first())
    } else {
        seq![x] + s
    }
}

/// A backlink list sorted by source title; references with equal titles
/// keep their order. Two equal inputs sort to the same output.
pub open spec fn sort_blv(s: Seq<(Seq<char>, Seq<char>, Option<Seq<char>>)>) -> Seq<
    (Seq<char>, Seq<char>, Option<Seq<char>>),
>
    decreases s.len(),
{
    if s.len() == 0 {
        Seq::empty()
    } else {
        insert_blv(s.last(), sort_blv(s.drop_last()))
    }
}

/// Sortedness by source title: every earlier reference's title compares
/// at or below every later one's.
pub open spec fn sorted_by_title(s: Seq<(Seq<char>, Seq<char>, Option<Seq<char>>)>) -> bool {
    forall|i: int, j: int| 0 <= i < j < s.len() ==> lex_leq((#[trigger] s[i]).1, (#[trigger] s[j]).1)
}

/// Inserting into a sorted list keeps it sorted.
proof fn lemma_insert_blv_sorted(
    x: (Seq<char>, Seq<char>, Option<Seq<char>>),
    s: Seq<(Seq<char>, Seq<char>, Option<Seq<char>>)>,
)
    requires
        sorted_by_title(s),
    ensures
        sorted_by_title(insert_blv(x, s)),
    decreases s.len(),
{
    if s.len() == 0 {
    } else if lex_leq(s[0].1, x.1) {
        assert(sorted_by_title(s.drop_first())) by {
            assert(forall|i: int, j: int|
                0 <= i < j < s.drop_first().len() ==> s.drop_first()[i] == s[i + 1]
                    && s.drop_first()[j] == s[j + 1]);
        }
        lemma_insert_blv_sorted(x, s.drop_first());
        let r = insert_blv(x, s);
        let rest = insert_blv(x, s.drop_first());
        assert(r == seq![s[0]] + rest);
        assert forall|i: int, j: int| 0 <= i < j < r.len() implies lex_leq(
            (#[trigger] r[i]).1,
            (#[trigger] r[j]).1,
        ) by {
            if i == 0 {
                assert(r[j] == rest[j - 1]);
                lemma_blv_element_sources(x, s.drop_first(), j - 1);
                if rest[j - 1] == x {
                    assert(lex_leq(s[0].1, x.1));
                } else {
                    let k = choose|k: int|
                        0 <= k < s.drop_first().len() && rest[j - 1] == s.drop_first()[k];
                    assert(s.drop_first()[k] == s[k + 1]);
                    assert(lex_leq(s[0].1, s[k + 1].1));
                }
            } else {
                assert(r[i] == rest[i - 1] && r[j] == rest[j - 1]);
            }
        }
    } else {
        lemma_lex_total(s[0].1, x.1);
        let r = insert_blv(x, s);
        assert(r == seq![x] + s);
        assert forall|i: int, j: int| 0 <= i < j < r.len() implies lex_leq(
            (#[trigger] r[i]).1,
            (#[trigger] r[j]).1,
        ) by {
            if i == 0 {
                assert(r[j] == s[j - 1]);
                if j - 1 > 0 {
                    assert(lex_leq(s[0].1, s[j - 1].1));
                    lemma_lex_trans(x.1, s[0].1, s[j - 1].1);
                }
            } else {
                assert(r[i] == s[i - 1] && r[j] == s[j - 1]);
            }
        }
    }
}

/// Every element of an insertion result is the inserted element or an
/// element of the list.
proof fn lemma_blv_element_sources(
    x: (Seq<char>, Seq<char>, Option<Seq<char>>),
    s: Seq<(Seq<char>, Seq<char>, Option<Seq<char>>)>,
    j: int,
)
    requires
        0 <= j < insert_blv(x, s).len(),
    ensures
        insert_blv(x, s)[j] == x || exists|k: int| 0 <= k < s.len() && insert_blv(x, s)[j] == s[k],
    decreases s.len(),
{
    if s.len() == 0 {
    } else if lex_leq(s[0].1, x.1) {
        if j == 0 {
            assert(insert_blv(x, s)[0] == s[0]);
        } else {
            lemma_blv_element_sources(x, s.drop_first(), j - 1);
            assert(insert_blv(x, s)[j] == insert_blv(x, s.drop_first())[j - 1]);
            if insert_blv(x, s.drop_first())[j - 1] != x {
                let k = choose|k: int|
                    0 <= k < s.drop_first().len() && insert_blv(x, s.drop_first())[j - 1]
                        == s.drop_first()[k];
                assert(s.drop_first()[k] == s[k + 1]);
            }
        }
    } else {
        if j > 0 {
            assert(insert_blv(x, s)[j] == s[j - 1]);
        }
    }
}

/// Backlink lists attached to documents are sorted by source title.
/// The sorted order is a total function of the input list, so two runs
/// over the same input produce identical output.
pub proof fn lemma_sort_blv_sorted(s: Seq<(Seq<char>, Seq<char>, Option<Seq<char>>)>)
    ensures
        sorted_by_title(sort_blv(s)),
    decreases s.len(),
{
    if s.len() > 0 {
        lemma_sort_blv_sorted(s.drop_last());
        lemma_insert_blv_sorted(s.last(), sort_blv(s.drop_last()));
    }
}

/// Copy one backlink reference.
fn clone_backlink(b: &BacklinkReference) -> (r: BacklinkReference)
    ensures
        backlink_view(r) == backlink_view(*b),
{
    BacklinkReference {
        source_path: b.source_path.clone(),
        source_title: b.source_title.clone(),
        link_context: match &b.link_context {
            Some(c) => Some(c.clone()),
            None => None,
        },
    }
}

/// Inserting at the position found by scanning matches the insertion
/// spec.
proof fn lemma_insert_blv_at(
    x: (Seq<char>, Seq<char>, Option<Seq<char>>),
    s: Seq<(Seq<char>, Seq<char>, Option<Seq<char>>)>,
    pos: int,
)
    requires
        0 <= pos <= s.len(),
        forall|k: int| 0 <= k < pos ==> lex_leq((#[trigger] s[k]).1, x.1),
        pos < s.len() ==> !lex_leq(s[pos].1, x.1),
    ensures
        insert_blv(x, s) == s.take(pos).push(x) + s.skip(pos),
    decreases pos,
{
    if pos == 0 {
        if s.len() == 0 {
            assert(insert_blv(x, s) =~= s.take(0).push(x) + s.skip(0));
        } else {
            assert(insert_blv(x, s) == seq![x] + s);
            assert(insert_blv(x, s) =~= s.take(0).push(x) + s.skip(0));
        }
    } else {
        assert(lex_leq(s[0].1, x.1));
        assert forall|k: int| 0 <= k < pos - 1 implies lex_leq(
            (#[trigger] s.drop_first()[k]).1,
            x.1,
        ) by {
            assert(s.drop_first()[k] == s[k + 1]);
        }
        assert(pos - 1 < s.drop_first().len() ==> !lex_leq(s.drop_first()[pos - 1].1, x.1));
        lemma_insert_blv_at(x, s.drop_first(), pos - 1);
        assert(insert_blv(x, s) == seq![s[0]] + insert_blv(x, s.drop_first()));
        assert(insert_blv(x, s) =~= s.take(pos).push(x) + s.skip(pos));
    }
}

/// Sort a backlink list by source title (stable and deterministic).
fn sort_backlinks(bs: &Vec<BacklinkReference>) -> (r: Vec<BacklinkReference>)
    ensures
        backlinks_view(r@) == sort_blv(backlinks_view(bs@)),
{
    let ghost src = backlinks_view(bs@);
    let mut r: Vec<BacklinkReference> = Vec::new();
    let mut i: usize = 0;
    proof {
        assert(src.take(0) =~= Seq::<(Seq<char>, Seq<char>, Option<Seq<char>>)>::empty());
        assert(backlinks_view(r@) =~= sort_blv(src.take(0)));
    }
    while i < bs.len()
        invariant
            i <= bs@.len(),
            src == backlinks_view(bs@),
            backlinks_view(r@) == sort_blv(src.take(i as int)),
        decreases bs@.len() - i,
    {
        let x = clone_backlink(&bs[i]);
        let ghost xv = backlink_view(bs@[i as int]);
        let mut pos: usize = 0;
        while pos < r.len() && str_leq(r[pos].source_title.as_str(), x.source_title.as_str())
            invariant
                pos <= r@.len(),
                backlink_view(x) == xv,
                forall|k: int|
                    0 <= k < pos ==> lex_leq((#[trigger] backlinks_view(r@)[k]).1, xv.1),
            decreases r@.len() - pos,
        {
            proof {
                assert(backlinks_view(r@)[pos as int].1 == r@[pos as int].source_title@);
            }
            pos = pos + 1;
        }
        let ghost old_view = backlinks_view(r@);
        proof {
            if pos < r@.len() {
                assert(backlinks_view(r@)[pos as int].1 == r@[pos as int].source_title@);
            }
            lemma_insert_blv_at(xv, old_view, pos as int);
        }
        r.insert(pos, x);
        i = i + 1;
        proof {
            assert(backlinks_view(r@) =~= old_view.take(pos as int).push(xv) + old_view.skip(
                pos as int,
            ));
            assert(src.take(i as int).drop_last() =~= src.take(i as int - 1));
            assert(src.take(i as int).last() == src[i - 1]);
            assert(backlinks_view(r@) == sort_blv(src.take(i as int)));
        }
    }
    proof {
        assert(src.take(src.len() as int) =~= src);
    }
    r
}

/// First-match lookup among index entries.
pub open spec fn index_get(
    es: Seq<(Seq<char>, Seq<(Seq<char>, Seq<char>, Option<Seq<char>>)>)>,
    p: Seq<char>,
) -> Option<Seq<(Seq<char>, Seq<char>, Option<Seq<char>>)>>
    decreases es.len(),
{
    if es.len() == 0 {
        None
    } else if es[0].0 == p {
        Some(es[0].1)
    } else {
        index_get(es.drop_first(), p)
    }
}

/// Equality of all document fields except the backlinks.
pub open spec fn same_doc_but_backlinks(a: Document, b: Document) -> bool {
    a.source_path == b.source_path && a.relative_path == b.relative_path && a.output_path
        == b.output_path && a.metadata == b.metadata && a.raw_content == b.raw_content
        && a.html_content == b.html_content && a.category == b.category && a.wiki_links
        == b.wiki_links
}

/// What applying the index owes one document: documents the index maps
/// get that entry sorted by source title, the others are untouched.
pub open spec fn applied_backlinks(
    old_doc: Document,
    new_doc: Document,
    es: Seq<(Seq<char>, Seq<(Seq<char>, Seq<char>, Option<Seq<char>>)>)>,
) -> bool {
    same_doc_but_backlinks(new_doc, old_doc) && backlinks_view(new_doc.backlinks@) == (
    match index_get(es, old_doc.output_path@) {
        Some(bs) => sort_blv(bs),
        None => backlinks_view(old_doc.backlinks@),
    })
}

impl BacklinkIndex {
    /// The references recorded for a target path, if any.
    pub fn get<'a>(&'a self, path: &str) -> (r: Option<&'a Vec<BacklinkReference>>)
        ensures
            match r {
                Some(bs) => index_get(index_view(self.entries@), path@) == Some(
                    backlinks_view(bs@),
                ),
                None => index_get(index_view(self.entries@), path@) is None,
            },
    {
        index_lookup(self, path)
    }
}

/// Look an entry's list up by exec search.
fn index_lookup<'a>(index: &'a BacklinkIndex, path: &str) -> (r: Option<
    &'a Vec<BacklinkReference>,
>)
    ensures
        match r {
            Some(bs) => index_get(index_view(index.entries@), path@) == Some(backlinks_view(bs@)),
            None => index_get(index_view(index.entries@), path@) is None,
        },
{
    let ghost es = index_view(index.entries@);
    let mut j: usize = 0;
    proof {
        assert(es.skip(0) =~= es);
    }
    while j < index.entries.len()
        invariant
            j <= index.entries@.len(),
            es == index_view(index.entries@),
            index_get(es, path@) == index_get(es.skip(j as int), path@),
        decreases index.entries@.len() - j,
    {
        proof {
            assert(es.skip(j as int)[0] == es[j as int]);
            assert(es.skip(j as int).drop_first() =~= es.skip(j as int + 1));
        }
        if str_eq(index.entries[j].0.as_str(), path) {
            return Some(&index.entries[j].1);
        }
        j = j + 1;
    }
    proof {
        assert(es.skip(es.len() as int) =~= Seq::<
            (Seq<char>, Seq<(Seq<char>, Seq<char>, Option<Seq<char>>)>),
        >::empty());
    }
    None
}

/// Attach the indexed backlinks to each document, each list sorted by
/// source title; documents the index does not map keep their backlinks.
pub fn apply_backlinks_to_documents(documents: &mut Vec<Document>, backlink_index: &BacklinkIndex)
    ensures
        final(documents)@.len() == old(documents)@.len(),
        forall|i: int|
            0 <= i < final(documents)@.len() ==> applied_backlinks(
                old(documents)@[i],
                #[trigger] final(documents)@[i],
                index_view(backlink_index.entries@),
            ),
{
    let ghost es = index_view(backlink_index.entries@);
    let mut i: usize = 0;
    while i < documents.len()
        invariant
            i <= documents@.len(),
            documents@.len() == old(documents)@.len(),
            es == index_view(backlink_index.entries@),
            forall|k: int|
                0 <= k < i ==> applied_backlinks(old(documents)@[k], #[trigger] documents@[k], es),
            forall|k: int| i <= k < documents@.len() ==> documents@[k] == old(documents)@[k],
        decreases documents@.len() - i,
    {
        match index_lookup(backlink_index, documents[i].output_path.as_str()) {
            Some(bs) => {
                let sorted = sort_backlinks(bs);
                let mut d = documents.remove(i);
                d.backlinks = sorted;
                documents.insert(i, d);
            },
            None => {
            },
        }
        i = i + 1;
    }
}

} // verus!

verus! {

/// Entry paths of a built index all come from its contributions.
proof fn lemma_index_paths_from_contribs(
    cs: Seq<(Seq<char>, (Seq<char>, Seq<char>, Option<Seq<char>>))>,
    e: int,
)
    requires
        0 <= e < index_spec(cs).len(),
    ensures
        exists|j: int| 0 <= j < cs.len() && (#[trigger] cs[j]).0 == index_spec(cs)[e].0,
    decreases cs.len(),
{
    if cs.len() > 0 {
        let prev = index_spec(cs.drop_last());
        let c = cs.last();
        if exists|i: int| 0 <= i < prev.len() && prev[i].0 == c.0 {
            let i = choose|i: int| 0 <= i < prev.len() && prev[i].0 == c.0;
            assert(index_spec(cs) == prev.update(i, (c.0, prev[i].1 + seq![c.1])));
            if e == i {
                assert(cs[cs.len() - 1].0 == index_spec(cs)[e].0);
            } else {
                lemma_index_paths_from_contribs(cs.drop_last(), e);
                let j = choose|j: int|
                    0 <= j < cs.drop_last().len() && (#[trigger] cs.drop_last()[j]).0 == prev[e].0;
                assert(cs[j].0 == index_spec(cs)[e].0);
            }
        } else {
            assert(index_spec(cs) == prev + seq![(c.0, seq![c.1])]);
            if e < prev.len() {
                lemma_index_paths_from_contribs(cs.drop_last(), e);
                let j = choose|j: int|
                    0 <= j < cs.drop_last().len() && (#[trigger] cs.drop_last()[j]).0 == prev[e].0;
                assert(cs[j].0 == index_spec(cs)[e].0);
            } else {
                assert(cs[cs.len() - 1].0 == index_spec(cs)[e].0);
            }
        }
    }
}

/// Every contribution of one document's links comes from a resolved,
/// non-broken link.
proof fn lemma_link_contrib_sources(
    links: Seq<ResolvedLink>,
    src_path: Seq<char>,
    src_title: Seq<char>,
    content: Seq<char>,
    j: int,
)
    requires
        0 <= j < contribs_of_links(links, src_path, src_title, content).len(),
    ensures
        exists|l: int|
            0 <= l < links.len() && !(#[trigger] links[l]).is_broken && links[l].resolved_path
                is Some && links[l].resolved_path.unwrap()@ == contribs_of_links(
                links,
                src_path,
                src_title,
                content,
            )[j].0,
    decreases links.len(),
{
    let cs = contribs_of_links(links, src_path, src_title, content);
    let l0 = links[0];
    if !l0.is_broken && l0.resolved_path is Some {
        if j == 0 {
            assert(cs[0].0 == links[0].resolved_path.unwrap()@);
        } else {
            lemma_link_contrib_sources(links.drop_first(), src_path, src_title, content, j - 1);
            let l = choose|l: int|
                0 <= l < links.drop_first().len() && !(#[trigger] links.drop_first()[l]).is_broken
                    && links.drop_first()[l].resolved_path is Some
                    && links.drop_first()[l].resolved_path.unwrap()@ == contribs_of_links(
                    links.drop_first(),
                    src_path,
                    src_title,
                    content,
                )[j - 1].0;
            assert(links.drop_first()[l] == links[l + 1]);
            assert(!links[l + 1].is_broken && links[l + 1].resolved_path is Some && links[l
                + 1].resolved_path.unwrap()@ == cs[j].0);
        }
    } else {
        lemma_link_contrib_sources(links.drop_first(), src_path, src_title, content, j);
        let l = choose|l: int|
            0 <= l < links.drop_first().len() && !(#[trigger] links.drop_first()[l]).is_broken
                && links.drop_first()[l].resolved_path is Some
                && links.drop_first()[l].resolved_path.unwrap()@ == contribs_of_links(
                links.drop_first(),
                src_path,
                src_title,
                content,
            )[j].0;
        assert(links.drop_first()[l] == links[l + 1]);
        assert(!links[l + 1].is_broken && links[l + 1].resolved_path is Some && links[l
            + 1].resolved_path.unwrap()@ == cs[j].0);
    }
}

/// Every contribution of the document set comes from a resolved,
/// non-broken link of some document.
proof fn lemma_contrib_sources(docs: Seq<Document>, j: int)
    requires
        0 <= j < all_contribs(docs).len(),
    ensures
        exists|d: int, l: int|
            0 <= d < docs.len() && 0 <= l < (#[trigger] docs[d]).wiki_links@.len() && !(
            #[trigger] docs[d].wiki_links@[l]).is_broken && docs[d].wiki_links@[l].resolved_path
                is Some && docs[d].wiki_links@[l].resolved_path.unwrap()@ == all_contribs(docs)[j].0,
    decreases docs.len(),
{
    let own = contribs_of_links(
        docs[0].wiki_links@,
        docs[0].relative_path@,
        docs[0].title_spec(),
        docs[0].raw_content@,
    );
    if j < own.len() {
        lemma_link_contrib_sources(
            docs[0].wiki_links@,
            docs[0].relative_path@,
            docs[0].title_spec(),
            docs[0].raw_content@,
            j,
        );
        let l = choose|l: int|
            0 <= l < docs[0].wiki_links@.len() && !(#[trigger] docs[0].wiki_links@[l]).is_broken
                && docs[0].wiki_links@[l].resolved_path is Some
                && docs[0].wiki_links@[l].resolved_path.unwrap()@ == own[j].0;
        assert(0 <= 0 < docs.len() && 0 <= l < docs[0].wiki_links@.len() && !docs[0].wiki_links@[l].is_broken
            && docs[0].wiki_links@[l].resolved_path is Some
            && docs[0].wiki_links@[l].resolved_path.unwrap()@ == all_contribs(docs)[j].0);
    } else {
        lemma_contrib_sources(docs.drop_first(), j - own.len());
        let (d, l) = choose|d: int, l: int|
            0 <= d < docs.drop_first().len() && 0 <= l < (
            #[trigger] docs.drop_first()[d]).wiki_links@.len() && !(
            #[trigger] docs.drop_first()[d].wiki_links@[l]).is_broken
                && docs.drop_first()[d].wiki_links@[l].resolved_path is Some
                && docs.drop_first()[d].wiki_links@[l].resolved_path.unwrap()@ == all_contribs(
                docs.drop_first(),
            )[j - own.len()].0;
        assert(docs.drop_first()[d] == docs[d + 1]);
        assert(0 <= d + 1 < docs.len() && 0 <= l < docs[d + 1].wiki_links@.len() && !docs[d
            + 1].wiki_links@[l].is_broken && docs[d + 1].wiki_links@[l].resolved_path is Some
            && docs[d + 1].wiki_links@[l].resolved_path.unwrap()@ == all_contribs(docs)[j].0);
    }
}

/// Broken links are excluded from the backlink index: a path has an
/// entry in the index built from a document set only when some document
/// holds a resolved, non-broken link to it.
pub proof fn lemma_broken_links_not_indexed(docs: Seq<Document>, p: Seq<char>)
    ensures
        (exists|e: int|
            0 <= e < index_spec(all_contribs(docs)).len() && (#[trigger] index_spec(
                all_contribs(docs),
            )[e]).0 == p) ==> exists|d: int, l: int|
            0 <= d < docs.len() && 0 <= l < (#[trigger] docs[d]).wiki_links@.len() && !(
            #[trigger] docs[d].wiki_links@[l]).is_broken && docs[d].wiki_links@[l].resolved_path
                is Some && docs[d].wiki_links@[l].resolved_path.unwrap()@ == p,
{
    if exists|e: int|
        0 <= e < index_spec(all_contribs(docs)).len() && (#[trigger] index_spec(
            all_contribs(docs),
        )[e]).0 == p {
        let e = choose|e: int|
            0 <= e < index_spec(all_contribs(docs)).len() && (#[trigger] index_spec(
                all_contribs(docs),
            )[e]).0 == p;
        lemma_index_paths_from_contribs(all_contribs(docs), e);
        let j = choose|j: int|
            0 <= j < all_contribs(docs).len() && (#[trigger] all_contribs(docs)[j]).0 == p;
        lemma_contrib_sources(docs, j);
    }
}

/// Aggregate counts over the final document set.
pub struct LinkStatistics {
    /// Number of documents.
    pub total_documents: usize,
    /// Number of wiki links over all documents.
    pub total_links: usize,
    /// Number of resolved links.
    pub valid_links: usize,
    /// Number of broken links.
    pub broken_links: usize,
    /// Number of documents with at least one backlink.
    pub documents_with_backlinks: usize,
    /// Relative paths of documents with no backlinks that are not index
    /// pages.
    pub orphaned_documents: Vec<String>,
}

/// The number of links over all documents.
pub open spec fn total_links_spec(docs: Seq<Document>) -> int
    decreases docs.len(),
{
    if docs.len() == 0 {
        0
    } else {
        docs[0].wiki_links@.len() + total_links_spec(docs.drop_first())
    }
}

/// The number of broken links in one list.
pub open spec fn count_broken(links: Seq<ResolvedLink>) -> int
    decreases links.len(),
{
    if links.len() == 0 {
        0
    } else {
        (if links[0].is_broken {
            1int
        } else {
            0int
        }) + count_broken(links.drop_first())
    }
}

/// The number of broken links over all documents.
pub open spec fn broken_links_spec(docs: Seq<Document>) -> int
    decreases docs.len(),
{
    if docs.len() == 0 {
        0
    } else {
        count_broken(docs[0].wiki_links@) + broken_links_spec(docs.drop_first())
    }
}

/// The number of documents with at least one backlink.
pub open spec fn docs_with_backlinks_spec(docs: Seq<Document>) -> int
    decreases docs.len(),
{
    if docs.len() == 0 {
        0
    } else {
        (if docs[0].backlinks@.len() > 0 {
            1int
        } else {
            0int
        }) + docs_with_backlinks_spec(docs.drop_first())
    }
}

/// Whether a path names a recognized index or landing page.
pub open spec fn is_index_page_spec(path: Seq<char>) -> bool {
    file_name_spec(path) == "index.md"@ || file_name_spec(path) == "_index.md"@ || file_name_spec(
        path,
    ) == "README.md"@
}

/// Whether a path names an index page.
pub fn is_index_page(path: &str) -> (r: bool)
    ensures
        r == is_index_page_spec(path@),
{
    let name = file_name_of(path);
    str_eq(name.as_str(), "index.md") || str_eq(name.as_str(), "_index.md") || str_eq(
        name.as_str(),
        "README.md",
    )
}

/// The relative paths of orphaned documents: no backlinks and not an
/// index page.
pub open spec fn orphans_spec(docs: Seq<Document>) -> Seq<Seq<char>>
    decreases docs.len(),
{
    if docs.len() == 0 {
        Seq::empty()
    } else {
        (if docs[0].backlinks@.len() == 0 && !is_index_page_spec(docs[0].relative_path@) {
            seq![docs[0].relative_path@]
        } else {
            Seq::empty()
        }) + orphans_spec(docs.drop_first())
    }
}

/// Link sums are not negative and bound their parts.
proof fn lemma_links_sums_nonneg(docs: Seq<Document>)
    ensures
        total_links_spec(docs) >= 0,
        broken_links_spec(docs) >= 0,
        0 <= broken_links_spec(docs) <= total_links_spec(docs),
    decreases docs.len(),
{
    if docs.len() > 0 {
        lemma_links_sums_nonneg(docs.drop_first());
        lemma_count_broken_bounds(docs[0].wiki_links@);
    }
}

/// Broken counts lie between zero and the list length.
proof fn lemma_count_broken_bounds(links: Seq<ResolvedLink>)
    ensures
        0 <= count_broken(links) <= links.len(),
    decreases links.len(),
{
    if links.len() > 0 {
        lemma_count_broken_bounds(links.drop_first());
    }
}

/// Count the broken links of one list.
fn count_broken_exec(links: &Vec<ResolvedLink>) -> (r: usize)
    ensures
        r == count_broken(links@),
        r <= links@.len(),
{
    let mut cnt: usize = 0;
    let mut j: usize = 0;
    proof {
        assert(links@.skip(0) =~= links@);
        lemma_count_broken_bounds(links@);
    }
    while j < links.len()
        invariant
            j <= links@.len(),
            cnt <= j,
            cnt + count_broken(links@.skip(j as int)) == count_broken(links@),
        decreases links@.len() - j,
    {
        proof {
            assert(links@.skip(j as int)[0] == links@[j as int]);
            assert(links@.skip(j as int).drop_first() =~= links@.skip(j as int + 1));
        }
        if links[j].is_broken {
            cnt = cnt + 1;
        }
        j = j + 1;
    }
    proof {
        assert(links@.skip(links@.len() as int) =~= Seq::<ResolvedLink>::empty());
    }
    cnt
}

/// Derive the link statistics of the final document set. The total link
/// count must fit the machine's word size.
pub fn calculate_link_statistics(documents: &Vec<Document>) -> (r: LinkStatistics)
    requires
        total_links_spec(documents@) <= usize::MAX,
    ensures
        r.total_documents == documents@.len(),
        r.total_links == total_links_spec(documents@),
        r.broken_links == broken_links_spec(documents@),
        r.valid_links == total_links_spec(documents@) - broken_links_spec(documents@),
        r.documents_with_backlinks == docs_with_backlinks_spec(documents@),
        r.orphaned_documents@.map_values(|p: String| p@) == orphans_spec(documents@),
{
    let mut total_links: usize = 0;
    let mut broken_links: usize = 0;
    let mut documents_with_backlinks: usize = 0;
    let mut orphaned_documents: Vec<String> = Vec::new();
    let mut i: usize = 0;
    proof {
        assert(documents@.skip(0) =~= documents@);
        assert(orphaned_documents@.map_values(|p: String| p@) + orphans_spec(documents@)
            =~= orphans_spec(documents@));
    }
    while i < documents.len()
        invariant
            i <= documents@.len(),
            total_links + total_links_spec(documents@.skip(i as int)) == total_links_spec(
                documents@,
            ),
            broken_links + broken_links_spec(documents@.skip(i as int)) == broken_links_spec(
                documents@,
            ),
            broken_links <= total_links,
            documents_with_backlinks <= i,
            documents_with_backlinks + docs_with_backlinks_spec(documents@.skip(i as int))
                == docs_with_backlinks_spec(documents@),
            orphaned_documents@.map_values(|p: String| p@) + orphans_spec(
                documents@.skip(i as int),
            ) == orphans_spec(documents@),
            total_links_spec(documents@) <= usize::MAX,
        decreases documents@.len() - i,
    {
        let doc = &documents[i];
        proof {
            assert(documents@.skip(i as int)[0] == documents@[i as int]);
            assert(documents@.skip(i as int).drop_first() =~= documents@.skip(i as int + 1));
            lemma_links_sums_nonneg(documents@.skip(i as int + 1));
            lemma_count_broken_bounds(documents@[i as int].wiki_links@);
        }
        let n_links = doc.wiki_links.len();
        total_links = total_links + n_links;
        let n_broken = count_broken_exec(&doc.wiki_links);
        broken_links = broken_links + n_broken;
        if doc.backlinks.len() > 0 {
            documents_with_backlinks = documents_with_backlinks + 1;
        }
        let ghost pre = orphaned_documents@.map_values(|p: String| p@);
        if doc.backlinks.len() == 0 && !is_index_page(doc.relative_path.as_str()) {
            orphaned_documents.push(doc.relative_path.clone());
            proof {
                assert(orphaned_documents@.map_values(|p: String| p@) =~= pre + seq![
                    documents@[i as int].relative_path@,
                ]);
            }
        }
        i = i + 1;
        proof {
            assert(orphaned_documents@.map_values(|p: String| p@) + orphans_spec(
                documents@.skip(i as int),
            ) =~= orphans_spec(documents@));
        }
    }
    proof {
        assert(documents@.skip(documents@.len() as int) =~= Seq::<Document>::empty());
        assert(orphaned_documents@.map_values(|p: String| p@) =~= orphans_spec(documents@));
    }
    LinkStatistics {
        total_documents: documents.len(),
        total_links,
        valid_links: total_links - broken_links,
        broken_links,
        documents_with_backlinks,
        orphaned_documents,
    }
}

} // verus!
