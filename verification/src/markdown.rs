//! Markdown rendering and the text read out of it. Rendering itself is
//! pulldown-cmark's work behind a trusted boundary; heading ids, summary
//! extraction and the wiki-link pass around it are verified.

use vstd::prelude::*;

use crate::document::Document;
use crate::error::ParaSsgError;
use crate::text::chars_to_string;
use crate::text::dash_pred;
use crate::text::is_space;
use crate::text::is_space_spec;
use crate::text::join;
use crate::text::join_chars;
use crate::text::lower_char;
use crate::text::lower_char_spec;
use crate::text::push_all;
use crate::text::runs;
use crate::text::split_runs_dash;
use crate::text::str_chars;
use crate::text::trim_chars;
use crate::text::trim_spec;
use crate::wiki_links::DocumentLookup;
use crate::wiki_links::ResolvedLink;
use crate::wiki_links::link_view;
use crate::wiki_links::links_ascending;
use crate::wiki_links::links_view;
use crate::wiki_links::lemma_parse_links_ascending;
use crate::wiki_links::normalize_spec;
use crate::wiki_links::parse_links_spec;
use crate::wiki_links::parse_wiki_links;
use crate::wiki_links::replace_wiki_links_with_html;
use crate::wiki_links::resolve_wiki_links;
use crate::wiki_links::rewrite_spec;
use crate::wiki_links::sort_desc;

verus! {

/// The HTML that pulldown-cmark renders a markdown text to, with tables,
/// footnotes, strikethrough, task lists and smart punctuation enabled.
pub uninterp spec fn cmark_html(s: Seq<char>) -> Seq<char>;

/// The event stream pulldown-cmark parses a markdown text into, reduced
/// to what summary extraction reads: `t` for a text event with its text,
/// `c` and `C` for entering and leaving a code block, `s` and `h` for
/// soft and hard breaks, `o` for anything else.
pub uninterp spec fn cmark_events(s: Seq<char>) -> Seq<(char, Seq<char>)>;

/// Relies on `pulldown_cmark::Parser::new_ext` and
/// `pulldown_cmark::html::push_html` with the extensions named above.
#[verifier::external_body]
fn render_markdown(content: &str) -> (r: String)
    ensures
        r@ == cmark_html(content@),
{
    let mut options = pulldown_cmark::Options::empty();
    options.insert(pulldown_cmark::Options::ENABLE_TABLES);
    options.insert(pulldown_cmark::Options::ENABLE_FOOTNOTES);
    options.insert(pulldown_cmark::Options::ENABLE_STRIKETHROUGH);
    options.insert(pulldown_cmark::Options::ENABLE_TASKLISTS);
    options.insert(pulldown_cmark::Options::ENABLE_SMART_PUNCTUATION);
    let parser = pulldown_cmark::Parser::new_ext(content, options);
    let mut html_output = String::new();
    pulldown_cmark::html::push_html(&mut html_output, parser);
    html_output
}

/// Relies on `pulldown_cmark::Parser::new`: reads the event stream,
/// keeping each event's kind and the text of text events.
#[verifier::external_body]
fn markdown_events(content: &str) -> (r: Vec<(char, String)>)
    ensures
        r.deep_view() == cmark_events(content@),
{
    pulldown_cmark::Parser::new(content)
        .map(|ev| match ev {
            pulldown_cmark::Event::Text(t) => ('t', t.to_string()),
            pulldown_cmark::Event::Start(pulldown_cmark::Tag::CodeBlock(_)) => ('c', String::new()),
            pulldown_cmark::Event::End(pulldown_cmark::TagEnd::CodeBlock) => ('C', String::new()),
            pulldown_cmark::Event::SoftBreak => ('s', String::new()),
            pulldown_cmark::Event::HardBreak => ('h', String::new()),
            _ => ('o', String::new()),
        })
        .collect()
}

/// Convert markdown content to HTML. The `Result` mirrors how callers
/// consume it; rendering itself does not fail.
pub fn markdown_to_html(content: &str) -> (r: Result<String, ParaSsgError>)
    ensures
        r is Ok,
        r.unwrap()@ == cmark_html(content@),
{
    Ok(render_markdown(content))
}

/// The HTML pulldown-cmark renders with heading attributes also enabled,
/// so that headings can carry ids.
pub uninterp spec fn cmark_html_with_ids(s: Seq<char>) -> Seq<char>;

/// Relies on `pulldown_cmark::Parser::new_ext` and
/// `pulldown_cmark::html::push_html`, with the extensions of
/// `render_markdown` plus heading attributes.
#[verifier::external_body]
fn render_markdown_with_ids(content: &str) -> (r: String)
    ensures
        r@ == cmark_html_with_ids(content@),
{
    let mut options = pulldown_cmark::Options::empty();
    options.insert(pulldown_cmark::Options::ENABLE_TABLES);
    options.insert(pulldown_cmark::Options::ENABLE_FOOTNOTES);
    options.insert(pulldown_cmark::Options::ENABLE_STRIKETHROUGH);
    options.insert(pulldown_cmark::Options::ENABLE_TASKLISTS);
    options.insert(pulldown_cmark::Options::ENABLE_SMART_PUNCTUATION);
    options.insert(pulldown_cmark::Options::ENABLE_HEADING_ATTRIBUTES);
    let parser = pulldown_cmark::Parser::new_ext(content, options);
    let mut html_output = String::new();
    pulldown_cmark::html::push_html(&mut html_output, parser);
    html_output
}

/// Convert markdown to HTML with heading attributes enabled, so that
/// anchors written as heading attributes take effect.
pub fn markdown_to_html_with_ids(content: &str) -> (r: Result<String, ParaSsgError>)
    ensures
        r is Ok,
        r.unwrap()@ == cmark_html_with_ids(content@),
{
    Ok(render_markdown_with_ids(content))
}

/// How one character contributes to a heading id: letters fold to lower
/// case; letters, digits, hyphens and underscores stay; whitespace
/// becomes a hyphen; everything else becomes an underscore.
pub open spec fn heading_char_spec(c: char) -> char {
    let l = lower_char_spec(c);
    if ('a' <= l && l <= 'z') || ('0' <= l && l <= '9') || l == '-' || l == '_' {
        l
    } else if is_space_spec(l) {
        '-'
    } else {
        '_'
    }
}

/// A URL-safe id for a heading: the mapped characters with hyphen runs
/// collapsed and none left at either end.
pub open spec fn heading_id_spec(s: Seq<char>) -> Seq<char> {
    join(runs(s.map_values(|c: char| heading_char_spec(c)), dash_pred()), '-')
}

/// Generate a URL-safe id from heading text.
pub fn generate_heading_id(text: &str) -> (r: String)
    ensures
        r@ == heading_id_spec(text@),
{
    let v = str_chars(text);
    let mut m: Vec<char> = Vec::new();
    let mut i: usize = 0;
    while i < v.len()
        invariant
            i <= v@.len(),
            m@ == v@.map_values(|c: char| heading_char_spec(c)).take(i as int),
        decreases v@.len() - i,
    {
        let l = lower_char(v[i]);
        if ('a' <= l && l <= 'z') || ('0' <= l && l <= '9') || l == '-' || l == '_' {
            m.push(l);
        } else if is_space(l) {
            m.push('-');
        } else {
            m.push('_');
        }
        i = i + 1;
        proof {
            assert(m@ =~= v@.map_values(|c: char| heading_char_spec(c)).take(i as int));
        }
    }
    proof {
        let full = v@.map_values(|c: char| heading_char_spec(c));
        assert(full.take(v@.len() as int) =~= full);
    }
    let words = split_runs_dash(&m);
    let joined = join_chars(&words, '-');
    chars_to_string(&joined)
}

/// The text gathered from an event stream: text events outside code
/// blocks followed by a space each, a space per line break, stopping
/// once the gathered text reaches `max` characters.
pub open spec fn gather_text(
    evs: Seq<(char, Seq<char>)>,
    in_code: bool,
    max: int,
    acc: Seq<char>,
) -> Seq<char>
    decreases evs.len(),
{
    if evs.len() == 0 {
        acc
    } else {
        let e = evs[0];
        if e.0 == 't' && !in_code {
            let acc2 = acc + e.1 + seq![' '];
            if acc2.len() >= max {
                acc2
            } else {
                gather_text(evs.drop_first(), in_code, max, acc2)
            }
        } else if e.0 == 'c' {
            gather_text(evs.drop_first(), true, max, acc)
        } else if e.0 == 'C' {
            gather_text(evs.drop_first(), false, max, acc)
        } else if e.0 == 's' || e.0 == 'h' {
            gather_text(evs.drop_first(), in_code, max, acc + seq![' '])
        } else {
            gather_text(evs.drop_first(), in_code, max, acc)
        }
    }
}

/// The last position of `c` in `s`, or -1.
pub open spec fn rfind_char(s: Seq<char>, c: char) -> int
    decreases s.len(),
{
    if s.len() == 0 {
        -1
    } else if s.last() == c {
        s.len() - 1
    } else {
        rfind_char(s.drop_last(), c)
    }
}

/// Gathered text trimmed and cut down to `max` characters: too-long text
/// is cut at the last word boundary before the limit (or hard at the
/// limit when it has no space), trimmed, and marked with an ellipsis.
pub open spec fn truncate_summary(s: Seq<char>, max: int) -> Seq<char> {
    let t = trim_spec(s);
    if t.len() > max {
        let cut = t.take(max);
        let sp = rfind_char(cut, ' ');
        let base = if sp >= 0 {
            cut.take(sp)
        } else {
            cut
        };
        base + "..."@
    } else {
        t
    }
}

/// The summary of an event stream.
pub open spec fn summary_spec(evs: Seq<(char, Seq<char>)>, max: int) -> Seq<char> {
    truncate_summary(gather_text(evs, false, max, Seq::empty()), max)
}

/// Find the last space in `v`.
pub(crate) fn rfind_space(v: &Vec<char>) -> (r: Option<usize>)
    ensures
        match r {
            Some(i) => i < v@.len() && i == rfind_char(v@, ' '),
            None => rfind_char(v@, ' ') == -1,
        },
{
    let mut i: usize = v.len();
    proof {
        assert(v@.take(v@.len() as int) =~= v@);
    }
    while i > 0
        invariant
            i <= v@.len(),
            rfind_char(v@, ' ') == rfind_char(v@.take(i as int), ' '),
        decreases i,
    {
        proof {
            assert(v@.take(i as int).last() == v@[i - 1]);
            assert(v@.take(i as int).drop_last() =~= v@.take(i as int - 1));
        }
        if v[i - 1] == ' ' {
            return Some(i - 1);
        }
        i = i - 1;
    }
    proof {
        assert(v@.take(0) =~= Seq::<char>::empty());
    }
    None
}

/// Gather and cut the summary text out of an event stream (as produced
/// by the markdown parser: kind characters paired with text).
pub fn summarize_events(events: &Vec<(char, String)>, max_length: usize) -> (r: String)
    ensures
        r@ == summary_spec(events.deep_view(), max_length as int),
{
    let ghost evs = events.deep_view();
    let mut acc: Vec<char> = Vec::new();
    let mut in_code = false;
    let mut i: usize = 0;
    proof {
        assert(evs.skip(0) =~= evs);
    }
    let mut stopped = false;
    while i < events.len() && !stopped
        invariant
            i <= events@.len(),
            evs == events.deep_view(),
            !stopped ==> gather_text(evs.skip(i as int), in_code, max_length as int, acc@)
                == gather_text(evs, false, max_length as int, Seq::empty()),
            stopped ==> acc@ == gather_text(evs, false, max_length as int, Seq::empty()),
        decreases events@.len() - i,
    {
        proof {
            assert(evs.skip(i as int)[0] == evs[i as int]);
            assert(evs[i as int] == (events@[i as int].0, events@[i as int].1@));
            assert(evs.skip(i as int).drop_first() =~= evs.skip(i as int + 1));
        }
        let ghost old_acc = acc@;
        let ghost old_in_code = in_code;
        let kind = events[i].0;
        if kind == 't' && !in_code {
            let t = str_chars(events[i].1.as_str());
            push_all(&mut acc, &t);
            acc.push(' ');
            proof {
                assert(acc@ =~= old_acc + evs[i as int].1 + seq![' ']);
            }
            if acc.len() >= max_length {
                stopped = true;
            }
        } else if kind == 'c' {
            in_code = true;
        } else if kind == 'C' {
            in_code = false;
        } else if kind == 's' || kind == 'h' {
            acc.push(' ');
            proof {
                assert(acc@ =~= old_acc + seq![' ']);
            }
        }
        i = i + 1;
        proof {
            assert(gather_text(evs.skip(i - 1), old_in_code, max_length as int, old_acc)
                == gather_text(evs, false, max_length as int, Seq::empty()));
            if stopped {
                assert(acc@ == gather_text(evs.skip(i - 1), old_in_code, max_length as int, old_acc));
            } else {
                assert(gather_text(evs.skip(i as int), in_code, max_length as int, acc@)
                    == gather_text(evs.skip(i - 1), old_in_code, max_length as int, old_acc));
            }
        }
    }
    proof {
        if !stopped {
            assert(evs.skip(evs.len() as int) =~= Seq::<(char, Seq<char>)>::empty());
        }
        assert(acc@ == gather_text(evs, false, max_length as int, Seq::empty()));
    }
    let trimmed = trim_chars(&acc);
    if trimmed.len() > max_length {
        let cut = crate::text::chars_slice(&trimmed, 0, max_length);
        proof {
            assert(cut@ =~= trimmed@.take(max_length as int));
        }
        let base = match rfind_space(&cut) {
            Some(sp) => crate::text::chars_slice(&cut, 0, sp),
            None => cut,
        };
        proof {
            if rfind_char(trimmed@.take(max_length as int), ' ') >= 0 {
                assert(base@ =~= trimmed@.take(max_length as int).take(
                    rfind_char(trimmed@.take(max_length as int), ' '),
                ));
            }
        }
        let mut out = chars_to_string(&base);
        out.append("...");
        out
    } else {
        chars_to_string(&trimmed)
    }
}

/// Extract a plain-text summary from markdown content: the text of the
/// parsed markdown outside code blocks, cut to roughly `max_length`
/// characters at a word boundary.
pub fn extract_summary(content: &str, max_length: usize) -> (r: String)
    ensures
        r@ == summary_spec(cmark_events(content@), max_length as int),
{
    let events = markdown_events(content);
    summarize_events(&events, max_length)
}

/// Convert markdown to HTML with wiki links rewritten first: the links
/// are parsed from the raw markdown, resolved against the lookup table,
/// spliced into the text as HTML, and the rewritten markdown is then
/// rendered. Hands back the rendered page and the resolved links.
pub fn markdown_to_html_with_wiki_links(
    content: &str,
    current_doc_path: &str,
    document_lookup: &DocumentLookup,
) -> (r: Result<(String, Vec<ResolvedLink>), ParaSsgError>)
    ensures
        r is Ok,
        links_view(
            r.unwrap().1@.map_values(|l: ResolvedLink| l.wiki_link),
        ) == parse_links_spec(content@),
        forall|x: int|
            0 <= x < r.unwrap().1@.len() ==> {
                let l = #[trigger] r.unwrap().1@[x];
                l.is_broken == (document_lookup.spec_get(normalize_spec(l.wiki_link.target@))
                    is None) && (match l.resolved_path {
                    Some(p) => document_lookup.spec_get(normalize_spec(l.wiki_link.target@))
                        == Some(p@),
                    None => document_lookup.spec_get(normalize_spec(l.wiki_link.target@)) is None,
                })
            },
        r.unwrap().0@ == cmark_html(
            rewrite_spec(content@, sort_desc(r.unwrap().1@), current_doc_path@),
        ),
{
    let wiki_links = parse_wiki_links(content);
    let ghost parsed = wiki_links@;
    let resolved = resolve_wiki_links(wiki_links, document_lookup);
    proof {
        lemma_parse_links_ascending(content@);
        assert forall|x: int| 0 <= x < resolved@.len() implies (
        #[trigger] resolved@[x]).wiki_link.start < resolved@[x].wiki_link.end <= content@.len() by {
            assert(resolved@[x].wiki_link == parsed[x]);
            assert(links_view(parsed)[x] == link_view(parsed[x]));
            assert(parse_links_spec(content@)[x].start == parsed[x].start as int);
        }
        assert forall|x: int, y: int| 0 <= x < y < resolved@.len() implies (
        #[trigger] resolved@[x]).wiki_link.end <= (#[trigger] resolved@[y]).wiki_link.start by {
            assert(resolved@[x].wiki_link == parsed[x]);
            assert(resolved@[y].wiki_link == parsed[y]);
            assert(links_view(parsed)[x] == link_view(parsed[x]));
            assert(links_view(parsed)[y] == link_view(parsed[y]));
        }
        assert(links_ascending(resolved@, content@.len() as int));
        assert(links_view(resolved@.map_values(|l: ResolvedLink| l.wiki_link)) =~= links_view(
            parsed,
        ));
    }
    let content_with_html_links = match replace_wiki_links_with_html(
        content,
        &resolved,
        current_doc_path,
    ) {
        Ok(s) => s,
        Err(e) => {
            return Err(e);
        },
    };
    let html = render_markdown(content_with_html_links.as_str());
    Ok((html, resolved))
}

/// Convert a document's raw content, resolving wiki links against the
/// lookup table, and return the rendered HTML with the resolved links.
pub fn render_document_content(
    doc: &Document,
    document_lookup: &DocumentLookup,
) -> (r: Result<(String, Vec<ResolvedLink>), ParaSsgError>)
    ensures
        r is Ok,
        links_view(
            r.unwrap().1@.map_values(|l: ResolvedLink| l.wiki_link),
        ) == parse_links_spec(doc.raw_content@),
        forall|x: int|
            0 <= x < r.unwrap().1@.len() ==> {
                let l = #[trigger] r.unwrap().1@[x];
                l.is_broken == (document_lookup.spec_get(normalize_spec(l.wiki_link.target@))
                    is None) && (match l.resolved_path {
                    Some(p) => document_lookup.spec_get(normalize_spec(l.wiki_link.target@))
                        == Some(p@),
                    None => document_lookup.spec_get(normalize_spec(l.wiki_link.target@)) is None,
                })
            },
        r.unwrap().0@ == cmark_html(
            rewrite_spec(doc.raw_content@, sort_desc(r.unwrap().1@), doc.output_path@),
        ),
{
    markdown_to_html_with_wiki_links(
        doc.raw_content.as_str(),
        doc.output_path.as_str(),
        document_lookup,
    )
}

} // verus!
