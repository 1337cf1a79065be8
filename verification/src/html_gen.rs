//! Support for the page-rendering layer: readable titles for file names
//! and categories, and the breadcrumb trail of a document. Assembling and
//! writing whole pages is the rendering collaborator's work.

use vstd::prelude::*;
use vstd::string::StringExecFns;

use crate::config::BlogConfig;
use crate::document::Document;
use crate::para::is_para_category_spec;
use crate::para::is_para_category;
use crate::para::str_string;
use crate::text::chars_slice;
use crate::text::chars_to_string;
use crate::text::join;
use crate::text::join_chars;
use crate::text::push_all;
use crate::text::runs;
use crate::text::space_pred;
use crate::text::split_runs_ws;
use crate::text::split_runs_slash;
use crate::text::str_chars;
use crate::text::str_eq;
use crate::text::vecs_view;
use crate::theme::get_default_styles;
use crate::theme::default_styles_spec;
use crate::wiki_links::components_spec;

verus! {

/// ASCII upper-casing for one character.
pub open spec fn upper_char_spec(c: char) -> char {
    if 'a' <= c && c <= 'z' {
        ((c as u8) - 32) as char
    } else {
        c
    }
}

/// Hyphens and underscores read as word separators.
pub open spec fn break_char_spec(c: char) -> char {
    if c == '-' || c == '_' {
        ' '
    } else {
        c
    }
}

/// A word with its first character upper-cased.
pub open spec fn capitalize_spec(w: Seq<char>) -> Seq<char> {
    if w.len() == 0 {
        w
    } else {
        seq![upper_char_spec(w[0])] + w.drop_first()
    }
}

/// Each word capitalized.
pub open spec fn caps_of(ws: Seq<Seq<char>>) -> Seq<Seq<char>> {
    ws.map_values(|w: Seq<char>| capitalize_spec(w))
}

/// A file name as a readable title: hyphens and underscores become
/// spaces, words are capitalized and joined by single spaces.
pub open spec fn humanize_spec(s: Seq<char>) -> Seq<char> {
    join(caps_of(runs(s.map_values(|c: char| break_char_spec(c)), space_pred())), ' ')
}

/// ASCII upper-casing matching `upper_char_spec`.
fn upper_char(c: char) -> (r: char)
    ensures
        r == upper_char_spec(c),
{
    if 'a' <= c && c <= 'z' {
        (((c as u8) - 32) as char)
    } else {
        c
    }
}

/// Convert a file name to a human-readable title.
pub fn humanize_filename(filename: &str) -> (r: String)
    ensures
        r@ == humanize_spec(filename@),
{
    let v = str_chars(filename);
    let mut m: Vec<char> = Vec::new();
    let mut i: usize = 0;
    while i < v.len()
        invariant
            i <= v@.len(),
            m@ == v@.map_values(|c: char| break_char_spec(c)).take(i as int),
        decreases v@.len() - i,
    {
        let c = v[i];
        if c == '-' || c == '_' {
            m.push(' ');
        } else {
            m.push(c);
        }
        i = i + 1;
        proof {
            assert(m@ =~= v@.map_values(|c: char| break_char_spec(c)).take(i as int));
        }
    }
    proof {
        let full = v@.map_values(|c: char| break_char_spec(c));
        assert(full.take(v@.len() as int) =~= full);
    }
    let words = split_runs_ws(&m);
    let ghost ws = vecs_view(words@);
    let mut caps: Vec<Vec<char>> = Vec::new();
    let mut j: usize = 0;
    proof {
        assert(vecs_view(caps@) =~~= caps_of(ws.take(0)));
    }
    while j < words.len()
        invariant
            j <= words@.len(),
            ws == vecs_view(words@),
            vecs_view(caps@) == caps_of(ws.take(j as int)),
        decreases words@.len() - j,
    {
        let w = &words[j];
        proof {
            assert(w@ == ws[j as int]);
        }
        let mut cw: Vec<char> = Vec::new();
        if w.len() > 0 {
            cw.push(upper_char(w[0]));
            let rest = chars_slice(w, 1, w.len());
            push_all(&mut cw, &rest);
            proof {
                assert(w@.subrange(1, w@.len() as int) =~= w@.drop_first());
                assert(cw@ =~= capitalize_spec(ws[j as int]));
            }
        } else {
            proof {
                assert(cw@ =~= capitalize_spec(ws[j as int]));
            }
        }
        let ghost pre = vecs_view(caps@);
        let ghost cwv = cw@;
        caps.push(cw);
        j = j + 1;
        proof {
            assert(vecs_view(caps@) =~~= pre.push(cwv));
            assert(ws.take(j as int).drop_last() =~= ws.take(j as int - 1));
            assert(caps_of(ws.take(j as int)).len() == j);
            assert forall|x: int| 0 <= x < j implies caps_of(ws.take(j as int))[x]
                == capitalize_spec(ws[x]) by {
                assert(ws.take(j as int)[x] == ws[x]);
            }
            assert(vecs_view(caps@) =~~= caps_of(ws.take(j as int)));
        }
    }
    proof {
        assert(ws.take(ws.len() as int) =~= ws);
    }
    let joined = join_chars(&caps, ' ');
    chars_to_string(&joined)
}

/// The heading a category page is shown under.
pub open spec fn category_title_spec(c: Seq<char>) -> Seq<char> {
    if c == "projects"@ {
        "Projects"@
    } else if c == "areas"@ {
        "Areas"@
    } else if c == "resources"@ {
        "Resources"@
    } else if c == "archives"@ {
        "Archives"@
    } else {
        c
    }
}

/// The human-readable title of a category.
pub fn category_title(category: &str) -> (r: String)
    ensures
        r@ == category_title_spec(category@),
{
    if str_eq(category, "projects") {
        str_string("Projects")
    } else if str_eq(category, "areas") {
        str_string("Areas")
    } else if str_eq(category, "resources") {
        str_string("Resources")
    } else if str_eq(category, "archives") {
        str_string("Archives")
    } else {
        str_string(category)
    }
}

/// The description shown under a category heading.
pub open spec fn category_description_spec(c: Seq<char>) -> Seq<char> {
    if c == "projects"@ {
        "Active projects with specific outcomes and deadlines"@
    } else if c == "areas"@ {
        "Ongoing responsibilities and areas of focus"@
    } else if c == "resources"@ {
        "Reference materials and information for future use"@
    } else if c == "archives"@ {
        "Inactive items from the other categories"@
    } else {
        Seq::empty()
    }
}

/// The description of a category.
pub fn category_description(category: &str) -> (r: String)
    ensures
        r@ == category_description_spec(category@),
{
    if str_eq(category, "projects") {
        str_string("Active projects with specific outcomes and deadlines")
    } else if str_eq(category, "areas") {
        str_string("Ongoing responsibilities and areas of focus")
    } else if str_eq(category, "resources") {
        str_string("Reference materials and information for future use")
    } else if str_eq(category, "archives") {
        str_string("Inactive items from the other categories")
    } else {
        proof {
            reveal_strlit("");
            assert(""@ =~= Seq::<char>::empty());
        }
        str_string("")
    }
}

/// One step of a breadcrumb trail.
pub struct BreadcrumbItem {
    /// The text shown.
    pub title: String,
    /// Where it links, if anywhere.
    pub url: Option<String>,
}

/// The view of one breadcrumb.
pub open spec fn crumb_view(b: BreadcrumbItem) -> (Seq<char>, Option<Seq<char>>) {
    (b.title@, b.url.deep_view())
}

/// The view of a breadcrumb trail.
pub open spec fn crumbs_view(bs: Seq<BreadcrumbItem>) -> Seq<(Seq<char>, Option<Seq<char>>)> {
    bs.map_values(|b: BreadcrumbItem| crumb_view(b))
}

/// The title a path component is shown under in a breadcrumb trail.
pub open spec fn crumb_title_spec(comp: Seq<char>) -> Seq<char> {
    if is_para_category_spec(comp) {
        category_title_spec(comp)
    } else {
        humanize_spec(comp)
    }
}

/// The breadcrumb trail of a document: home first, then one linked item
/// per directory of its relative path, and the document's own title last.
pub open spec fn breadcrumbs_spec(doc: Document, base_url: Seq<char>) -> Seq<
    (Seq<char>, Option<Seq<char>>),
> {
    let comps = components_spec(doc.relative_path@);
    seq![("Home"@, Some(base_url))] + Seq::new(
        comps.len(),
        |i: int|
            if i == comps.len() - 1 {
                (doc.title_spec(), None::<Seq<char>>)
            } else {
                (
                    crumb_title_spec(comps[i]),
                    Some(base_url + join(comps.take(i + 1), '/') + "/"@),
                )
            },
    )
}

/// Renders pages of the site. The writing of pages is the caller's
/// business; the generator carries what every page shares.
pub struct HtmlGenerator {
    /// Where rendered pages go.
    pub output_dir: String,
    /// The site-wide style sheet.
    pub styles: String,
    /// The title shown on every page.
    pub site_title: String,
    /// The base URL for absolute links.
    pub base_url: String,
    /// The blog settings for the comments widget.
    pub blog_config: BlogConfig,
}

impl HtmlGenerator {
    /// A generator for the given output directory, site title, base URL
    /// and blog settings, carrying the default styles.
    pub fn new(
        output_dir: String,
        site_title: String,
        base_url: String,
        blog_config: BlogConfig,
    ) -> (r: HtmlGenerator)
        ensures
            r.output_dir == output_dir,
            r.site_title == site_title,
            r.base_url == base_url,
            r.blog_config == blog_config,
            r.styles@ == default_styles_spec(),
    {
        HtmlGenerator { output_dir, styles: get_default_styles(), site_title, base_url, blog_config }
    }

    /// The breadcrumb trail for one document.
    pub fn generate_breadcrumbs_for_document(&self, doc: &Document) -> (r: Vec<BreadcrumbItem>)
        ensures
            crumbs_view(r@) == breadcrumbs_spec(*doc, self.base_url@),
    {
        let ghost goal = breadcrumbs_spec(*doc, self.base_url@);
        let mut r: Vec<BreadcrumbItem> = Vec::new();
        r.push(BreadcrumbItem { title: str_string("Home"), url: Some(self.base_url.clone()) });
        let path_chars = str_chars(doc.relative_path.as_str());
        let comps = split_runs_slash(&path_chars);
        let ghost cs = components_spec(doc.relative_path@);
        proof {
            assert(cs == vecs_view(comps@));
            assert(crumbs_view(r@) =~~= goal.take(1));
        }
        let n = comps.len();
        let mut i: usize = 0;
        let mut prefix = String::new();
        proof {
            assert(cs.take(0) =~= Seq::<Seq<char>>::empty());
            assert(prefix@ =~= join_prefix(cs, 0));
        }
        while i < n
            invariant
                i <= n,
                n == cs.len(),
                cs == vecs_view(comps@),
                cs == components_spec(doc.relative_path@),
                goal == breadcrumbs_spec(*doc, self.base_url@),
                crumbs_view(r@) == goal.take(i as int + 1),
                prefix@ == join_prefix(cs, i as int),
            decreases n - i,
        {
            let ghost old_prefix = prefix@;
            let comp = chars_to_string(&comps[i]);
            proof {
                assert(comp@ == cs[i as int]);
            }
            if i > 0 {
                prefix.append("/");
            }
            prefix.append(comp.as_str());
            proof {
                lemma_join_prefix_step(cs, i as int);
                reveal_strlit("/");
                assert("/"@ =~= seq!['/']);
                if i == 0 {
                    assert(prefix@ =~= cs[0]);
                } else {
                    assert(prefix@ =~= old_prefix + seq!['/'] + cs[i as int]);
                }
                assert(prefix@ == join_prefix(cs, i as int + 1));
            }
            let item: BreadcrumbItem = if i + 1 == n {
                BreadcrumbItem { title: doc.title(), url: None }
            } else {
                let title = if is_para_category(comp.as_str()) {
                    category_title(comp.as_str())
                } else {
                    humanize_filename(comp.as_str())
                };
                let mut url = self.base_url.clone();
                url.append(prefix.as_str());
                url.append("/");
                proof {
                    assert(url@ =~= self.base_url@ + join(cs.take(i as int + 1), '/') + "/"@);
                }
                BreadcrumbItem { title, url: Some(url) }
            };
            let ghost iv = crumb_view(item);
            let ghost pre_crumbs = crumbs_view(r@);
            r.push(item);
            i = i + 1;
            proof {
                assert(crumbs_view(r@) =~~= pre_crumbs.push(iv));
                assert(goal[i as int] == iv);
                assert(goal.take(i as int + 1) =~= goal.take(i as int).push(goal[i as int]));
                assert(crumbs_view(r@) =~~= goal.take(i as int + 1));
            }
        }
        proof {
            assert(goal.take(n as int + 1) =~= goal);
        }
        r
    }
}

/// The `/`-joined prefix of the first `i` components.
pub open spec fn join_prefix(cs: Seq<Seq<char>>, i: int) -> Seq<char> {
    join(cs.take(i), '/')
}

/// Extending the joined prefix by one component.
proof fn lemma_join_prefix_step(cs: Seq<Seq<char>>, i: int)
    requires
        0 <= i < cs.len(),
    ensures
        join_prefix(cs, i + 1) == if i == 0 {
            cs[0]
        } else {
            join_prefix(cs, i) + seq!['/'] + cs[i]
        },
{
    crate::text::lemma_join_push(cs.take(i), cs[i], '/');
    assert(cs.take(i + 1) =~= cs.take(i).push(cs[i]));
}

} // verus!
