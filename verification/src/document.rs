//! Documents: the parsed form of one markdown file, its metadata record,
//! and the backlink references attached to it.

use vstd::prelude::*;
use vstd::string::StringExecFns;

use crate::fsinfo::file_stem_spec;
use crate::fsinfo::file_stem_of;
use crate::fsinfo::path_no_ext_spec;
use crate::fsinfo::path_no_ext_of;
use crate::text::str_eq;
use crate::wiki_links::ResolvedLink;

verus! {

/// Metadata read from a document's frontmatter. Timestamps are held as
/// seconds since the Unix epoch.
#[derive(Debug)]
pub struct DocumentMetadata {
    /// Document title.
    pub title: Option<String>,
    /// Document description or summary.
    pub description: Option<String>,
    /// Tags for categorization.
    pub tags: Vec<String>,
    /// Creation time.
    pub created: Option<i64>,
    /// Last modification time.
    pub modified: Option<i64>,
    /// Publication time, when different from the creation time.
    pub date: Option<i64>,
    /// Document status (`draft`, `published`, ...).
    pub status: Option<String>,
    /// Category override, when different from the path-derived one.
    pub category: Option<String>,
    /// Author information.
    pub author: Option<String>,
    /// Frontmatter keys not captured above, with their scalar values
    /// (non-scalar values are kept with an empty value).
    pub custom: Vec<(String, String)>,
}

impl DocumentMetadata {
    /// The record with nothing set.
    pub open spec fn is_default_spec(&self) -> bool {
        self.title is None && self.description is None && self.tags@.len() == 0 && self.created
            is None && self.modified is None && self.date is None && self.status is None
            && self.category is None && self.author is None && self.custom@.len() == 0
    }

    /// An empty metadata record.
    pub fn new() -> (r: DocumentMetadata)
        ensures
            r.is_default_spec(),
    {
        DocumentMetadata {
            title: None,
            description: None,
            tags: Vec::new(),
            created: None,
            modified: None,
            date: None,
            status: None,
            category: None,
            author: None,
            custom: Vec::new(),
        }
    }

    /// The value stored for a passthrough key, if any.
    pub fn custom_get(&self, key: &str) -> (r: Option<&String>)
        ensures
            match r {
                Some(v) => exists|i: int|
                    0 <= i < self.custom@.len() && (#[trigger] self.custom@[i]).0@ == key@
                        && self.custom@[i].1 == v,
                None => forall|i: int|
                    0 <= i < self.custom@.len() ==> (#[trigger] self.custom@[i]).0@ != key@,
            },
    {
        let mut i: usize = 0;
        while i < self.custom.len()
            invariant
                i <= self.custom@.len(),
                forall|j: int| 0 <= j < i ==> (#[trigger] self.custom@[j]).0@ != key@,
            decreases self.custom@.len() - i,
        {
            if str_eq(self.custom[i].0.as_str(), key) {
                return Some(&self.custom[i].1);
            }
            i = i + 1;
        }
        None
    }

    /// Whether a passthrough key is present.
    pub fn custom_contains_key(&self, key: &str) -> (r: bool)
        ensures
            r == exists|i: int|
                0 <= i < self.custom@.len() && (#[trigger] self.custom@[i]).0@ == key@,
    {
        match self.custom_get(key) {
            Some(_) => true,
            None => false,
        }
    }
}

impl Default for DocumentMetadata {
    /// An empty metadata record.
    fn default() -> (r: DocumentMetadata)
        ensures
            r.is_default_spec(),
    {
        DocumentMetadata::new()
    }
}

/// An inbound reference attached to a document: who links here, and a
/// short excerpt of the text around the link.
#[derive(Debug)]
pub struct BacklinkReference {
    /// Relative path of the document the link appears in.
    pub source_path: String,
    /// Title of that document, as it stood when the index was built.
    pub source_title: String,
    /// Text around the link in the source document, when the link's
    /// literal text could be found there.
    pub link_context: Option<String>,
}

/// The output path of a document: its relative path with the extension
/// swapped for `html`.
pub open spec fn output_path_spec(relative_path: Seq<char>) -> Seq<char> {
    path_no_ext_spec(relative_path) + ".html"@
}

/// One parsed markdown document.
#[derive(Debug)]
pub struct Document {
    /// Path to the source file.
    pub source_path: String,
    /// Path relative to the input root.
    pub relative_path: String,
    /// Output path of the rendered page.
    pub output_path: String,
    /// Metadata from the frontmatter.
    pub metadata: DocumentMetadata,
    /// Markdown content, frontmatter removed.
    pub raw_content: String,
    /// Rendered HTML content.
    pub html_content: String,
    /// PARA category detected from the path.
    pub category: String,
    /// Outgoing wiki links, after resolution.
    pub wiki_links: Vec<ResolvedLink>,
    /// Inbound references, sorted by source title.
    pub backlinks: Vec<BacklinkReference>,
}

impl Document {
    /// A fresh document for the given paths and category; its output path
    /// is the relative path with the extension swapped for `html`.
    pub fn new(source_path: String, relative_path: String, category: String) -> (r: Document)
        ensures
            r.source_path == source_path,
            r.relative_path == relative_path,
            r.category == category,
            r.output_path@ == output_path_spec(relative_path@),
            r.metadata.is_default_spec(),
            r.raw_content@.len() == 0,
            r.html_content@.len() == 0,
            r.wiki_links@.len() == 0,
            r.backlinks@.len() == 0,
    {
        let mut output_path = path_no_ext_of(relative_path.as_str());
        output_path.append(".html");
        Document {
            source_path,
            relative_path,
            output_path,
            metadata: DocumentMetadata::new(),
            raw_content: String::new(),
            html_content: String::new(),
            category,
            wiki_links: Vec::new(),
            backlinks: Vec::new(),
        }
    }

    /// The title a document is shown under: the frontmatter title when
    /// given, else the file stem, else `Untitled` for a stem-less path.
    pub open spec fn title_spec(&self) -> Seq<char> {
        match self.metadata.title {
            Some(t) => t@,
            None => {
                if file_stem_spec(self.relative_path@).len() == 0 {
                    "Untitled"@
                } else {
                    file_stem_spec(self.relative_path@)
                }
            },
        }
    }

    /// The document's title, falling back to the file stem.
    pub fn title(&self) -> (r: String)
        ensures
            r@ == self.title_spec(),
    {
        match &self.metadata.title {
            Some(t) => t.clone(),
            None => {
                let stem = file_stem_of(self.relative_path.as_str());
                if stem.as_str().is_empty() {
                    let mut r = String::new();
                    r.append("Untitled");
                    r
                } else {
                    stem
                }
            },
        }
    }

    /// The category listings place the document under: the metadata
    /// override when given, else the path-derived category.
    pub open spec fn effective_category_spec(&self) -> Seq<char> {
        match self.metadata.category {
            Some(c) => c@,
            None => self.category@,
        }
    }

    /// The document's effective category.
    pub fn effective_category(&self) -> (r: String)
        ensures
            r@ == self.effective_category_spec(),
    {
        match &self.metadata.category {
            Some(c) => c.clone(),
            None => self.category.clone(),
        }
    }

    /// Whether the document is a draft.
    pub open spec fn is_draft_spec(&self) -> bool {
        match self.metadata.status {
            Some(s) => s@ == "draft"@,
            None => false,
        }
    }

    /// Whether the document's status marks it as a draft.
    pub fn is_draft(&self) -> (r: bool)
        ensures
            r == self.is_draft_spec(),
    {
        match &self.metadata.status {
            Some(s) => str_eq(s.as_str(), "draft"),
            None => false,
        }
    }

    /// The most relevant time: publication, else modification, else
    /// creation.
    pub open spec fn date_spec(&self) -> Option<i64> {
        if self.metadata.date is Some {
            self.metadata.date
        } else if self.metadata.modified is Some {
            self.metadata.modified
        } else {
            self.metadata.created
        }
    }

    /// The document's most relevant date.
    pub fn date(&self) -> (r: Option<i64>)
        ensures
            r == self.date_spec(),
    {
        match self.metadata.date {
            Some(d) => Some(d),
            None => match self.metadata.modified {
                Some(m) => Some(m),
                None => self.metadata.created,
            },
        }
    }
}

} // verus!
