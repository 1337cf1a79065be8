//! Frontmatter: splitting a document's leading `---` metadata block from
//! its body, and reading the block into a metadata record.

use vstd::prelude::*;
use vstd::string::StrSliceExecFns;
use vstd::string::StringExecFns;

use crate::document::DocumentMetadata;
use crate::error::ParaSsgError;
use crate::text::chars_slice;
use crate::text::chars_to_string;
use crate::text::find_sub;
use crate::text::first_occurrence;
use crate::text::starts_with_chars;
use crate::text::str_chars;
use crate::text::str_eq;
use crate::text::trim_chars;
use crate::text::trim_spec;
use crate::wiki_links::entries_view;
use crate::yaml::parse_rfc3339_epoch;
use crate::yaml::rfc3339_secs;
use crate::yaml::yaml_field;
use crate::yaml::yaml_list_field;
use crate::yaml::yaml_mapping_keys;
use crate::yaml::yaml_ok;
use crate::yaml::yaml_scan;
use crate::yaml::yaml_str_field;
use crate::yaml::yaml_str_list_field;
use crate::yaml::yaml_top_keys_of;

verus! {

/// Whether `s` begins with `p`.
pub open spec fn starts_with_seq(s: Seq<char>, p: Seq<char>) -> bool {
    s.len() >= p.len() && s.subrange(0, p.len() as int) == p
}

/// How a document splits at its frontmatter delimiters.
pub enum FmSplit {
    /// The text does not open with a frontmatter delimiter; the whole
    /// text is the body.
    NoFrontmatter,
    /// A frontmatter block was opened but never closed.
    Unclosed,
    /// A delimited block and the body after it.
    Block {
        /// The text between the delimiters.
        yaml: Seq<char>,
        /// The text after the closing delimiter.
        body: Seq<char>,
    },
}

/// Where the frontmatter block of `s` begins and ends: the text must
/// open with `---` on its own (LF or CRLF) line; the block runs to the
/// next `---` line, searched first with LF and then with CRLF endings,
/// with an immediately following delimiter making an empty block.
pub open spec fn split_frontmatter_spec(s: Seq<char>) -> FmSplit {
    if !(starts_with_seq(s, "---\n"@) || starts_with_seq(s, "---\r\n"@)) {
        FmSplit::NoFrontmatter
    } else {
        let rest = if starts_with_seq(s, "---\n"@) {
            s.skip(4)
        } else {
            s.skip(5)
        };
        if starts_with_seq(rest, "---\n"@) {
            FmSplit::Block { yaml: Seq::empty(), body: rest.skip(4) }
        } else if starts_with_seq(rest, "---\r\n"@) {
            FmSplit::Block { yaml: Seq::empty(), body: rest.skip(5) }
        } else if first_occurrence(rest, "\n---\n"@, 0) >= 0 {
            let p = first_occurrence(rest, "\n---\n"@, 0);
            FmSplit::Block { yaml: rest.take(p), body: rest.skip(p + 5) }
        } else if first_occurrence(rest, "\r\n---\r\n"@, 0) >= 0 {
            let p = first_occurrence(rest, "\r\n---\r\n"@, 0);
            FmSplit::Block { yaml: rest.take(p), body: rest.skip(p + 7) }
        } else {
            FmSplit::Unclosed
        }
    }
}

/// The start of the line position `x` belongs to: the position right
/// after the previous newline.
pub open spec fn line_begin(s: Seq<char>, x: int) -> int
    decreases x,
{
    if x <= 0 {
        0
    } else if s[x - 1] == '\n' {
        x
    } else {
        line_begin(s, x - 1)
    }
}

/// Whether position `x` holds a tab used as indentation: a tab preceded
/// on its line only by spaces.
pub open spec fn is_indent_tab_at(s: Seq<char>, x: int) -> bool {
    0 <= x < s.len() && s[x] == '\t' && (forall|y: int| line_begin(s, x) <= y < x ==> s[y] == ' ')
}

/// Whether any line of `s` is indented with a tab.
pub open spec fn has_tab_indent(s: Seq<char>) -> bool {
    exists|x: int| is_indent_tab_at(s, x)
}

/// Line starts lie between the text's start and the position itself.
proof fn lemma_line_begin_bounds(s: Seq<char>, x: int)
    requires
        x >= 0,
    ensures
        0 <= line_begin(s, x) <= x,
    decreases x,
{
    if x > 0 && s[x - 1] != '\n' {
        lemma_line_begin_bounds(s, x - 1);
    }
}

/// Scan for a tab used as indentation.
fn find_tab_indent(v: &Vec<char>) -> (r: bool)
    ensures
        r == has_tab_indent(v@),
{
    let mut i: usize = 0;
    let mut at_indent = true;
    while i < v.len()
        invariant
            i <= v@.len(),
            forall|x: int| 0 <= x < i ==> !is_indent_tab_at(v@, x),
            at_indent == (forall|y: int|
                line_begin(v@, i as int) <= y < i ==> #[trigger] v@[y] == ' '),
        decreases v@.len() - i,
    {
        let c = v[i];
        if c == '\t' && at_indent {
            proof {
                assert(is_indent_tab_at(v@, i as int));
            }
            return true;
        }
        proof {
            lemma_line_begin_bounds(v@, i as int);
            if c != '\n' {
                assert(line_begin(v@, i as int + 1) == line_begin(v@, i as int));
            } else {
                assert(line_begin(v@, i as int + 1) == i + 1);
            }
            assert(!is_indent_tab_at(v@, i as int));
            if c != '\n' && c != ' ' {
                assert(line_begin(v@, i as int + 1) <= i < i + 1 && v@[i as int] != ' ');
            }
            if c == ' ' && at_indent {
                assert forall|y: int|
                    line_begin(v@, i as int + 1) <= y < i + 1 implies #[trigger] v@[y] == ' ' by {}
            }
        }
        if c == '\n' {
            at_indent = true;
        } else if c != ' ' {
            at_indent = false;
        }
        i = i + 1;
    }
    proof {
        assert forall|x: int| !is_indent_tab_at(v@, x) by {
            if 0 <= x < v@.len() {
            }
        }
    }
    false
}

/// A frontmatter key read into a named metadata field.
pub open spec fn is_known_key(k: Seq<char>) -> bool {
    k == "title"@ || k == "description"@ || k == "tags"@ || k == "created"@ || k == "modified"@
        || k == "date"@ || k == "status"@ || k == "category"@ || k == "author"@
}

/// The passthrough entries of a block: its top-level keys that are not
/// named metadata fields, in document order, each with its string value
/// (or an empty value when the value there is not a string).
pub open spec fn custom_entries_spec(keys: Seq<Seq<char>>, yaml: Seq<char>) -> Seq<
    (Seq<char>, Seq<char>),
>
    decreases keys.len(),
{
    if keys.len() == 0 {
        Seq::empty()
    } else {
        (if is_known_key(keys[0]) {
            Seq::empty()
        } else {
            seq![
                (
                    keys[0],
                    match yaml_field(yaml, keys[0]) {
                        Some(v) => v,
                        None => Seq::empty(),
                    },
                ),
            ]
        }) + custom_entries_spec(keys.drop_first(), yaml)
    }
}

/// The timestamp a date-valued field denotes.
pub open spec fn date_field_spec(yaml: Seq<char>, key: Seq<char>) -> Option<i64> {
    match yaml_field(yaml, key) {
        Some(d) => rfc3339_secs(d),
        None => None,
    }
}

/// How a metadata record relates to the block it was read from, whose
/// top-level keys are `keys`.
pub open spec fn metadata_matches(md: DocumentMetadata, yaml: Seq<char>, keys: Seq<Seq<char>>) -> bool {
    md.title.deep_view() == yaml_field(yaml, "title"@) && md.description.deep_view() == yaml_field(
        yaml,
        "description"@,
    ) && md.status.deep_view() == yaml_field(yaml, "status"@) && md.category.deep_view()
        == yaml_field(yaml, "category"@) && md.author.deep_view() == yaml_field(yaml, "author"@)
        && md.tags.deep_view() == (match yaml_list_field(yaml, "tags"@) {
        Some(l) => l,
        None => Seq::empty(),
    }) && md.created == date_field_spec(yaml, "created"@) && md.modified == date_field_spec(
        yaml,
        "modified"@,
    ) && md.date == date_field_spec(yaml, "date"@) && entries_view(md.custom@)
        == custom_entries_spec(keys, yaml)
}

/// Whether a key is read into a named metadata field.
fn is_known_key_exec(k: &str) -> (r: bool)
    ensures
        r == is_known_key(k@),
{
    str_eq(k, "title") || str_eq(k, "description") || str_eq(k, "tags") || str_eq(k, "created")
        || str_eq(k, "modified") || str_eq(k, "date") || str_eq(k, "status") || str_eq(
        k,
        "category",
    ) || str_eq(k, "author")
}

/// Read the metadata record out of a well-formed block with the given
/// top-level keys.
fn metadata_from_block(yaml: &str, keys: &Vec<String>) -> (md: DocumentMetadata)
    ensures
        metadata_matches(md, yaml@, keys.deep_view()),
{
    let title = yaml_str_field(yaml, "title");
    let description = yaml_str_field(yaml, "description");
    let status = yaml_str_field(yaml, "status");
    let category = yaml_str_field(yaml, "category");
    let author = yaml_str_field(yaml, "author");
    let tags = match yaml_str_list_field(yaml, "tags") {
        Some(l) => l,
        None => Vec::new(),
    };
    proof {
        if yaml_list_field(yaml@, "tags"@) is None {
            assert(tags.deep_view() =~= Seq::<Seq<char>>::empty());
        }
    }
    let created = match yaml_str_field(yaml, "created") {
        Some(d) => parse_rfc3339_epoch(d.as_str()),
        None => None,
    };
    let modified = match yaml_str_field(yaml, "modified") {
        Some(d) => parse_rfc3339_epoch(d.as_str()),
        None => None,
    };
    let date = match yaml_str_field(yaml, "date") {
        Some(d) => parse_rfc3339_epoch(d.as_str()),
        None => None,
    };
    let mut custom: Vec<(String, String)> = Vec::new();
    let mut i: usize = 0;
    proof {
        assert(keys.deep_view().skip(0) =~= keys.deep_view());
        assert(entries_view(custom@) + custom_entries_spec(keys.deep_view(), yaml@)
            =~= custom_entries_spec(keys.deep_view(), yaml@));
    }
    while i < keys.len()
        invariant
            i <= keys@.len(),
            entries_view(custom@) + custom_entries_spec(keys.deep_view().skip(i as int), yaml@)
                == custom_entries_spec(keys.deep_view(), yaml@),
        decreases keys@.len() - i,
    {
        let ghost pre = entries_view(custom@);
        proof {
            assert(keys.deep_view().skip(i as int)[0] == keys.deep_view()[i as int]);
            assert(keys.deep_view()[i as int] == keys@[i as int]@);
            assert(keys.deep_view().skip(i as int).drop_first() =~= keys.deep_view().skip(
                i as int + 1,
            ));
        }
        if !is_known_key_exec(keys[i].as_str()) {
            let value = match yaml_str_field(yaml, keys[i].as_str()) {
                Some(v) => v,
                None => String::new(),
            };
            let ghost vv = value@;
            custom.push((keys[i].clone(), value));
            proof {
                assert(entries_view(custom@) =~= pre + seq![(keys@[i as int]@, vv)]);
            }
        }
        i = i + 1;
        proof {
            assert(entries_view(custom@) + custom_entries_spec(
                keys.deep_view().skip(i as int),
                yaml@,
            ) =~= custom_entries_spec(keys.deep_view(), yaml@));
        }
    }
    proof {
        assert(keys.deep_view().skip(keys@.len() as int) =~= Seq::<Seq<char>>::empty());
        assert(entries_view(custom@) =~= custom_entries_spec(keys.deep_view(), yaml@));
    }
    DocumentMetadata {
        title,
        description,
        tags,
        created,
        modified,
        date,
        status,
        category,
        author,
        custom,
    }
}

/// The three date-valued fields parse as RFC 3339 timestamps when they
/// are present.
pub open spec fn dates_ok(yaml: Seq<char>) -> bool {
    (match yaml_field(yaml, "created"@) {
        Some(d) => rfc3339_secs(d) is Some,
        None => true,
    }) && (match yaml_field(yaml, "modified"@) {
        Some(d) => rfc3339_secs(d) is Some,
        None => true,
    }) && (match yaml_field(yaml, "date"@) {
        Some(d) => rfc3339_secs(d) is Some,
        None => true,
    })
}

/// Whether a non-empty frontmatter block is accepted: free of tab
/// indentation, well-formed YAML, a mapping at the top level, and its
/// date fields valid.
pub open spec fn block_ok(yaml: Seq<char>) -> bool {
    !has_tab_indent(yaml) && yaml_ok(yaml) && yaml_top_keys_of(yaml) is Some && dates_ok(yaml)
}

/// The error a rejected non-empty block carries: always a parse error,
/// with an exact message for tab indentation, a non-mapping document and
/// an invalid date, and a fixed prefix before the YAML parser's own
/// message.
pub open spec fn block_error_matches(yaml: Seq<char>, e: ParaSsgError) -> bool {
    if has_tab_indent(yaml) {
        match e {
            ParaSsgError::ParseError(m) => m@
                == "Failed to parse YAML frontmatter: Tab characters are not allowed for indentation"@,
            _ => false,
        }
    } else if !yaml_ok(yaml) {
        match e {
            ParaSsgError::ParseError(m) => starts_with_seq(
                m@,
                "Failed to parse YAML frontmatter: "@,
            ),
            _ => false,
        }
    } else {
        match yaml_top_keys_of(yaml) {
            None => match e {
                ParaSsgError::ParseError(m) => m@
                    == "Failed to parse YAML frontmatter: expected a mapping at the top level"@,
                _ => false,
            },
            Some(keys) => !dates_ok(yaml) && (match e {
                ParaSsgError::ParseError(m) => m@
                    == "Failed to parse YAML frontmatter: invalid date value"@,
                _ => false,
            }),
        }
    }
}

/// The error a text that fails to parse carries: the fixed message for
/// an unclosed block, and the block's own error otherwise.
pub open spec fn parse_error_matches(content: Seq<char>, e: ParaSsgError) -> bool {
    match split_frontmatter_spec(content) {
        FmSplit::NoFrontmatter => false,
        FmSplit::Unclosed => match e {
            ParaSsgError::ParseError(m) => m@
                == "Frontmatter starting delimiter found but no closing delimiter"@,
            _ => false,
        },
        FmSplit::Block { yaml, body } => trim_spec(yaml).len() > 0 && block_error_matches(yaml, e),
    }
}

/// What parsing owes for a delimited block `yaml` followed by `body`: an
/// effectively empty block gives default metadata; a rejected block
/// gives the parse error `block_error_matches` describes; otherwise the
/// metadata is read from the block and the body is handed back.
pub open spec fn parsed_block_ok(
    yaml: Seq<char>,
    body: Seq<char>,
    r: Result<(DocumentMetadata, String), ParaSsgError>,
) -> bool {
    if trim_spec(yaml).len() == 0 {
        match r {
            Ok((md, b)) => md.is_default_spec() && b@ == body,
            Err(_) => false,
        }
    } else if !block_ok(yaml) {
        match r {
            Ok(_) => false,
            Err(e) => block_error_matches(yaml, e),
        }
    } else {
        match yaml_top_keys_of(yaml) {
            None => false,
            Some(keys) => match r {
                Ok((md, b)) => metadata_matches(md, yaml, keys) && b@ == body,
                Err(_) => false,
            },
        }
    }
}

/// Handle the text between the delimiters, and the body after them.
fn parse_block(yaml_chars: &Vec<char>, body_chars: &Vec<char>) -> (r: Result<
    (DocumentMetadata, String),
    ParaSsgError,
>)
    ensures
        parsed_block_ok(yaml_chars@, body_chars@, r),
{
    let trimmed = trim_chars(yaml_chars);
    if trimmed.len() == 0 {
        return Ok((DocumentMetadata::new(), chars_to_string(body_chars)));
    }
    if find_tab_indent(yaml_chars) {
        let mut m = String::new();
        m.append("Failed to parse YAML frontmatter: Tab characters are not allowed for indentation");
        proof {
            assert(m@
                =~= "Failed to parse YAML frontmatter: Tab characters are not allowed for indentation"@);
        }
        return Err(ParaSsgError::ParseError(m));
    }
    let yaml_s = chars_to_string(yaml_chars);
    match yaml_scan(yaml_s.as_str()) {
        Err(e) => {
            let mut m = String::new();
            m.append("Failed to parse YAML frontmatter: ");
            m.append(e.as_str());
            proof {
                assert(m@.subrange(0, "Failed to parse YAML frontmatter: "@.len() as int)
                    =~= "Failed to parse YAML frontmatter: "@);
            }
            Err(ParaSsgError::ParseError(m))
        },
        Ok(()) => {
            match yaml_mapping_keys(yaml_s.as_str()) {
                None => {
                    let mut m = String::new();
                    m.append("Failed to parse YAML frontmatter: expected a mapping at the top level");
                    proof {
                        assert(m@
                            =~= "Failed to parse YAML frontmatter: expected a mapping at the top level"@);
                    }
                    Err(ParaSsgError::ParseError(m))
                },
                Some(keys) => {
                    if !dates_valid(yaml_s.as_str()) {
                        let mut m = String::new();
                        m.append("Failed to parse YAML frontmatter: invalid date value");
                        proof {
                            assert(m@
                                =~= "Failed to parse YAML frontmatter: invalid date value"@);
                        }
                        return Err(ParaSsgError::ParseError(m));
                    }
                    let md = metadata_from_block(yaml_s.as_str(), &keys);
                    Ok((md, chars_to_string(body_chars)))
                },
            }
        },
    }
}

/// Check that the date-valued fields of a block, where present, parse as
/// RFC 3339 timestamps.
fn dates_valid(yaml: &str) -> (r: bool)
    ensures
        r == dates_ok(yaml@),
{
    let created_ok = match yaml_str_field(yaml, "created") {
        Some(d) => parse_rfc3339_epoch(d.as_str()).is_some(),
        None => true,
    };
    let modified_ok = match yaml_str_field(yaml, "modified") {
        Some(d) => parse_rfc3339_epoch(d.as_str()).is_some(),
        None => true,
    };
    let date_ok = match yaml_str_field(yaml, "date") {
        Some(d) => parse_rfc3339_epoch(d.as_str()).is_some(),
        None => true,
    };
    created_ok && modified_ok && date_ok
}

/// Split the frontmatter block from the body and read it into a metadata
/// record. Text without a leading delimiter is handed back unchanged with
/// default metadata; a block that is opened but never closed, indented
/// with tabs, or rejected by the YAML parser fails this document.
pub fn parse_frontmatter(content: &str) -> (r: Result<(DocumentMetadata, String), ParaSsgError>)
    ensures
        match split_frontmatter_spec(content@) {
            FmSplit::NoFrontmatter => match r {
                Ok((md, b)) => md.is_default_spec() && b@ == content@,
                Err(_) => false,
            },
            FmSplit::Unclosed => match r {
                Ok(_) => false,
                Err(e) => match e {
                    ParaSsgError::ParseError(m) => m@
                        == "Frontmatter starting delimiter found but no closing delimiter"@,
                    _ => false,
                },
            },
            FmSplit::Block { yaml, body } => parsed_block_ok(yaml, body, r),
        },
{
    let v = str_chars(content);
    let lf = starts_with_chars(&v, "---\n");
    let crlf = starts_with_chars(&v, "---\r\n");
    if !lf && !crlf {
        return Ok((DocumentMetadata::new(), content.to_owned()));
    }
    proof {
        reveal_strlit("---\n");
        reveal_strlit("---\r\n");
        assert("---\n"@.len() == 4);
        assert("---\r\n"@.len() == 5);
    }
    let open: usize = if lf {
        4
    } else {
        5
    };
    let rest = chars_slice(&v, open, v.len());
    proof {
        assert(rest@ =~= v@.skip(open as int));
    }
    if starts_with_chars(&rest, "---\n") {
        let body = chars_slice(&rest, 4, rest.len());
        proof {
            assert(body@ =~= rest@.skip(4));
            assert(trim_spec(Seq::<char>::empty()).len() == 0);
        }
        return parse_block(&Vec::new(), &body);
    }
    if starts_with_chars(&rest, "---\r\n") {
        let body = chars_slice(&rest, 5, rest.len());
        proof {
            assert(body@ =~= rest@.skip(5));
        }
        return parse_block(&Vec::new(), &body);
    }
    let pat_lf = str_chars("\n---\n");
    proof {
        reveal_strlit("\n---\n");
        assert("\n---\n"@.len() == 5);
    }
    match find_sub(&rest, &pat_lf, 0) {
        Some(p) => {
            let yaml = chars_slice(&rest, 0, p);
            let body = chars_slice(&rest, p + 5, rest.len());
            proof {
                assert(yaml@ =~= rest@.take(p as int));
                assert(body@ =~= rest@.skip(p as int + 5));
            }
            parse_block(&yaml, &body)
        },
        None => {
            let pat_crlf = str_chars("\r\n---\r\n");
            proof {
                reveal_strlit("\r\n---\r\n");
                assert("\r\n---\r\n"@.len() == 7);
            }
            match find_sub(&rest, &pat_crlf, 0) {
                Some(p) => {
                    let yaml = chars_slice(&rest, 0, p);
                    let body = chars_slice(&rest, p + 7, rest.len());
                    proof {
                        assert(yaml@ =~= rest@.take(p as int));
                        assert(body@ =~= rest@.skip(p as int + 7));
                    }
                    parse_block(&yaml, &body)
                },
                None => {
                    let mut m = String::new();
                    m.append("Frontmatter starting delimiter found but no closing delimiter");
                    proof {
                        assert(m@
                            =~= "Frontmatter starting delimiter found but no closing delimiter"@);
                    }
                    Err(ParaSsgError::ParseError(m))
                },
            }
        },
    }
}

/// The frontmatter block of a text: what stands between the opening
/// delimiter and the next `---` line (searched with LF endings first,
/// then CRLF). A text whose block is opened right before another
/// delimiter, left unclosed, or absent has none.
pub open spec fn extract_frontmatter_spec(s: Seq<char>) -> Option<Seq<char>> {
    if !(starts_with_seq(s, "---\n"@) || starts_with_seq(s, "---\r\n"@)) {
        None
    } else {
        let rest = if starts_with_seq(s, "---\n"@) {
            s.skip(4)
        } else {
            s.skip(5)
        };
        if first_occurrence(rest, "\n---\n"@, 0) >= 0 {
            Some(rest.take(first_occurrence(rest, "\n---\n"@, 0)))
        } else if first_occurrence(rest, "\r\n---\r\n"@, 0) >= 0 {
            Some(rest.take(first_occurrence(rest, "\r\n---\r\n"@, 0)))
        } else {
            None
        }
    }
}

/// Extract just the frontmatter text, if a closed block is present.
pub fn extract_frontmatter(content: &str) -> (r: Option<String>)
    ensures
        r.deep_view() == extract_frontmatter_spec(content@),
{
    let v = str_chars(content);
    let lf = starts_with_chars(&v, "---\n");
    let crlf = starts_with_chars(&v, "---\r\n");
    if !lf && !crlf {
        return None;
    }
    proof {
        reveal_strlit("---\n");
        reveal_strlit("---\r\n");
        assert("---\n"@.len() == 4);
        assert("---\r\n"@.len() == 5);
    }
    let open: usize = if lf {
        4
    } else {
        5
    };
    let rest = chars_slice(&v, open, v.len());
    proof {
        assert(rest@ =~= v@.skip(open as int));
    }
    let pat_lf = str_chars("\n---\n");
    proof {
        reveal_strlit("\n---\n");
        assert("\n---\n"@.len() == 5);
    }
    match find_sub(&rest, &pat_lf, 0) {
        Some(p) => {
            let yaml = chars_slice(&rest, 0, p);
            proof {
                assert(yaml@ =~= rest@.take(p as int));
            }
            Some(chars_to_string(&yaml))
        },
        None => {
            let pat_crlf = str_chars("\r\n---\r\n");
            proof {
                reveal_strlit("\r\n---\r\n");
                assert("\r\n---\r\n"@.len() == 7);
            }
            match find_sub(&rest, &pat_crlf, 0) {
                Some(p) => {
                    let yaml = chars_slice(&rest, 0, p);
                    proof {
                        assert(yaml@ =~= rest@.take(p as int));
                    }
                    Some(chars_to_string(&yaml))
                },
                None => None,
            }
        },
    }
}

} // verus!
