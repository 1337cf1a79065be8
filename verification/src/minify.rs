//! CSS and JavaScript minification: comments dropped, whitespace kept
//! only where removing it would join two tokens.

use vstd::prelude::*;

use crate::text::chars_to_string;
use crate::text::is_space;
use crate::text::is_space_spec;
use crate::text::str_chars;

verus! {

/// CSS punctuation around which whitespace is never needed.
pub open spec fn css_sep_spec(c: char) -> bool {
    c == '{' || c == '}' || c == ';' || c == ':' || c == ',' || c == '>' || c == '+' || c == '~'
        || c == '(' || c == ')'
}

/// CSS punctuation test matching `css_sep_spec`.
fn css_sep(c: char) -> (r: bool)
    ensures
        r == css_sep_spec(c),
{
    c == '{' || c == '}' || c == ';' || c == ':' || c == ',' || c == '>' || c == '+' || c == '~'
        || c == '(' || c == ')'
}

/// What CSS minification emits from position `i` on, given whether the
/// scan is inside a comment and the character last emitted: comments are
/// dropped, and a whitespace run becomes one space only between two
/// characters that are neither whitespace nor punctuation.
pub open spec fn minify_css_from(s: Seq<char>, i: int, in_comment: bool, last: char) -> Seq<char>
    decreases s.len() - i,
{
    if i < 0 || i >= s.len() {
        Seq::empty()
    } else if in_comment {
        if s[i] == '*' && i + 1 < s.len() && s[i + 1] == '/' {
            minify_css_from(s, i + 2, false, last)
        } else {
            minify_css_from(s, i + 1, true, last)
        }
    } else if s[i] == '/' && i + 1 < s.len() && s[i + 1] == '*' {
        minify_css_from(s, i + 2, true, last)
    } else if is_space_spec(s[i]) {
        if !is_space_spec(last) && !css_sep_spec(last) && i + 1 < s.len() && !css_sep_spec(
            s[i + 1],
        ) {
            seq![' '] + minify_css_from(s, i + 1, false, ' ')
        } else {
            minify_css_from(s, i + 1, false, last)
        }
    } else {
        seq![s[i]] + minify_css_from(s, i + 1, false, s[i])
    }
}

/// The minified form of a style sheet.
pub open spec fn minify_css_spec(s: Seq<char>) -> Seq<char> {
    minify_css_from(s, 0, false, ' ')
}

/// Minify CSS by removing comments and unnecessary whitespace.
pub fn minify_css(css: &str) -> (r: String)
    ensures
        r@ == minify_css_spec(css@),
{
    let v = str_chars(css);
    let mut out: Vec<char> = Vec::new();
    let mut in_comment = false;
    let mut last: char = ' ';
    let mut i: usize = 0;
    proof {
        assert(out@ + minify_css_from(v@, 0, false, ' ') =~= minify_css_spec(css@));
    }
    while i < v.len()
        invariant
            i <= v@.len(),
            v@ == css@,
            out@ + minify_css_from(v@, i as int, in_comment, last) == minify_css_spec(css@),
        decreases v@.len() - i,
    {
        let ghost pre = out@;
        let c = v[i];
        if in_comment {
            if c == '*' && i + 1 < v.len() && v[i + 1] == '/' {
                in_comment = false;
                i = i + 2;
            } else {
                i = i + 1;
            }
        } else if c == '/' && i + 1 < v.len() && v[i + 1] == '*' {
            in_comment = true;
            i = i + 2;
        } else if is_space(c) {
            if !is_space(last) && !css_sep(last) && i + 1 < v.len() && !css_sep(v[i + 1]) {
                out.push(' ');
                last = ' ';
                proof {
                    assert(out@ =~= pre + seq![' ']);
                }
            }
            i = i + 1;
        } else {
            out.push(c);
            last = c;
            i = i + 1;
            proof {
                assert(out@ =~= pre + seq![v@[i - 1]]);
            }
        }
    }
    chars_to_string(&out)
}

/// Identifier characters, between which whitespace must be kept.
pub open spec fn is_identifier_char_spec(c: char) -> bool {
    ('a' <= c && c <= 'z') || ('A' <= c && c <= 'Z') || ('0' <= c && c <= '9') || c == '_' || c
        == '$'
}

/// Whether a character can be part of an identifier.
pub fn is_identifier_char(c: char) -> (r: bool)
    ensures
        r == is_identifier_char_spec(c),
{
    ('a' <= c && c <= 'z') || ('A' <= c && c <= 'Z') || ('0' <= c && c <= '9') || c == '_' || c
        == '$'
}

/// What JavaScript minification emits from position `i` on: string
/// literals are kept verbatim (escapes included), line and block comments
/// are dropped (a line comment keeps its newline), and a whitespace run
/// becomes one space only between two identifier characters.
pub open spec fn minify_js_from(
    s: Seq<char>,
    i: int,
    in_string: bool,
    delim: char,
    in_single: bool,
    in_multi: bool,
    escape: bool,
    last: char,
) -> Seq<char>
    decreases s.len() - i,
{
    if i < 0 || i >= s.len() {
        Seq::empty()
    } else {
        let c = s[i];
        if escape {
            seq![c] + minify_js_from(s, i + 1, in_string, delim, in_single, in_multi, false, c)
        } else if in_string {
            if c == '\\' {
                seq![c] + minify_js_from(s, i + 1, true, delim, in_single, in_multi, true, c)
            } else if c == delim {
                seq![c] + minify_js_from(s, i + 1, false, delim, in_single, in_multi, false, c)
            } else {
                seq![c] + minify_js_from(s, i + 1, true, delim, in_single, in_multi, false, c)
            }
        } else if in_single {
            if c == '\n' {
                seq!['\n'] + minify_js_from(s, i + 1, false, delim, false, in_multi, false, '\n')
            } else {
                minify_js_from(s, i + 1, false, delim, true, in_multi, false, last)
            }
        } else if in_multi {
            if c == '*' && i + 1 < s.len() && s[i + 1] == '/' {
                minify_js_from(s, i + 2, false, delim, false, false, false, last)
            } else {
                minify_js_from(s, i + 1, false, delim, false, true, false, last)
            }
        } else if c == '"' || c == '\'' {
            seq![c] + minify_js_from(s, i + 1, true, c, false, false, false, c)
        } else if c == '/' && i + 1 < s.len() && s[i + 1] == '/' {
            minify_js_from(s, i + 2, false, delim, true, false, false, last)
        } else if c == '/' && i + 1 < s.len() && s[i + 1] == '*' {
            minify_js_from(s, i + 2, false, delim, false, true, false, last)
        } else if is_space_spec(c) {
            if !is_space_spec(last) && is_identifier_char_spec(last) && i + 1 < s.len()
                && is_identifier_char_spec(s[i + 1]) {
                seq![' '] + minify_js_from(s, i + 1, false, delim, false, false, false, ' ')
            } else {
                minify_js_from(s, i + 1, false, delim, false, false, false, last)
            }
        } else {
            seq![c] + minify_js_from(s, i + 1, false, delim, false, false, false, c)
        }
    }
}

/// The minified form of a script.
pub open spec fn minify_js_spec(s: Seq<char>) -> Seq<char> {
    minify_js_from(s, 0, false, '"', false, false, false, ' ')
}

/// Minify JavaScript by removing comments and unnecessary whitespace,
/// keeping string literals intact.
pub fn minify_js(js: &str) -> (r: String)
    ensures
        r@ == minify_js_spec(js@),
{
    let v = str_chars(js);
    let mut out: Vec<char> = Vec::new();
    let mut in_string = false;
    let mut delim: char = '"';
    let mut in_single = false;
    let mut in_multi = false;
    let mut escape = false;
    let mut last: char = ' ';
    let mut i: usize = 0;
    proof {
        assert(out@ + minify_js_spec(js@) =~= minify_js_spec(js@));
    }
    while i < v.len()
        invariant
            i <= v@.len(),
            v@ == js@,
            out@ + minify_js_from(v@, i as int, in_string, delim, in_single, in_multi, escape, last)
                == minify_js_spec(js@),
        decreases v@.len() - i,
    {
        let ghost pre = out@;
        let c = v[i];
        if escape {
            out.push(c);
            escape = false;
            last = c;
            i = i + 1;
            proof {
                assert(out@ =~= pre + seq![v@[i - 1]]);
            }
        } else if in_string {
            out.push(c);
            if c == '\\' {
                escape = true;
            } else if c == delim {
                in_string = false;
            }
            last = c;
            i = i + 1;
            proof {
                assert(out@ =~= pre + seq![v@[i - 1]]);
            }
        } else if in_single {
            if c == '\n' {
                out.push('\n');
                in_single = false;
                last = '\n';
                proof {
                    assert(out@ =~= pre + seq!['\n']);
                }
            }
            i = i + 1;
        } else if in_multi {
            if c == '*' && i + 1 < v.len() && v[i + 1] == '/' {
                in_multi = false;
                i = i + 2;
            } else {
                i = i + 1;
            }
        } else if c == '"' || c == '\'' {
            out.push(c);
            in_string = true;
            delim = c;
            last = c;
            i = i + 1;
            proof {
                assert(out@ =~= pre + seq![v@[i - 1]]);
            }
        } else if c == '/' && i + 1 < v.len() && v[i + 1] == '/' {
            in_single = true;
            i = i + 2;
        } else if c == '/' && i + 1 < v.len() && v[i + 1] == '*' {
            in_multi = true;
            i = i + 2;
        } else if is_space(c) {
            if !is_space(last) && is_identifier_char(last) && i + 1 < v.len() && is_identifier_char(
                v[i + 1],
            ) {
                out.push(' ');
                last = ' ';
                proof {
                    assert(out@ =~= pre + seq![' ']);
                }
            }
            i = i + 1;
        } else {
            out.push(c);
            last = c;
            i = i + 1;
            proof {
                assert(out@ =~= pre + seq![v@[i - 1]]);
            }
        }
    }
    chars_to_string(&out)
}

} // verus!
