//! Character-level utilities shared by the parsing and rewriting stages.
//!
//! All text is handled as sequences of characters. Case folding and the
//! whitespace set are deliberately ASCII-based: lookup keys, heading ids
//! and minification treat non-ASCII characters as ordinary text.

use vstd::prelude::*;
use vstd::string::StrSliceExecFns;

verus! {

/// The characters treated as whitespace when keys and snippets are
/// normalized.
pub open spec fn is_space_spec(c: char) -> bool {
    c == ' ' || c == '\t' || c == '\n' || c == '\r'
}

/// Whitespace test matching `is_space_spec`.
pub fn is_space(c: char) -> (r: bool)
    ensures
        r == is_space_spec(c),
{
    c == ' ' || c == '\t' || c == '\n' || c == '\r'
}

/// ASCII case folding for a single character; everything outside `A`..`Z`
/// is left unchanged.
pub open spec fn lower_char_spec(c: char) -> char {
    if 'A' <= c && c <= 'Z' {
        ((c as u8) + 32) as char
    } else {
        c
    }
}

/// ASCII case folding matching `lower_char_spec`.
pub fn lower_char(c: char) -> (r: char)
    ensures
        r == lower_char_spec(c),
{
    if 'A' <= c && c <= 'Z' {
        (((c as u8) + 32) as char)
    } else {
        c
    }
}

/// Collect the characters of a string slice into a vector.
pub fn str_chars(s: &str) -> (r: Vec<char>)
    ensures
        r@ == s@,
{
    let n = s.unicode_len();
    let mut r: Vec<char> = Vec::new();
    let mut i: usize = 0;
    while i < n
        invariant
            n == s@.len(),
            i <= n,
            r@ == s@.subrange(0, i as int),
        decreases n - i,
    {
        r.push(s.get_char(i));
        i = i + 1;
        proof {
            assert(r@ =~= s@.subrange(0, i as int));
        }
    }
    proof {
        assert(r@ =~= s@);
    }
    r
}

/// First index at or after `from` where `c` occurs in `s`, or `s.len()`
/// if there is none.
pub open spec fn index_of_char_from(s: Seq<char>, c: char, from: int) -> int
    decreases s.len() - from,
{
    if from < 0 || from >= s.len() {
        s.len() as int
    } else if s[from] == c {
        from
    } else {
        index_of_char_from(s, c, from + 1)
    }
}

/// Find the first occurrence of `c` in `v` at or after `from`.
pub fn find_char_from(v: &Vec<char>, c: char, from: usize) -> (r: Option<usize>)
    requires
        from <= v@.len(),
    ensures
        match r {
            Some(i) => from <= i < v@.len() && i == index_of_char_from(v@, c, from as int),
            None => index_of_char_from(v@, c, from as int) == v@.len(),
        },
{
    let mut i: usize = from;
    while i < v.len()
        invariant
            from <= i <= v@.len(),
            index_of_char_from(v@, c, from as int) == index_of_char_from(v@, c, i as int),
            forall|j: int| from <= j < i ==> v@[j] != c,
        decreases v@.len() - i,
    {
        if v[i] == c {
            return Some(i);
        }
        i = i + 1;
    }
    None
}

/// Copy the characters of `v` in the range `[from, to)`.
pub fn chars_slice(v: &Vec<char>, from: usize, to: usize) -> (r: Vec<char>)
    requires
        from <= to <= v@.len(),
    ensures
        r@ == v@.subrange(from as int, to as int),
{
    let mut r: Vec<char> = Vec::new();
    let mut i: usize = from;
    while i < to
        invariant
            from <= i <= to <= v@.len(),
            r@ == v@.subrange(from as int, i as int),
        decreases to - i,
    {
        r.push(v[i]);
        i = i + 1;
        proof {
            assert(r@ =~= v@.subrange(from as int, i as int));
        }
    }
    r
}

/// Compare two character vectors for equality.
pub fn chars_eq(a: &Vec<char>, b: &Vec<char>) -> (r: bool)
    ensures
        r == (a@ == b@),
{
    if a.len() != b.len() {
        proof {
            assert(a@ != b@);
        }
        return false;
    }
    let mut i: usize = 0;
    while i < a.len()
        invariant
            a@.len() == b@.len(),
            i <= a@.len(),
            forall|j: int| 0 <= j < i ==> a@[j] == b@[j],
        decreases a@.len() - i,
    {
        if a[i] != b[i] {
            proof {
                assert(a@ != b@);
            }
            return false;
        }
        i = i + 1;
    }
    proof {
        assert(a@ =~= b@);
    }
    true
}

/// Compare a character vector against a string slice.
pub fn chars_eq_str(a: &Vec<char>, s: &str) -> (r: bool)
    ensures
        r == (a@ == s@),
{
    let b = str_chars(s);
    chars_eq(a, &b)
}

/// Compare two string slices for equality of their character sequences.
pub fn str_eq(a: &str, b: &str) -> (r: bool)
    ensures
        r == (a@ == b@),
{
    let av = str_chars(a);
    chars_eq_str(&av, b)
}

/// The maximal runs of non-separator characters of `s`, in order:
/// splitting on separators with empty pieces dropped.
pub open spec fn runs(s: Seq<char>, issep: spec_fn(char) -> bool) -> Seq<Seq<char>>
    decreases s.len(),
{
    if s.len() == 0 {
        Seq::empty()
    } else {
        let rest = runs(s.drop_first(), issep);
        if issep(s[0]) {
            rest
        } else if s.len() >= 2 && !issep(s[1]) {
            rest.update(0, seq![s[0]] + rest[0])
        } else {
            seq![seq![s[0]]] + rest
        }
    }
}

/// The pieces of `ws` joined with a single `sep` between them.
pub open spec fn join(ws: Seq<Seq<char>>, sep: char) -> Seq<char>
    decreases ws.len(),
{
    if ws.len() == 0 {
        Seq::empty()
    } else if ws.len() == 1 {
        ws[0]
    } else {
        ws[0] + seq![sep] + join(ws.drop_first(), sep)
    }
}

/// Well-formed run lists: every piece is nonempty and free of separators.
pub open spec fn good_runs(ws: Seq<Seq<char>>, issep: spec_fn(char) -> bool) -> bool {
    forall|i: int|
        0 <= i < ws.len() ==> (#[trigger] ws[i]).len() > 0 && (forall|j: int|
            0 <= j < ws[i].len() ==> !issep(#[trigger] ws[i][j]))
}

/// Splitting a separator-free piece followed by a separator (or nothing)
/// yields that piece and then the runs of the rest.
pub proof fn lemma_runs_word(w: Seq<char>, t: Seq<char>, issep: spec_fn(char) -> bool)
    requires
        w.len() > 0,
        forall|j: int| 0 <= j < w.len() ==> !issep(#[trigger] w[j]),
        t.len() == 0 || issep(t[0]),
    ensures
        runs(w + t, issep) == seq![w] + runs(t, issep),
    decreases w.len(),
{
    let s = w + t;
    assert(s[0] == w[0]);
    if w.len() == 1 {
        assert(s.drop_first() =~= t);
        if t.len() == 0 {
            assert(runs(s, issep) =~= seq![w] + runs(t, issep)) by {
                assert(seq![s[0]] =~= w);
            }
        } else {
            assert(s.len() >= 2 && issep(s[1]));
            assert(seq![s[0]] =~= w);
            assert(runs(s, issep) =~= seq![w] + runs(t, issep));
        }
    } else {
        assert(s[1] == w[1]);
        assert(s.drop_first() =~= w.drop_first() + t);
        lemma_runs_word(w.drop_first(), t, issep);
        let rest = runs(s.drop_first(), issep);
        assert(rest == seq![w.drop_first()] + runs(t, issep));
        assert(rest[0] == w.drop_first());
        assert(seq![s[0]] + w.drop_first() =~= w);
        assert(runs(s, issep) == rest.update(0, seq![s[0]] + rest[0]));
        assert(runs(s, issep) =~= seq![w] + runs(t, issep));
    }
}

/// The runs of any text are well formed, every character of a run occurs
/// in the text, and a text that begins with a non-separator has that
/// character at the head of its first run.
pub proof fn lemma_runs_wf(s: Seq<char>, issep: spec_fn(char) -> bool)
    ensures
        good_runs(runs(s, issep), issep),
        forall|i: int, j: int|
            0 <= i < runs(s, issep).len() && 0 <= j < runs(s, issep)[i].len() ==> s.contains(
                #[trigger] runs(s, issep)[i][j],
            ),
        s.len() > 0 && !issep(s[0]) ==> runs(s, issep).len() > 0 && runs(s, issep)[0].len() > 0
            && runs(s, issep)[0][0] == s[0],
    decreases s.len(),
{
    if s.len() == 0 {
    } else {
        lemma_runs_wf(s.drop_first(), issep);
        let rest = runs(s.drop_first(), issep);
        assert(forall|k: int|
            0 <= k < s.drop_first().len() ==> s.drop_first()[k] == s[k + 1] && s.contains(
                s[k + 1],
            ));
        assert(forall|c: char| s.drop_first().contains(c) ==> s.contains(c));
        assert(s.contains(s[0]));
        if issep(s[0]) {
        } else if s.len() >= 2 && !issep(s[1]) {
            let r = runs(s, issep);
            assert(rest.len() > 0 && rest[0].len() > 0 && rest[0][0] == s.drop_first()[0]);
            assert(r == rest.update(0, seq![s[0]] + rest[0]));
            assert(r[0] == seq![s[0]] + rest[0]);
            assert forall|i: int, j: int|
                0 <= i < r.len() && 0 <= j < r[i].len() implies !issep(r[i][j]) && s.contains(
                r[i][j],
            ) by {
                if i == 0 {
                    if j == 0 {
                        assert(r[0][0] == s[0]);
                    } else {
                        assert(r[0][j] == rest[0][j - 1]);
                    }
                } else {
                    assert(r[i] == rest[i]);
                }
            }
        } else {
            let r = runs(s, issep);
            assert(r == seq![seq![s[0]]] + rest);
            assert(r[0] == seq![s[0]]);
            assert forall|i: int, j: int|
                0 <= i < r.len() && 0 <= j < r[i].len() implies !issep(r[i][j]) && s.contains(
                r[i][j],
            ) by {
                if i == 0 {
                    assert(r[0][j] == s[0]);
                } else {
                    assert(r[i] == rest[i - 1]);
                }
            }
        }
    }
}

/// Splitting undoes joining: the runs of a join of well-formed pieces are
/// exactly those pieces.
pub proof fn lemma_runs_join_inverse(ws: Seq<Seq<char>>, sep: char, issep: spec_fn(char) -> bool)
    requires
        good_runs(ws, issep),
        issep(sep),
    ensures
        runs(join(ws, sep), issep) == ws,
    decreases ws.len(),
{
    if ws.len() == 0 {
        assert(runs(join(ws, sep), issep) =~= ws);
    } else if ws.len() == 1 {
        assert(join(ws, sep) == ws[0]);
        assert(ws[0] + Seq::<char>::empty() =~= ws[0]);
        lemma_runs_word(ws[0], Seq::empty(), issep);
        assert(runs(join(ws, sep), issep) =~= ws);
    } else {
        let t = seq![sep] + join(ws.drop_first(), sep);
        assert(join(ws, sep) =~= ws[0] + t);
        lemma_runs_word(ws[0], t, issep);
        assert(t.drop_first() =~= join(ws.drop_first(), sep));
        lemma_runs_join_inverse(ws.drop_first(), sep, issep);
        assert(runs(t, issep) == runs(join(ws.drop_first(), sep), issep));
        assert(runs(join(ws, sep), issep) =~= ws);
    }
}

/// Every character of a join satisfies `p` when every character of every
/// piece does and the separator does.
pub proof fn lemma_join_chars(ws: Seq<Seq<char>>, sep: char, p: spec_fn(char) -> bool)
    requires
        forall|i: int, j: int|
            0 <= i < ws.len() && 0 <= j < ws[i].len() ==> p(#[trigger] ws[i][j]),
        p(sep),
    ensures
        forall|k: int| 0 <= k < join(ws, sep).len() ==> p(#[trigger] join(ws, sep)[k]),
    decreases ws.len(),
{
    if ws.len() == 0 {
    } else if ws.len() == 1 {
        assert(join(ws, sep) == ws[0]);
    } else {
        lemma_join_chars(ws.drop_first(), sep, p);
        let r = join(ws, sep);
        assert(r == ws[0] + seq![sep] + join(ws.drop_first(), sep));
        assert forall|k: int| 0 <= k < r.len() implies p(r[k]) by {
            if k < ws[0].len() {
                assert(r[k] == ws[0][k]);
            } else if k == ws[0].len() {
                assert(r[k] == sep);
            } else {
                assert(r[k] == join(ws.drop_first(), sep)[k - ws[0].len() - 1]);
            }
        }
    }
}

/// Appending one piece to a join extends it with a separator and the
/// piece (or is the piece alone when there was nothing yet).
pub proof fn lemma_join_push(ws: Seq<Seq<char>>, w: Seq<char>, sep: char)
    ensures
        join(ws.push(w), sep) == if ws.len() == 0 {
            w
        } else {
            join(ws, sep) + seq![sep] + w
        },
    decreases ws.len(),
{
    if ws.len() == 0 {
        assert(ws.push(w)[0] == w);
    } else if ws.len() == 1 {
        let p = ws.push(w);
        assert(p.len() == 2);
        assert(p[0] == ws[0] && p[1] == w);
        assert(p.drop_first() =~= seq![w]);
        assert(join(p, sep) == p[0] + seq![sep] + join(p.drop_first(), sep));
        assert(join(ws, sep) == ws[0]);
    } else {
        let p = ws.push(w);
        assert(p.drop_first() =~= ws.drop_first().push(w));
        lemma_join_push(ws.drop_first(), w, sep);
        assert(join(p, sep) == p[0] + seq![sep] + join(p.drop_first(), sep));
        assert(join(ws, sep) + seq![sep] + w =~= ws[0] + seq![sep] + (join(
            ws.drop_first(),
            sep,
        ) + seq![sep] + w));
        assert(join(p, sep) =~= join(ws, sep) + seq![sep] + w);
    }
}

/// The number of leading whitespace characters of `s`.
pub open spec fn lead_ws(s: Seq<char>) -> nat
    decreases s.len(),
{
    if s.len() == 0 || !is_space_spec(s[0]) {
        0
    } else {
        1 + lead_ws(s.drop_first())
    }
}

/// The number of trailing whitespace characters of `s`.
pub open spec fn trail_ws(s: Seq<char>) -> nat
    decreases s.len(),
{
    if s.len() == 0 || !is_space_spec(s.last()) {
        0
    } else {
        1 + trail_ws(s.drop_last())
    }
}

/// `s` with leading and trailing whitespace removed; a string of nothing
/// but whitespace trims to nothing.
pub open spec fn trim_spec(s: Seq<char>) -> Seq<char> {
    if lead_ws(s) == s.len() {
        Seq::empty()
    } else {
        s.subrange(lead_ws(s) as int, s.len() - trail_ws(s))
    }
}

/// The trailing whitespace run stops at any non-whitespace character.
proof fn lemma_trail_ws_bound(s: Seq<char>, i: int)
    requires
        0 <= i < s.len(),
        !is_space_spec(s[i]),
    ensures
        trail_ws(s) <= s.len() - 1 - i,
    decreases s.len(),
{
    if is_space_spec(s.last()) {
        lemma_trail_ws_bound(s.drop_last(), i);
    }
}

/// The leading and trailing whitespace counts fit inside `s`, and do not
/// overlap when some character is not whitespace.
pub proof fn lemma_trim_counts(s: Seq<char>)
    ensures
        lead_ws(s) <= s.len(),
        trail_ws(s) <= s.len(),
        lead_ws(s) < s.len() ==> !is_space_spec(s[lead_ws(s) as int]) && lead_ws(s) + trail_ws(s)
            <= s.len(),
    decreases s.len(),
{
    if s.len() > 0 {
        lemma_trim_counts(s.drop_first());
        lemma_trim_counts(s.drop_last());
        let lead = lead_ws(s);
        if lead < s.len() {
            if is_space_spec(s[0]) {
                assert(s.drop_first()[lead - 1] == s[lead as int]);
            }
            assert(!is_space_spec(s[lead as int]));
            lemma_trail_ws_bound(s, lead as int);
        }
    }
}

/// Trim leading and trailing whitespace from a character vector.
pub fn trim_chars(v: &Vec<char>) -> (r: Vec<char>)
    ensures
        r@ == trim_spec(v@),
{
    proof {
        assert(v@.skip(0) =~= v@);
    }
    let mut lo: usize = 0;
    while lo < v.len() && is_space(v[lo])
        invariant
            lo <= v@.len(),
            lead_ws(v@) == lo + lead_ws(v@.skip(lo as int)),
        decreases v@.len() - lo,
    {
        proof {
            assert(v@.skip(lo as int).drop_first() =~= v@.skip(lo as int + 1));
            assert(v@.skip(lo as int)[0] == v@[lo as int]);
            assert(lead_ws(v@.skip(lo as int)) == 1 + lead_ws(v@.skip(lo as int + 1)));
        }
        lo = lo + 1;
    }
    proof {
        if lo < v@.len() {
            assert(v@.skip(lo as int)[0] == v@[lo as int]);
            assert(lead_ws(v@.skip(lo as int)) == 0);
        } else {
            assert(v@.skip(lo as int) =~= Seq::<char>::empty());
        }
        assert(lead_ws(v@) == lo);
    }
    if lo == v.len() {
        return Vec::new();
    }
    proof {
        assert(v@.take(v@.len() as int) =~= v@);
    }
    let mut hi: usize = v.len();
    while hi > lo + 1 && is_space(v[hi - 1])
        invariant
            lo < hi <= v@.len(),
            lo == lead_ws(v@),
            lo < v@.len(),
            !is_space_spec(v@[lo as int]),
            trail_ws(v@) == (v@.len() - hi) + trail_ws(v@.take(hi as int)),
        decreases hi,
    {
        proof {
            assert(v@.take(hi as int).drop_last() =~= v@.take(hi as int - 1));
            assert(v@.take(hi as int).last() == v@[hi as int - 1]);
            assert(trail_ws(v@.take(hi as int)) == 1 + trail_ws(v@.take(hi as int - 1)));
        }
        hi = hi - 1;
    }
    proof {
        assert(v@.take(hi as int).last() == v@[hi as int - 1]);
        assert(trail_ws(v@.take(hi as int)) == 0);
        assert(trail_ws(v@) == v@.len() - hi);
        lemma_trim_counts(v@);
    }
    chars_slice(v, lo, hi)
}

/// Relies on `String::push`: appends one character to the string.
#[verifier::external_body]
pub(crate) fn push_char(s: &mut String, c: char)
    ensures
        final(s)@ == old(s)@ + seq![c],
{
    s.push(c)
}

/// Build a `String` from a vector of characters.
pub fn chars_to_string(v: &Vec<char>) -> (r: String)
    ensures
        r@ == v@,
{
    let mut r = String::new();
    let mut i: usize = 0;
    while i < v.len()
        invariant
            i <= v@.len(),
            r@ == v@.subrange(0, i as int),
        decreases v@.len() - i,
    {
        push_char(&mut r, v[i]);
        i = i + 1;
        proof {
            assert(r@ =~= v@.subrange(0, i as int));
        }
    }
    proof {
        assert(r@ =~= v@);
    }
    r
}

} // verus!

verus! {

/// The whitespace predicate as a value, shared by every use of `runs`.
pub open spec fn space_pred() -> spec_fn(char) -> bool {
    |c: char| is_space_spec(c)
}

/// The path separator predicate as a value.
pub open spec fn slash_pred() -> spec_fn(char) -> bool {
    |c: char| c == '/'
}

/// The hyphen separator predicate as a value.
pub open spec fn dash_pred() -> spec_fn(char) -> bool {
    |c: char| c == '-'
}

/// The view of a vector of character vectors.
pub open spec fn vecs_view(s: Seq<Vec<char>>) -> Seq<Seq<char>> {
    s.map_values(|w: Vec<char>| w@)
}

/// Append all characters of `src` to `dst`.
pub fn push_all(dst: &mut Vec<char>, src: &Vec<char>)
    ensures
        final(dst)@ == old(dst)@ + src@,
{
    let mut i: usize = 0;
    while i < src.len()
        invariant
            i <= src@.len(),
            dst@ == old(dst)@ + src@.subrange(0, i as int),
        decreases src@.len() - i,
    {
        dst.push(src[i]);
        i = i + 1;
        proof {
            assert(dst@ =~= old(dst)@ + src@.subrange(0, i as int));
        }
    }
    proof {
        assert(old(dst)@ + src@.subrange(0, src@.len() as int) =~= old(dst)@ + src@);
    }
}


/// Whether `c` is a separator under the given mode: whitespace for 0,
/// `/` for 1, `-` for 2.
fn is_sep_char(c: char, mode: u8) -> (r: bool)
    ensures
        r == if mode == 0 {
            is_space_spec(c)
        } else if mode == 1 {
            c == '/'
        } else {
            c == '-'
        },
{
    if mode == 0 {
        is_space(c)
    } else if mode == 1 {
        c == '/'
    } else {
        c == '-'
    }
}

/// Length of the run of non-separator characters starting at `from`,
/// where the separator set is given by `ws` (whitespace when true, `/`
/// when false).
fn run_end(v: &Vec<char>, from: usize, mode: u8) -> (r: usize)
    requires
        from <= v@.len(),
    ensures
        from <= r <= v@.len(),
        forall|k: int|
            from <= k < r ==> !(if mode == 0 {
                is_space_spec(v@[k])
            } else if mode == 1 {
                v@[k] == '/'
            } else {
                v@[k] == '-'
            }),
        r < v@.len() ==> (if mode == 0 {
            is_space_spec(v@[r as int])
        } else if mode == 1 {
            v@[r as int] == '/'
        } else {
            v@[r as int] == '-'
        }),
{
    let mut j: usize = from;
    while j < v.len() && !is_sep_char(v[j], mode)
        invariant
            from <= j <= v@.len(),
            forall|k: int|
                from <= k < j ==> !(if mode == 0 {
                    is_space_spec(v@[k])
                } else if mode == 1 {
                    v@[k] == '/'
                } else {
                    v@[k] == '-'
                }),
        decreases v@.len() - j,
    {
        j = j + 1;
    }
    j
}

/// Split `v` into its maximal runs of non-separator characters, where the
/// separator set is given by `mode`: whitespace for 0, `/` for 1, `-`
/// for 2.
fn split_runs(v: &Vec<char>, mode: u8) -> (r: Vec<Vec<char>>)
    ensures
        mode == 0 ==> vecs_view(r@) == runs(v@, space_pred()),
        mode == 1 ==> vecs_view(r@) == runs(v@, slash_pred()),
        mode != 0 && mode != 1 ==> vecs_view(r@) == runs(v@, dash_pred()),
{
    let ghost issep: spec_fn(char) -> bool = if mode == 0 {
        space_pred()
    } else if mode == 1 {
        slash_pred()
    } else {
        dash_pred()
    };
    proof {
        assert(v@.skip(0) =~= v@);
    }
    let mut r: Vec<Vec<char>> = Vec::new();
    let mut i: usize = 0;
    while i < v.len()
        invariant
            i <= v@.len(),
            issep == if mode == 0 {
                space_pred()
            } else if mode == 1 {
                slash_pred()
            } else {
                dash_pred()
            },
            vecs_view(r@) + runs(v@.skip(i as int), issep) == runs(v@, issep),
        decreases v@.len() - i,
    {
        let sep_here = is_sep_char(v[i], mode);
        proof {
            assert(sep_here == issep(v@[i as int]));
            assert(v@.skip(i as int)[0] == v@[i as int]);
        }
        if sep_here {
            proof {
                assert(v@.skip(i as int).drop_first() =~= v@.skip(i as int + 1));
                assert(runs(v@.skip(i as int), issep) == runs(v@.skip(i as int + 1), issep));
            }
            i = i + 1;
        } else {
            let j = run_end(v, i, mode);
            let w = chars_slice(v, i, j);
            proof {
                let wseq = v@.subrange(i as int, j as int);
                let t = v@.skip(j as int);
                assert(v@.skip(i as int) =~= wseq + t);
                assert(forall|k: int| 0 <= k < wseq.len() ==> !issep(#[trigger] wseq[k]));
                if t.len() > 0 {
                    assert(t[0] == v@[j as int]);
                }
                lemma_runs_word(wseq, t, issep);
            }
            let ghost old_r = r@;
            r.push(w);
            proof {
                assert(vecs_view(r@) =~= vecs_view(old_r) + seq![w@]);
                assert(vecs_view(old_r) + (seq![w@] + runs(v@.skip(j as int), issep)) =~= (
                vecs_view(old_r) + seq![w@]) + runs(v@.skip(j as int), issep));
            }
            i = j;
        }
    }
    proof {
        assert(v@.skip(v@.len() as int) =~= Seq::<char>::empty());
        assert(vecs_view(r@) + runs(v@.skip(v@.len() as int), issep) =~= vecs_view(r@));
    }
    r
}

/// Split `v` into its maximal runs of non-whitespace characters.
pub fn split_runs_ws(v: &Vec<char>) -> (r: Vec<Vec<char>>)
    ensures
        vecs_view(r@) == runs(v@, space_pred()),
{
    split_runs(v, 0)
}

/// Split `v` into its maximal runs of non-`/` characters: the components
/// of a path.
pub fn split_runs_slash(v: &Vec<char>) -> (r: Vec<Vec<char>>)
    ensures
        vecs_view(r@) == runs(v@, slash_pred()),
{
    split_runs(v, 1)
}

/// Split `v` into its maximal runs of non-`-` characters.
pub fn split_runs_dash(v: &Vec<char>) -> (r: Vec<Vec<char>>)
    ensures
        vecs_view(r@) == runs(v@, dash_pred()),
{
    split_runs(v, 2)
}

/// Join the pieces of `ws` with a single `sep` between them.
pub fn join_chars(ws: &Vec<Vec<char>>, sep: char) -> (r: Vec<char>)
    ensures
        r@ == join(vecs_view(ws@), sep),
{
    let mut r: Vec<char> = Vec::new();
    let mut i: usize = 0;
    proof {
        assert(vecs_view(ws@).take(0) =~= Seq::<Seq<char>>::empty());
    }
    while i < ws.len()
        invariant
            i <= ws@.len(),
            r@ == join(vecs_view(ws@).take(i as int), sep),
        decreases ws@.len() - i,
    {
        proof {
            lemma_join_push(vecs_view(ws@).take(i as int), vecs_view(ws@)[i as int], sep);
            assert(vecs_view(ws@).take(i as int + 1) =~= vecs_view(ws@).take(i as int).push(
                vecs_view(ws@)[i as int],
            ));
        }
        if i > 0 {
            r.push(sep);
        }
        push_all(&mut r, &ws[i]);
        i = i + 1;
        proof {
            if i == 1 {
                assert(r@ =~= vecs_view(ws@)[0]);
            }
        }
    }
    proof {
        assert(vecs_view(ws@).take(ws@.len() as int) =~= vecs_view(ws@));
    }
    r
}

} // verus!

verus! {

/// Whether `pat` occurs in `s` at position `i`.
pub open spec fn occurs_at(s: Seq<char>, pat: Seq<char>, i: int) -> bool {
    0 <= i && i + pat.len() <= s.len() && s.subrange(i, i + pat.len()) == pat
}

/// Position of the first occurrence of `pat` in `s` at or after `from`,
/// or -1 when there is none.
pub open spec fn first_occurrence(s: Seq<char>, pat: Seq<char>, from: int) -> int
    decreases s.len() - from + 1,
{
    if from < 0 || from + pat.len() > s.len() {
        -1
    } else if occurs_at(s, pat, from) {
        from
    } else {
        first_occurrence(s, pat, from + 1)
    }
}

/// Whether `pat` occurs in `v` at position `i`.
fn match_here(v: &Vec<char>, pat: &Vec<char>, i: usize) -> (r: bool)
    requires
        i + pat@.len() <= v@.len(),
    ensures
        r == occurs_at(v@, pat@, i as int),
{
    let n = v.len();
    let mut j: usize = 0;
    while j < pat.len()
        invariant
            j <= pat@.len(),
            i + pat@.len() <= n,
            n == v@.len(),
            forall|x: int| 0 <= x < j ==> v@[i + x] == pat@[x],
        decreases pat@.len() - j,
    {
        if v[i + j] != pat[j] {
            proof {
                assert(v@.subrange(i as int, i + pat@.len())[j as int] == v@[i + j]);
                assert(!occurs_at(v@, pat@, i as int));
            }
            return false;
        }
        j = j + 1;
    }
    proof {
        assert(v@.subrange(i as int, i + pat@.len()) =~= pat@);
    }
    true
}

/// Find the first occurrence of `pat` in `v` at or after `from`.
pub fn find_sub(v: &Vec<char>, pat: &Vec<char>, from: usize) -> (r: Option<usize>)
    requires
        from <= v@.len(),
    ensures
        match r {
            Some(i) => from <= i && i == first_occurrence(v@, pat@, from as int) && occurs_at(
                v@,
                pat@,
                i as int,
            ),
            None => first_occurrence(v@, pat@, from as int) == -1,
        },
{
    if pat.len() > v.len() {
        return None;
    }
    if pat.len() == 0 {
        proof {
            assert(v@.subrange(from as int, from as int) =~= pat@);
        }
        return Some(from);
    }
    let n = v.len();
    let last = n - pat.len();
    let mut i: usize = from;
    while i <= last
        invariant
            from <= i,
            n == v@.len(),
            pat@.len() >= 1,
            last == v@.len() - pat@.len(),
            last < n,
            first_occurrence(v@, pat@, from as int) == first_occurrence(v@, pat@, i as int),
        decreases last + 1 - i,
    {
        if match_here(v, pat, i) {
            return Some(i);
        }
        i = i + 1;
    }
    None
}

/// Whether `v` starts with the characters of `pat`.
pub fn starts_with_chars(v: &Vec<char>, pat: &str) -> (r: bool)
    ensures
        r == (v@.len() >= pat@.len() && v@.subrange(0, pat@.len() as int) == pat@),
{
    let p = str_chars(pat);
    if p.len() > v.len() {
        return false;
    }
    match_here(v, &p, 0)
}

} // verus!

verus! {

/// Whether `pat` occurs in `v` at `i`, checked in place.
pub(crate) fn occurs_here(v: &Vec<char>, pat: &str, i: usize) -> (r: bool)
    requires
        i <= v@.len(),
    ensures
        r == occurs_at(v@, pat@, i as int),
{
    let p = str_chars(pat);
    let n = v.len();
    if n - i < p.len() {
        return false;
    }
    let mut j: usize = 0;
    while j < p.len()
        invariant
            j <= p@.len(),
            i + p@.len() <= n,
            n == v@.len(),
            p@ == pat@,
            forall|x: int| 0 <= x < j ==> v@[i + x] == pat@[x],
        decreases p@.len() - j,
    {
        if v[i + j] != p[j] {
            proof {
                assert(v@.subrange(i as int, i + pat@.len())[j as int] == v@[i + j]);
            }
            return false;
        }
        j = j + 1;
    }
    proof {
        assert(v@.subrange(i as int, i + pat@.len()) =~= pat@);
    }
    true
}


/// What replacing every occurrence of `pat` (scanning left to right)
/// with `rep` leaves, from position `i` on.
pub open spec fn replace_from(s: Seq<char>, pat: Seq<char>, rep: Seq<char>, i: int) -> Seq<char>
    decreases s.len() - i,
{
    if i < 0 || i >= s.len() {
        Seq::empty()
    } else if occurs_at(s, pat, i) && pat.len() > 0 && i + pat.len() <= s.len() {
        rep + replace_from(s, pat, rep, i + pat.len() as int)
    } else {
        seq![s[i]] + replace_from(s, pat, rep, i + 1)
    }
}

/// `s` with every occurrence of `pat` replaced by `rep`.
pub open spec fn replace_all_spec(s: Seq<char>, pat: Seq<char>, rep: Seq<char>) -> Seq<char> {
    replace_from(s, pat, rep, 0)
}

/// Replace every occurrence of `pat` in `s` with `rep`.
pub fn replace_all(s: &str, pat: &str, rep: &str) -> (r: String)
    ensures
        r@ == replace_all_spec(s@, pat@, rep@),
{
    let v = str_chars(s);
    let p = str_chars(pat);
    let rv = str_chars(rep);
    let mut out: Vec<char> = Vec::new();
    let mut i: usize = 0;
    let n = v.len();
    let plen = p.len();
    proof {
        assert(out@ + replace_from(v@, pat@, rep@, 0) =~= replace_all_spec(s@, pat@, rep@));
    }
    while i < n
        invariant
            i <= v@.len(),
            n == v@.len(),
            v@ == s@,
            p@ == pat@,
            rv@ == rep@,
            plen == pat@.len(),
            out@ + replace_from(v@, pat@, rep@, i as int) == replace_all_spec(s@, pat@, rep@),
        decreases v@.len() - i,
    {
        let ghost pre = out@;
        if plen > 0 && occurs_here(&v, pat, i) {
            push_all(&mut out, &rv);
            i = i + plen;
            proof {
                assert(out@ =~= pre + rep@);
            }
        } else {
            out.push(v[i]);
            i = i + 1;
            proof {
                assert(out@ =~= pre + seq![v@[i - 1]]);
            }
        }
    }
    chars_to_string(&out)
}

} // verus!
