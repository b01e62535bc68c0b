//! The JS sub-minifier.
//!
//! A lexical pass that removes `//` and `/* ... */` comments (each replaced
//! by a single space when one was not just emitted) and drops whitespace,
//! keeping one space between two identifier-class characters so that tokens
//! cannot merge. The contents of string and template literals (`"`, `'`,
//! `` ` ``) are copied verbatim; a quote preceded by a backslash never closes
//! the literal, which errs on the side of staying inside it.

use vstd::prelude::*;
use vstd::string::*;
use crate::chars::{is_space, is_ident};
use crate::chars::{is_space_c, is_ident_c};

verus! {

/// The lexical state of the JS scanner between two input characters.
pub struct JsState {
    /// whether the scanner is inside a string or template literal
    pub in_str: bool,
    /// the quote character that opened the current literal
    pub quote: char,
    /// the last character emitted as code (collapsed spaces do not count)
    pub last: char,
    /// whether the character emitted last was a collapsed space
    pub last_space: bool,
    /// everything emitted so far
    pub out: Seq<char>,
}

/// The scanner's state at the start of a fragment.
pub open spec fn js_init() -> JsState {
    JsState { in_str: false, quote: '\0', last: '\0', last_space: false, out: Seq::empty() }
}

/// The index of the first `\n` at or after `i`, or the length when there is
/// none: a `//` comment runs to there.
pub open spec fn line_end(s: Seq<char>, i: int) -> int
    decreases s.len() - i,
{
    if i >= s.len() {
        s.len() as int
    } else if s[i] == '\n' {
        i
    } else {
        line_end(s, i + 1)
    }
}

/// The index of the `*` of the first `*/` at or after `i`, or the length when
/// there is none: a `/* ... */` comment runs to there.
pub open spec fn block_end(s: Seq<char>, i: int) -> int
    decreases s.len() - i,
{
    if i >= s.len() {
        s.len() as int
    } else if s[i] == '*' && i + 1 < s.len() && s[i + 1] == '/' {
        i
    } else {
        block_end(s, i + 1)
    }
}

/// The index of the quote that closes a literal opened with `q`, scanning
/// from `i` with `last` the character just before `i`; the length when the
/// literal never closes. A quote directly preceded by a backslash does not
/// close.
pub open spec fn str_close(s: Seq<char>, i: int, q: char, last: char) -> int
    decreases s.len() - i,
{
    if i >= s.len() {
        s.len() as int
    } else if s[i] == q && last != '\\' {
        i
    } else {
        str_close(s, i + 1, q, s[i])
    }
}

pub proof fn lemma_line_end_bounds(s: Seq<char>, i: int)
    requires
        i <= s.len(),
    ensures
        i <= line_end(s, i) <= s.len(),
    decreases s.len() - i,
{
    if i < s.len() && s[i] != '\n' {
        lemma_line_end_bounds(s, i + 1);
    }
}

pub proof fn lemma_block_end_bounds(s: Seq<char>, i: int)
    requires
        i <= s.len(),
    ensures
        i <= block_end(s, i) <= s.len(),
        block_end(s, i) < s.len() ==> block_end(s, i) + 2 <= s.len(),
    decreases s.len() - i,
{
    if i < s.len() && !(s[i] == '*' && i + 1 < s.len() && s[i + 1] == '/') {
        lemma_block_end_bounds(s, i + 1);
    }
}

pub proof fn lemma_str_close_bounds(s: Seq<char>, i: int, q: char, last: char)
    requires
        i <= s.len(),
    ensures
        i <= str_close(s, i, q, last) <= s.len(),
    decreases s.len() - i,
{
    if i < s.len() && !(s[i] == q && last != '\\') {
        lemma_str_close_bounds(s, i + 1, q, s[i]);
    }
}

/// One pass of the JS scanner from position `i` in state `st`; the result is
/// the complete output for the rest of the input.
pub open spec fn js_scan(s: Seq<char>, i: int, st: JsState) -> Seq<char>
    decreases s.len() - i,
        via js_scan_dec
{
    if i >= s.len() {
        st.out
    } else {
        let c = s[i];
        if !st.in_str && c == '/' && i + 1 < s.len() && s[i + 1] == '/' {
            let j = line_end(s, i + 2);
            if j >= s.len() {
                st.out
            } else {
                js_scan(
                    s,
                    j + 1,
                    JsState {
                        in_str: st.in_str,
                        quote: st.quote,
                        last: st.last,
                        last_space: true,
                        out: if !st.last_space {
                            st.out.push(' ')
                        } else {
                            st.out
                        },
                    },
                )
            }
        } else if !st.in_str && c == '/' && i + 1 < s.len() && s[i + 1] == '*' {
            let j = block_end(s, i + 2);
            if j >= s.len() {
                st.out
            } else {
                js_scan(
                    s,
                    j + 2,
                    JsState {
                        in_str: st.in_str,
                        quote: st.quote,
                        last: st.last,
                        last_space: true,
                        out: if !st.last_space {
                            st.out.push(' ')
                        } else {
                            st.out
                        },
                    },
                )
            }
        } else if c == '"' || c == '\'' || c == '`' {
            if !st.in_str {
                js_scan(
                    s,
                    i + 1,
                    JsState {
                        in_str: true,
                        quote: c,
                        last: c,
                        last_space: false,
                        out: st.out.push(c),
                    },
                )
            } else if c == st.quote && st.last != '\\' {
                js_scan(
                    s,
                    i + 1,
                    JsState {
                        in_str: false,
                        quote: st.quote,
                        last: c,
                        last_space: false,
                        out: st.out.push(c),
                    },
                )
            } else {
                js_scan(
                    s,
                    i + 1,
                    JsState {
                        in_str: st.in_str,
                        quote: st.quote,
                        last: c,
                        last_space: false,
                        out: st.out.push(c),
                    },
                )
            }
        } else if st.in_str {
            js_scan(
                s,
                i + 1,
                JsState {
                    in_str: st.in_str,
                    quote: st.quote,
                    last: c,
                    last_space: false,
                    out: st.out.push(c),
                },
            )
        } else if is_space(c) {
            if !st.last_space && is_ident(st.last) && i + 1 < s.len() && is_ident(s[i + 1]) {
                js_scan(
                    s,
                    i + 1,
                    JsState {
                        in_str: st.in_str,
                        quote: st.quote,
                        last: st.last,
                        last_space: true,
                        out: st.out.push(' '),
                    },
                )
            } else {
                js_scan(s, i + 1, st)
            }
        } else {
            js_scan(
                s,
                i + 1,
                JsState {
                    in_str: st.in_str,
                    quote: st.quote,
                    last: c,
                    last_space: false,
                    out: st.out.push(c),
                },
            )
        }
    }
}

#[via_fn]
proof fn js_scan_dec(s: Seq<char>, i: int, st: JsState) {
    if i < s.len() {
        if i + 2 <= s.len() {
            lemma_line_end_bounds(s, i + 2);
            lemma_block_end_bounds(s, i + 2);
        }
    }
}

/// The minified form of a JS fragment.
pub open spec fn spec_minify_js(s: Seq<char>) -> Seq<char> {
    js_scan(s, 0, js_init())
}

/// Minifies a JS fragment: the output is exactly what the scanner
/// [`js_scan`] produces, and it is never longer than the input (so an empty
/// fragment stays empty).
pub fn minify_js(js_code: &str) -> (r: String)
    ensures
        r@ == spec_minify_js(js_code@),
        r@.len() <= js_code@.len(),
{
    let n = js_code.unicode_len();
    let mut out = String::new();
    let mut in_str = false;
    let mut quote: char = '\0';
    let mut last: char = '\0';
    let mut last_space = false;
    let mut i: usize = 0;
    proof {
        assert(out@ =~= Seq::<char>::empty());
    }
    while i < n
        invariant
            n == js_code@.len(),
            i <= n,
            js_scan(
                js_code@,
                i as int,
                (JsState { in_str, quote, last, last_space, out: out@ }),
            ) == spec_minify_js(js_code@),
        decreases n - i,
    {
        let ghost s = js_code@;
        let ghost i0 = i as int;
        let ghost st0 = JsState { in_str, quote, last, last_space, out: out@ };
        let c = js_code.get_char(i);
        if !in_str && c == '/' && i + 1 < n && js_code.get_char(i + 1) == '/' {
            let mut j = i + 2;
            while j < n && js_code.get_char(j) != '\n'
                invariant
                    n == js_code@.len(),
                    i + 2 <= j <= n,
                    line_end(js_code@, i as int + 2) == line_end(js_code@, j as int),
                decreases n - j,
            {
                j += 1;
            }
            proof {
                assert(line_end(s, i as int + 2) == if j < n {
                    j as int
                } else {
                    s.len() as int
                });
            }
            if j >= n {
                i = n;
                proof {
                    assert(js_scan(s, i as int, (JsState {
                        in_str, quote, last, last_space, out: out@ })) == st0.out);
                }
            } else {
                if !last_space {
                    out.push(' ');
                    last_space = true;
                }
                i = j + 1;
                proof {
                    assert(js_scan(s, i0, st0) == js_scan(s, i as int, (JsState {
                        in_str, quote, last, last_space, out: out@ })));
                }
            }
        } else if !in_str && c == '/' && i + 1 < n && js_code.get_char(i + 1) == '*' {
            let mut j = i + 2;
            while j < n && !(js_code.get_char(j) == '*' && j + 1 < n && js_code.get_char(j + 1)
                == '/')
                invariant
                    n == js_code@.len(),
                    i + 2 <= j <= n,
                    block_end(js_code@, i as int + 2) == block_end(js_code@, j as int),
                decreases n - j,
            {
                j += 1;
            }
            proof {
                assert(block_end(s, i as int + 2) == if j < n {
                    j as int
                } else {
                    s.len() as int
                });
            }
            if j >= n {
                i = n;
                proof {
                    assert(js_scan(s, i as int, (JsState {
                        in_str, quote, last, last_space, out: out@ })) == st0.out);
                }
            } else {
                if !last_space {
                    out.push(' ');
                    last_space = true;
                }
                i = j + 2;
                proof {
                    assert(js_scan(s, i0, st0) == js_scan(s, i as int, (JsState {
                        in_str, quote, last, last_space, out: out@ })));
                }
            }
        } else if c == '"' || c == '\'' || c == '`' {
            if !in_str {
                in_str = true;
                quote = c;
            } else if c == quote && last != '\\' {
                in_str = false;
            }
            out.push(c);
            last = c;
            last_space = false;
            i = i + 1;
        } else if in_str {
            out.push(c);
            last = c;
            last_space = false;
            i = i + 1;
        } else if is_space_c(c) {
            if !last_space && is_ident_c(last) && i + 1 < n && is_ident_c(
                js_code.get_char(i + 1),
            ) {
                out.push(' ');
                last_space = true;
            }
            i = i + 1;
        } else {
            out.push(c);
            last = c;
            last_space = false;
            i = i + 1;
        }
    }
    proof {
        lemma_js_len(js_code@, 0, js_init());
    }
    out
}

/// The state the scanner steps to from `(i, st)`, paired with the next
/// position. Defined only for `i` within the input; it mirrors one branch of
/// [`js_scan`], so that the lemmas below can induct uniformly.
pub open spec fn js_step(s: Seq<char>, i: int, st: JsState) -> (int, JsState) {
    let c = s[i];
    if !st.in_str && c == '/' && i + 1 < s.len() && s[i + 1] == '/' {
        let j = line_end(s, i + 2);
        (
            j + 1,
            JsState {
                in_str: st.in_str,
                quote: st.quote,
                last: st.last,
                last_space: true,
                out: if !st.last_space {
                    st.out.push(' ')
                } else {
                    st.out
                },
            },
        )
    } else if !st.in_str && c == '/' && i + 1 < s.len() && s[i + 1] == '*' {
        let j = block_end(s, i + 2);
        (
            j + 2,
            JsState {
                in_str: st.in_str,
                quote: st.quote,
                last: st.last,
                last_space: true,
                out: if !st.last_space {
                    st.out.push(' ')
                } else {
                    st.out
                },
            },
        )
    } else if c == '"' || c == '\'' || c == '`' {
        if !st.in_str {
            (
                i + 1,
                JsState { in_str: true, quote: c, last: c, last_space: false, out: st.out.push(c) },
            )
        } else if c == st.quote && st.last != '\\' {
            (
                i + 1,
                JsState {
                    in_str: false,
                    quote: st.quote,
                    last: c,
                    last_space: false,
                    out: st.out.push(c),
                },
            )
        } else {
            (
                i + 1,
                JsState {
                    in_str: st.in_str,
                    quote: st.quote,
                    last: c,
                    last_space: false,
                    out: st.out.push(c),
                },
            )
        }
    } else if st.in_str {
        (
            i + 1,
            JsState {
                in_str: st.in_str,
                quote: st.quote,
                last: c,
                last_space: false,
                out: st.out.push(c),
            },
        )
    } else if is_space(c) {
        if !st.last_space && is_ident(st.last) && i + 1 < s.len() && is_ident(s[i + 1]) {
            (
                i + 1,
                JsState {
                    in_str: st.in_str,
                    quote: st.quote,
                    last: st.last,
                    last_space: true,
                    out: st.out.push(' '),
                },
            )
        } else {
            (i + 1, st)
        }
    } else {
        (
            i + 1,
            JsState {
                in_str: st.in_str,
                quote: st.quote,
                last: c,
                last_space: false,
                out: st.out.push(c),
            },
        )
    }
}

/// Whether the scanner stops inside `(i, st)` because an unterminated comment
/// swallows the rest of the input.
pub open spec fn js_stops(s: Seq<char>, i: int, st: JsState) -> bool {
    let c = s[i];
    ||| (!st.in_str && c == '/' && i + 1 < s.len() && s[i + 1] == '/' && line_end(s, i + 2)
        >= s.len())
    ||| (!st.in_str && c == '/' && i + 1 < s.len() && s[i + 1] == '*' && block_end(s, i + 2)
        >= s.len())
}

/// A step of the scanner agrees with [`js_scan`]: scanning from `(i, st)` is
/// scanning from the stepped position and state, unless the step stops.
pub proof fn lemma_js_step(s: Seq<char>, i: int, st: JsState)
    requires
        i < s.len(),
    ensures
        js_stops(s, i, st) ==> js_scan(s, i, st) == st.out,
        !js_stops(s, i, st) ==> {
            let (i2, st2) = js_step(s, i, st);
            js_scan(s, i, st) == js_scan(s, i2, st2)
        },
        !js_stops(s, i, st) ==> i + 1 <= js_step(s, i, st).0 <= s.len(),
        st.out.len() <= js_step(s, i, st).1.out.len() <= st.out.len() + 1,
        crate::strutil::starts_with(js_step(s, i, st).1.out, st.out),
{
    if i + 2 <= s.len() {
        lemma_line_end_bounds(s, i + 2);
        lemma_block_end_bounds(s, i + 2);
    }
    let (i2, st2) = js_step(s, i, st);
    if st2.out.len() == st.out.len() {
        assert(st2.out =~= st.out);
        crate::strutil::lemma_starts_with_refl(st.out);
    } else {
        crate::strutil::lemma_starts_with_push(st.out, st2.out.last());
        assert(st2.out =~= st.out.push(st2.out.last()));
    }
}

/// The scanner only appends: its final output extends whatever was emitted
/// before.
pub proof fn lemma_js_prefix(s: Seq<char>, i: int, st: JsState)
    ensures
        crate::strutil::starts_with(js_scan(s, i, st), st.out),
    decreases s.len() - i,
{
    if i >= s.len() {
        assert(js_scan(s, i, st).subrange(0, st.out.len() as int) =~= st.out);
    } else if js_stops(s, i, st) {
        assert(js_scan(s, i, st).subrange(0, st.out.len() as int) =~= st.out);
    } else {
        lemma_js_step(s, i, st);
        let (i2, st2) = js_step(s, i, st);
        lemma_js_prefix(s, i2, st2);
        crate::strutil::lemma_starts_with_trans(js_scan(s, i, st), st2.out, st.out);
    }
}

/// The end (exclusive) of the part of the input that a string literal opened
/// with `q` still covers, closing quote included; the input's end when the
/// literal never closes.
pub open spec fn str_close_end(s: Seq<char>, i: int, q: char, last: char) -> int {
    let k = str_close(s, i, q, last);
    if k < s.len() {
        k + 1
    } else {
        s.len() as int
    }
}

/// No character of a string or template literal is altered: from inside a
/// literal, the scanner appends the remaining content, closing quote
/// included, to the output exactly as it stands in the input.
pub proof fn lemma_js_string_verbatim(s: Seq<char>, i: int, st: JsState)
    requires
        st.in_str,
        st.quote == '"' || st.quote == '\'' || st.quote == '`',
        0 <= i <= s.len(),
    ensures
        crate::strutil::starts_with(
            js_scan(s, i, st),
            st.out + s.subrange(i, str_close_end(s, i, st.quote, st.last)),
        ),
    decreases s.len() - i,
{
    let ce = str_close_end(s, i, st.quote, st.last);
    lemma_str_close_bounds(s, i, st.quote, st.last);
    if i >= s.len() {
        assert(st.out + s.subrange(i, ce) =~= st.out);
        crate::strutil::lemma_starts_with_refl(st.out);
    } else {
        let c = s[i];
        lemma_js_step(s, i, st);
        let (i2, st2) = js_step(s, i, st);
        assert(i2 == i + 1 && st2.out == st.out.push(c));
        if c == st.quote && st.last != '\\' {
            // the literal closes here; the quote itself is still emitted
            lemma_js_prefix(s, i + 1, st2);
            assert(st.out + s.subrange(i, ce) =~= st2.out);
        } else {
            lemma_js_string_verbatim(s, i + 1, st2);
            let ce2 = str_close_end(s, i + 1, st.quote, c);
            assert(ce2 == ce);
            lemma_str_close_bounds(s, i + 1, st.quote, c);
            assert(st.out + s.subrange(i, ce) =~= st2.out + s.subrange(i + 1, ce2));
        }
    }
}

/// No character of a string or template literal is altered: at an opening
/// quote (outside any literal), the whole literal, quotes included, is
/// emitted exactly as it stands in the input.
pub proof fn lemma_js_string_span(s: Seq<char>, i: int, st: JsState)
    requires
        !st.in_str,
        0 <= i < s.len(),
        s[i] == '"' || s[i] == '\'' || s[i] == '`',
    ensures
        crate::strutil::starts_with(
            js_scan(s, i, st),
            st.out + s.subrange(i, str_close_end(s, i + 1, s[i], s[i])),
        ),
{
    let c = s[i];
    lemma_js_step(s, i, st);
    let (i2, st2) = js_step(s, i, st);
    assert(i2 == i + 1 && st2.out == st.out.push(c) && st2.in_str && st2.quote == c && st2.last
        == c);
    lemma_js_string_verbatim(s, i + 1, st2);
    let ce = str_close_end(s, i + 1, c, c);
    lemma_str_close_bounds(s, i + 1, c, c);
    assert(st.out + s.subrange(i, ce) =~= st2.out + s.subrange(i + 1, ce));
}

/// The output of the JS scanner is never longer than what remains of the
/// input plus what was already emitted.
pub proof fn lemma_js_len(s: Seq<char>, i: int, st: JsState)
    requires
        0 <= i <= s.len(),
    ensures
        js_scan(s, i, st).len() <= st.out.len() + (s.len() - i),
    decreases s.len() - i,
{
    if i < s.len() && !js_stops(s, i, st) {
        lemma_js_step(s, i, st);
        let (i2, st2) = js_step(s, i, st);
        lemma_js_len(s, i2, st2);
    }
}

} // verus!
