//! The markup minifier: a single-pass scanner over the document text.
//!
//! Outside any special region, runs of whitespace collapse to one space (none
//! at the very start of the output) and `<!-- ... -->` comments disappear.
//! `{{ ... }}` and `{% ... %}` template directives are reproduced verbatim
//! and cannot be interrupted by any other rule. Tag names are folded to
//! lower case. The bodies of `script` and `style` elements are collected and
//! handed to the JS and CSS sub-minifiers when the closing tag arrives;
//! whitespace-only bodies are dropped. The content of `pre` and `textarea`
//! elements is reproduced exactly: no collapsing and no comment stripping
//! (a comment there is content). Malformed input never fails: end of input
//! ends a comment (discarded), a directive or a tag (kept as emitted), or a
//! script or style body (dropped, since its closing tag never came).

use vstd::prelude::*;
use vstd::string::*;
use crate::chars::{is_space, all_space, lower_seq};
use crate::chars::{is_space_c, lower_c};
use crate::js::spec_minify_js;
use crate::css::spec_minify_css;
use crate::strutil::{eq_str, all_space_str};

verus! {

/// The scanner's state between two input characters.
pub struct ScanState {
    /// inside tag markup, between `<` and `>`
    pub in_tag: bool,
    /// inside a `script` element's body
    pub in_script: bool,
    /// inside a `style` element's body
    pub in_style: bool,
    /// inside a `pre` element
    pub in_pre: bool,
    /// inside a `textarea` element
    pub in_textarea: bool,
    /// inside a `{{ ... }}` directive
    pub tpl_brace: bool,
    /// inside a `{% ... %}` directive
    pub tpl_chevron: bool,
    /// whether the character emitted last was a collapsed space
    pub last_space: bool,
    /// the script body collected so far
    pub script_body: Seq<char>,
    /// the style body collected so far
    pub style_body: Seq<char>,
    /// everything emitted so far
    pub out: Seq<char>,
}

/// The scanner's state at the start of a document.
pub open spec fn init_state() -> ScanState {
    ScanState {
        in_tag: false,
        in_script: false,
        in_style: false,
        in_pre: false,
        in_textarea: false,
        tpl_brace: false,
        tpl_chevron: false,
        last_space: false,
        script_body: Seq::empty(),
        style_body: Seq::empty(),
        out: Seq::empty(),
    }
}

/// The position just past the `-->` that ends a comment, scanning from `i`
/// with `p2` and `p1` the two characters consumed last; the input's length
/// when the comment never ends.
pub open spec fn comment_end(s: Seq<char>, i: int, p2: char, p1: char) -> int
    decreases s.len() - i,
{
    if i >= s.len() {
        s.len() as int
    } else if s[i] == '>' && p1 == '-' && p2 == '-' {
        i + 1
    } else {
        comment_end(s, i + 1, p1, s[i])
    }
}

/// Where a tag name that begins at `start` ends: at whitespace, at `>`, or at
/// a `/` that is not the name's first character.
pub open spec fn tname_end(s: Seq<char>, i: int, start: int) -> int
    decreases s.len() - i,
{
    if i >= s.len() {
        s.len() as int
    } else if is_space(s[i]) || s[i] == '>' {
        i
    } else if s[i] == '/' && i > start {
        i
    } else {
        tname_end(s, i + 1, start)
    }
}

/// The lower-cased tag name that begins at `i`.
pub open spec fn tag_name_at(s: Seq<char>, i: int) -> Seq<char> {
    lower_seq(s.subrange(i, tname_end(s, i, i)))
}

pub proof fn lemma_comment_end_bounds(s: Seq<char>, i: int, p2: char, p1: char)
    requires
        i <= s.len(),
    ensures
        i <= comment_end(s, i, p2, p1) <= s.len(),
    decreases s.len() - i,
{
    if i < s.len() && !(s[i] == '>' && p1 == '-' && p2 == '-') {
        lemma_comment_end_bounds(s, i + 1, p1, s[i]);
    }
}

pub proof fn lemma_tname_end_bounds(s: Seq<char>, i: int, start: int)
    requires
        i <= s.len(),
    ensures
        i <= tname_end(s, i, start) <= s.len(),
    decreases s.len() - i,
{
    if i < s.len() && !(is_space(s[i]) || s[i] == '>') && !(s[i] == '/' && i > start) {
        lemma_tname_end_bounds(s, i + 1, start);
    }
}

pub open spec fn w_script() -> Seq<char> {
    seq!['s', 'c', 'r', 'i', 'p', 't']
}

pub open spec fn w_style() -> Seq<char> {
    seq!['s', 't', 'y', 'l', 'e']
}

pub open spec fn w_pre() -> Seq<char> {
    seq!['p', 'r', 'e']
}

pub open spec fn w_textarea() -> Seq<char> {
    seq!['t', 'e', 'x', 't', 'a', 'r', 'e', 'a']
}

pub open spec fn w_close_script() -> Seq<char> {
    seq!['/', 's', 'c', 'r', 'i', 'p', 't']
}

pub open spec fn w_close_style() -> Seq<char> {
    seq!['/', 's', 't', 'y', 'l', 'e']
}

pub open spec fn w_close_pre() -> Seq<char> {
    seq!['/', 'p', 'r', 'e']
}

pub open spec fn w_close_textarea() -> Seq<char> {
    seq!['/', 't', 'e', 'x', 't', 'a', 'r', 'e', 'a']
}

/// What a closing `script` or `style` tag flushes: the minified body, or
/// nothing when the body is whitespace only.
pub open spec fn flush_script(body: Seq<char>) -> Seq<char> {
    if !all_space(body) {
        spec_minify_js(body)
    } else {
        Seq::empty()
    }
}

pub open spec fn flush_style(body: Seq<char>) -> Seq<char> {
    if !all_space(body) {
        spec_minify_css(body)
    } else {
        Seq::empty()
    }
}

/// One step of the markup scanner at position `i` in state `st`: the next
/// position and the next state. Meaningful only for `i` within the input.
pub open spec fn scan_step(s: Seq<char>, i: int, st: ScanState) -> (int, ScanState) {
    let c = s[i];
    if c == '{' && i + 1 < s.len() && (s[i + 1] == '{' || s[i + 1] == '%') {
        // a directive opens (or, inside one, the brace is just emitted)
        (i + 1,
            ScanState {
                tpl_brace: st.tpl_brace || s[i + 1] == '{',
                tpl_chevron: st.tpl_chevron || s[i + 1] == '%',
                out: st.out.push(c),
                ..st
            },
        )
    } else if st.tpl_brace || st.tpl_chevron {
        // inside a directive everything is emitted verbatim
        if st.tpl_brace && c == '}' && st.out.len() >= 1 && st.out.last() == '}' {
            (i + 1,
                ScanState { tpl_brace: false, last_space: false, out: st.out.push(c), ..st },
            )
        } else if st.tpl_chevron && c == '}' && st.out.len() >= 1 && st.out.last() == '%' {
            (i + 1,
                ScanState { tpl_chevron: false, last_space: false, out: st.out.push(c), ..st },
            )
        } else {
            (i + 1, ScanState { last_space: false, out: st.out.push(c), ..st })
        }
    } else if !st.in_script && !st.in_style && !st.in_pre && !st.in_textarea && c == '<' && i
        + 1 < s.len() && s[i + 1] == '!' {
        if i + 3 < s.len() && s[i + 2] == '-' && s[i + 3] == '-' {
            // a comment: discarded up to and including the closing `-->`
            (comment_end(s, i + 4, '-', '-'), ScanState { last_space: false, ..st })
        } else if i + 2 < s.len() && s[i + 2] == '-' {
            (i + 3, ScanState { out: st.out + seq!['<', '!', '-'], ..st })
        } else {
            (i + 2, ScanState { out: st.out + seq!['<', '!'], ..st })
        }
    } else if c == '<' {
        if st.in_script && tag_name_at(s, i + 1) != w_close_script() {
            // not this element's closing tag: body content
            (i + 1,
                ScanState { script_body: st.script_body.push(c), last_space: false, ..st },
            )
        } else if st.in_style && tag_name_at(s, i + 1) != w_close_style() {
            (i + 1,
                ScanState { style_body: st.style_body.push(c), last_space: false, ..st },
            )
        } else {
            let e = tname_end(s, i + 1, i + 1);
            let name = tag_name_at(s, i + 1);
            if name == w_close_script() {
                // the collected body is minified and emitted before the tag
                (e,
                    ScanState {
                        in_tag: true,
                        in_script: false,
                        last_space: false,
                        script_body: Seq::empty(),
                        out: st.out + flush_script(st.script_body) + seq!['<'] + name,
                        ..st
                    },
                )
            } else if name == w_close_style() {
                (e,
                    ScanState {
                        in_tag: true,
                        in_style: false,
                        last_space: false,
                        style_body: Seq::empty(),
                        out: st.out + flush_style(st.style_body) + seq!['<'] + name,
                        ..st
                    },
                )
            } else {
                (e,
                    ScanState {
                        in_tag: true,
                        in_script: st.in_script || name == w_script(),
                        in_style: st.in_style || name == w_style(),
                        in_pre: if name == w_pre() {
                            true
                        } else if name == w_close_pre() {
                            false
                        } else {
                            st.in_pre
                        },
                        in_textarea: if name == w_textarea() {
                            true
                        } else if name == w_close_textarea() {
                            false
                        } else {
                            st.in_textarea
                        },
                        last_space: false,
                        script_body: if name == w_script() {
                            Seq::empty()
                        } else {
                            st.script_body
                        },
                        style_body: if name == w_style() {
                            Seq::empty()
                        } else {
                            st.style_body
                        },
                        out: st.out + seq!['<'] + name,
                        ..st
                    },
                )
            }
        }
    } else if !st.in_tag && st.in_script {
        (i + 1,
            ScanState { script_body: st.script_body.push(c), last_space: false, ..st },
        )
    } else if !st.in_tag && st.in_style {
        (i + 1, ScanState { style_body: st.style_body.push(c), last_space: false, ..st })
    } else if c == '>' {
        (i + 1, ScanState { in_tag: false, last_space: false, out: st.out.push(c), ..st })
    } else if st.in_pre || st.in_textarea {
        (i + 1, ScanState { last_space: false, out: st.out.push(c), ..st })
    } else if st.in_tag {
        if is_space(c) {
            if !st.last_space {
                (i + 1, ScanState { last_space: true, out: st.out.push(' '), ..st })
            } else {
                (i + 1, st)
            }
        } else {
            (i + 1, ScanState { last_space: false, out: st.out.push(c), ..st })
        }
    } else {
        if is_space(c) {
            if !st.last_space && st.out.len() > 0 {
                (i + 1, ScanState { last_space: true, out: st.out.push(' '), ..st })
            } else {
                (i + 1, st)
            }
        } else {
            (i + 1, ScanState { last_space: false, out: st.out.push(c), ..st })
        }
    }
}

/// One pass of the markup scanner from position `i` in state `st`; the
/// result is the complete output for the rest of the document.
pub open spec fn scan(s: Seq<char>, i: int, st: ScanState) -> Seq<char>
    decreases s.len() - i,
        via scan_dec
{
    if i >= s.len() {
        st.out
    } else {
        scan(s, scan_step(s, i, st).0, scan_step(s, i, st).1)
    }
}

#[via_fn]
proof fn scan_dec(s: Seq<char>, i: int, st: ScanState) {
    if i < s.len() {
        if i + 4 <= s.len() {
            lemma_comment_end_bounds(s, i + 4, '-', '-');
        }
        lemma_tname_end_bounds(s, i + 1, i + 1);
    }
}

/// The minified form of a whole document.
pub open spec fn spec_minify_html(s: Seq<char>) -> Seq<char> {
    scan(s, 0, init_state())
}

/// The eight tag words the scanner treats specially, as the views of their
/// string literals.
pub proof fn lemma_words()
    ensures
        "script"@ == w_script(),
        "style"@ == w_style(),
        "pre"@ == w_pre(),
        "textarea"@ == w_textarea(),
        "/script"@ == w_close_script(),
        "/style"@ == w_close_style(),
        "/pre"@ == w_close_pre(),
        "/textarea"@ == w_close_textarea(),
{
    reveal_strlit("script");
    reveal_strlit("style");
    reveal_strlit("pre");
    reveal_strlit("textarea");
    reveal_strlit("/script");
    reveal_strlit("/style");
    reveal_strlit("/pre");
    reveal_strlit("/textarea");
    assert("script"@ =~= w_script());
    assert("style"@ =~= w_style());
    assert("pre"@ =~= w_pre());
    assert("textarea"@ =~= w_textarea());
    assert("/script"@ =~= w_close_script());
    assert("/style"@ =~= w_close_style());
    assert("/pre"@ =~= w_close_pre());
    assert("/textarea"@ =~= w_close_textarea());
}

/// Reads the lower-cased tag name that begins at `from` and reports where it
/// ends, without consuming anything else.
fn read_tag_name(doc: &str, from: usize) -> (r: (String, usize))
    requires
        from <= doc@.len(),
    ensures
        r.1 as int == tname_end(doc@, from as int, from as int),
        r.0@ == tag_name_at(doc@, from as int),
        from <= r.1 <= doc@.len(),
{
    let n = doc.unicode_len();
    let mut name = String::new();
    let mut j = from;
    let mut stop = false;
    proof {
        assert(name@ =~= lower_seq(doc@.subrange(from as int, from as int)));
    }
    while j < n && !stop
        invariant
            n == doc@.len(),
            from <= j <= n,
            !stop ==> tname_end(doc@, from as int, from as int) == tname_end(
                doc@,
                j as int,
                from as int,
            ),
            stop ==> tname_end(doc@, from as int, from as int) == j as int,
            name@ == lower_seq(doc@.subrange(from as int, j as int)),
        decreases n - j, (if stop { 0int } else { 1int }),
    {
        let cc = doc.get_char(j);
        if is_space_c(cc) || cc == '>' || (cc == '/' && j > from) {
            stop = true;
        } else {
            name.push(lower_c(cc));
            j += 1;
            proof {
                assert(name@ =~= lower_seq(doc@.subrange(from as int, j as int)));
            }
        }
    }
    proof {
        assert(tname_end(doc@, from as int, from as int) == j as int);
        assert(name@ == tag_name_at(doc@, from as int));
    }
    (name, j)
}

/// Minifies one whole document; the output is exactly what the scanner
/// [`scan`] produces from the initial state.
pub fn minify_html(content: &str) -> (r: String)
    ensures
        r@ == spec_minify_html(content@),
{
    let n = content.unicode_len();
    let mut out = String::new();
    let mut script_content = String::new();
    let mut style_content = String::new();
    let mut in_tag = false;
    let mut in_script = false;
    let mut in_style = false;
    let mut in_pre = false;
    let mut in_textarea = false;
    let mut tpl_brace = false;
    let mut tpl_chevron = false;
    let mut last_space = false;
    let mut prev: char = '\0';
    let mut out_empty = true;
    let mut i: usize = 0;
    proof {
        assert(out@ =~= Seq::<char>::empty());
        assert(script_content@ =~= Seq::<char>::empty());
        assert(style_content@ =~= Seq::<char>::empty());
    }
    while i < n
        invariant
            n == content@.len(),
            i <= n,
            scan(
                content@,
                i as int,
                (ScanState {
                    in_tag,
                    in_script,
                    in_style,
                    in_pre,
                    in_textarea,
                    tpl_brace,
                    tpl_chevron,
                    last_space,
                    script_body: script_content@,
                    style_body: style_content@,
                    out: out@,
                }),
            ) == spec_minify_html(content@),
            (tpl_brace || tpl_chevron) ==> out@.len() > 0 && out@.last() == prev,
            out_empty == (out@.len() == 0),
        decreases n - i,
    {
        let ghost s = content@;
        let ghost i0 = i as int;
        let ghost st0 = ScanState {
            in_tag,
            in_script,
            in_style,
            in_pre,
            in_textarea,
            tpl_brace,
            tpl_chevron,
            last_space,
            script_body: script_content@,
            style_body: style_content@,
            out: out@,
        };
        let c = content.get_char(i);
        if c == '{' && i + 1 < n && (content.get_char(i + 1) == '{' || content.get_char(i + 1)
            == '%') {
            let d = content.get_char(i + 1);
            if d == '{' {
                tpl_brace = true;
            } else {
                tpl_chevron = true;
            }
            out.push(c);
            prev = c;
            out_empty = false;
            i = i + 1;
        } else if tpl_brace || tpl_chevron {
            let brace_close = tpl_brace && c == '}' && !out_empty && prev == '}';
            let chev_close = !brace_close && tpl_chevron && c == '}' && !out_empty && prev == '%';
            out.push(c);
            prev = c;
            out_empty = false;
            last_space = false;
            if brace_close {
                tpl_brace = false;
            } else if chev_close {
                tpl_chevron = false;
            }
            i = i + 1;
        } else if !in_script && !in_style && !in_pre && !in_textarea && c == '<' && i + 1 < n
            && content.get_char(i + 1) == '!' {
            let full_comment = i + 2 < n && content.get_char(i + 2) == '-' && i + 3 < n
                && content.get_char(i + 3) == '-';
            if full_comment {
                let mut j = i + 4;
                let mut p2: char = '-';
                let mut p1: char = '-';
                while j < n && !(content.get_char(j) == '>' && p1 == '-' && p2 == '-')
                    invariant
                        n == content@.len(),
                        i0 + 4 <= j <= n,
                        comment_end(content@, i0 + 4, '-', '-') == comment_end(
                            content@,
                            j as int,
                            p2,
                            p1,
                        ),
                    decreases n - j,
                {
                    let cc = content.get_char(j);
                    p2 = p1;
                    p1 = cc;
                    j += 1;
                }
                last_space = false;
                if j < n {
                    i = j + 1;
                } else {
                    i = n;
                }
                proof {
                    assert(comment_end(s, i0 + 4, '-', '-') == i as int);
                }
            } else if i + 2 < n && content.get_char(i + 2) == '-' {
                out.push('<');
                out.push('!');
                out.push('-');
                out_empty = false;
                i = i + 3;
                proof {
                    assert(out@ =~= st0.out + seq!['<', '!', '-']);
                }
            } else {
                out.push('<');
                out.push('!');
                out_empty = false;
                i = i + 2;
                proof {
                    assert(out@ =~= st0.out + seq!['<', '!']);
                }
            }
        } else if c == '<' {
            let (name, e) = read_tag_name(content, i + 1);
            proof {
                lemma_words();
            }
            let is_close_script = eq_str(name.as_str(), "/script");
            let is_close_style = eq_str(name.as_str(), "/style");
            if in_script && !is_close_script {
                script_content.push(c);
                last_space = false;
                i = i + 1;
            } else if in_style && !is_close_style {
                style_content.push(c);
                last_space = false;
                i = i + 1;
            } else if is_close_script {
                if !all_space_str(script_content.as_str()) {
                    let m = crate::js::minify_js(script_content.as_str());
                    out.append(m.as_str());
                }
                script_content = String::new();
                in_script = false;
                out.push('<');
                out.append(name.as_str());
                in_tag = true;
                last_space = false;
                out_empty = false;
                i = e;
                proof {
                    assert(script_content@ =~= Seq::<char>::empty());
                    assert(out@ =~= st0.out + flush_script(st0.script_body) + seq!['<']
                        + tag_name_at(s, i0 + 1));
                }
            } else if is_close_style {
                if !all_space_str(style_content.as_str()) {
                    let m = crate::css::minify_css(style_content.as_str());
                    out.append(m.as_str());
                }
                style_content = String::new();
                in_style = false;
                out.push('<');
                out.append(name.as_str());
                in_tag = true;
                last_space = false;
                out_empty = false;
                i = e;
                proof {
                    assert(style_content@ =~= Seq::<char>::empty());
                    assert(out@ =~= st0.out + flush_style(st0.style_body) + seq!['<']
                        + tag_name_at(s, i0 + 1));
                }
            } else {
                out.push('<');
                out.append(name.as_str());
                if eq_str(name.as_str(), "script") {
                    in_script = true;
                    script_content = String::new();
                } else if eq_str(name.as_str(), "style") {
                    in_style = true;
                    style_content = String::new();
                } else if eq_str(name.as_str(), "pre") {
                    in_pre = true;
                } else if eq_str(name.as_str(), "textarea") {
                    in_textarea = true;
                } else if eq_str(name.as_str(), "/pre") {
                    in_pre = false;
                } else if eq_str(name.as_str(), "/textarea") {
                    in_textarea = false;
                }
                in_tag = true;
                last_space = false;
                out_empty = false;
                i = e;
                proof {
                    assert(out@ =~= st0.out + seq!['<'] + tag_name_at(s, i0 + 1));
                    if tag_name_at(s, i0 + 1) == w_script() {
                        assert(script_content@ =~= Seq::<char>::empty());
                    }
                    if tag_name_at(s, i0 + 1) == w_style() {
                        assert(style_content@ =~= Seq::<char>::empty());
                    }
                }
            }
        } else if !in_tag && in_script {
            script_content.push(c);
            last_space = false;
            i = i + 1;
        } else if !in_tag && in_style {
            style_content.push(c);
            last_space = false;
            i = i + 1;
        } else if c == '>' {
            out.push(c);
            in_tag = false;
            last_space = false;
            out_empty = false;
            i = i + 1;
        } else if in_pre || in_textarea {
            out.push(c);
            last_space = false;
            out_empty = false;
            i = i + 1;
        } else if in_tag {
            if is_space_c(c) {
                if !last_space {
                    out.push(' ');
                    last_space = true;
                    out_empty = false;
                }
            } else {
                out.push(c);
                last_space = false;
                out_empty = false;
            }
            i = i + 1;
        } else {
            if is_space_c(c) {
                if !last_space && !out_empty {
                    out.push(' ');
                    last_space = true;
                    out_empty = false;
                }
            } else {
                out.push(c);
                last_space = false;
                out_empty = false;
            }
            i = i + 1;
        }
    }
    out
}

} // verus!
