//! Laws of the markup scanner, stated over [`crate::markup::scan`] and proved
//! once and for all: directive spans and verbatim regions are reproduced
//! exactly, comments vanish without a trace, output never grows, and
//! collapsing is idempotent on plain text.

use vstd::prelude::*;
use crate::chars::is_space;
use crate::css::css_never_grows;
use crate::js::js_init;
use crate::markup::{ScanState, scan, scan_step, init_state, spec_minify_html, comment_end,
    tag_name_at, flush_script, flush_style, lemma_comment_end_bounds, lemma_tname_end_bounds};
use crate::strutil::{starts_with, lemma_starts_with_refl, lemma_starts_with_push,
    lemma_starts_with_add, lemma_starts_with_trans};

verus! {

/// A step stays within the input and only appends to the output.
pub proof fn lemma_scan_step_props(s: Seq<char>, i: int, st: ScanState)
    requires
        0 <= i < s.len(),
    ensures
        i + 1 <= scan_step(s, i, st).0 <= s.len(),
        starts_with(scan_step(s, i, st).1.out, st.out),
{
    if i + 4 <= s.len() {
        lemma_comment_end_bounds(s, i + 4, '-', '-');
    }
    lemma_tname_end_bounds(s, i + 1, i + 1);
    let c = s[i];
    lemma_starts_with_refl(st.out);
    lemma_starts_with_push(st.out, c);
    lemma_starts_with_push(st.out, ' ');
    if !st.tpl_brace && !st.tpl_chevron && !(c == '{' && i + 1 < s.len() && (s[i + 1] == '{' || s[i
        + 1] == '%')) {
        if !st.in_script && !st.in_style && !st.in_pre && !st.in_textarea && c == '<' && i + 1
            < s.len() && s[i + 1] == '!' {
            lemma_starts_with_add(st.out, seq!['<', '!', '-']);
            lemma_starts_with_add(st.out, seq!['<', '!']);
        } else if c == '<' {
            let name = tag_name_at(s, i + 1);
            lemma_starts_with_add(st.out, flush_script(st.script_body) + seq!['<'] + name);
            assert(st.out + flush_script(st.script_body) + seq!['<'] + name =~= st.out + (
            flush_script(st.script_body) + seq!['<'] + name));
            lemma_starts_with_add(st.out, flush_style(st.style_body) + seq!['<'] + name);
            assert(st.out + flush_style(st.style_body) + seq!['<'] + name =~= st.out + (flush_style(
                st.style_body,
            ) + seq!['<'] + name));
            lemma_starts_with_add(st.out, seq!['<'] + name);
            assert(st.out + seq!['<'] + name =~= st.out + (seq!['<'] + name));
        }
    }
}

/// The scanner only appends: its final output extends whatever was emitted
/// before.
pub proof fn lemma_scan_prefix(s: Seq<char>, i: int, st: ScanState)
    requires
        0 <= i,
    ensures
        starts_with(scan(s, i, st), st.out),
    decreases s.len() - i,
{
    if i >= s.len() {
        lemma_starts_with_refl(st.out);
    } else {
        lemma_scan_step_props(s, i, st);
        let (i2, st2) = scan_step(s, i, st);
        lemma_scan_prefix(s, i2, st2);
        lemma_starts_with_trans(scan(s, i, st), st2.out, st.out);
    }
}

/// One step's accounting: counting the side buffers as credit, the output
/// grows by at most as many characters as the step consumes. The style flush
/// needs the proviso that the CSS pipeline never grows a fragment.
pub proof fn lemma_scan_step_credit(s: Seq<char>, i: int, st: ScanState)
    requires
        0 <= i < s.len(),
        css_never_grows(),
    ensures
        scan_step(s, i, st).1.out.len() + scan_step(s, i, st).1.script_body.len() + scan_step(
            s,
            i,
            st,
        ).1.style_body.len() <= st.out.len() + st.script_body.len() + st.style_body.len() + (
        scan_step(s, i, st).0 - i),
{
    if i + 4 <= s.len() {
        lemma_comment_end_bounds(s, i + 4, '-', '-');
    }
    lemma_tname_end_bounds(s, i + 1, i + 1);
    crate::js::lemma_js_len(st.script_body, 0, js_init());
    assert(crate::css::spec_minify_css(st.style_body).len() <= st.style_body.len()) by {
        if crate::css::css_min_of(st.style_body) is Some {
        }
    }
}

/// Monotonic size: what the scanner still emits is bounded by what it has
/// emitted, the collected bodies, and the characters that remain.
pub proof fn lemma_scan_len(s: Seq<char>, i: int, st: ScanState)
    requires
        0 <= i <= s.len(),
        css_never_grows(),
    ensures
        scan(s, i, st).len() <= st.out.len() + st.script_body.len() + st.style_body.len() + (s.len()
            - i),
    decreases s.len() - i,
{
    if i < s.len() {
        lemma_scan_step_props(s, i, st);
        lemma_scan_step_credit(s, i, st);
        let (i2, st2) = scan_step(s, i, st);
        lemma_scan_len(s, i2, st2);
    }
}

/// Monotonic size of the whole pass: under the proviso that the CSS pipeline
/// never grows a fragment, the minified document is never longer than the
/// original. (The JS sub-minifier needs no proviso: its bound is proved.)
pub proof fn lemma_minify_html_len(s: Seq<char>)
    requires
        css_never_grows(),
    ensures
        spec_minify_html(s).len() <= s.len(),
{
    lemma_scan_len(s, 0, init_state());
}

/// The index of the `}` that closes a directive: the first position at or
/// after `i` holding `}` directly preceded by `q` (`}` for a `{{ ... }}`
/// span, `%` for a `{% ... %}` span), with `prev` the character before `i`.
pub open spec fn tpl_close(s: Seq<char>, i: int, prev: char, q: char) -> int
    decreases s.len() - i,
{
    if i >= s.len() {
        s.len() as int
    } else if s[i] == '}' && prev == q {
        i
    } else {
        tpl_close(s, i + 1, s[i], q)
    }
}

/// The end (exclusive) of a directive span: just past its closing `}`, or the
/// input's end when the directive never closes.
pub open spec fn tpl_span_end(s: Seq<char>, i: int, prev: char, q: char) -> int {
    let k = tpl_close(s, i, prev, q);
    if k < s.len() {
        k + 1
    } else {
        s.len() as int
    }
}

pub proof fn lemma_tpl_close_bounds(s: Seq<char>, i: int, prev: char, q: char)
    requires
        0 <= i <= s.len(),
    ensures
        i <= tpl_close(s, i, prev, q) <= s.len(),
        i <= tpl_span_end(s, i, prev, q) <= s.len(),
    decreases s.len() - i,
{
    if i < s.len() && !(s[i] == '}' && prev == q) {
        lemma_tpl_close_bounds(s, i + 1, s[i], q);
    }
}

/// Inside a `{{ ... }}` directive, everything up to and including the closing
/// `}}` is emitted exactly as it stands in the input.
pub proof fn lemma_brace_run(s: Seq<char>, i: int, st: ScanState)
    requires
        st.tpl_brace,
        st.out.len() > 0,
        0 <= i <= s.len(),
    ensures
        starts_with(scan(s, i, st), st.out + s.subrange(i, tpl_span_end(s, i, st.out.last(), '}'))),
    decreases s.len() - i,
{
    lemma_tpl_close_bounds(s, i, st.out.last(), '}');
    let ce = tpl_span_end(s, i, st.out.last(), '}');
    if i >= s.len() {
        assert(st.out + s.subrange(i, ce) =~= st.out);
        lemma_starts_with_refl(st.out);
    } else {
        let c = s[i];
        let (i2, st2) = scan_step(s, i, st);
        assert(i2 == i + 1 && st2.out == st.out.push(c));
        if c == '}' && st.out.last() == '}' {
            // the span closes here; the brace itself is still emitted
            lemma_scan_prefix(s, i + 1, st2);
            assert(st.out + s.subrange(i, ce) =~= st2.out);
        } else {
            assert(st2.tpl_brace);
            lemma_brace_run(s, i + 1, st2);
            lemma_tpl_close_bounds(s, i + 1, c, '}');
            assert(st.out + s.subrange(i, ce) =~= st2.out + s.subrange(
                i + 1,
                tpl_span_end(s, i + 1, c, '}'),
            ));
        }
    }
}

/// Inside a `{% ... %}` directive, everything up to and including the closing
/// `%}` is emitted exactly as it stands in the input.
pub proof fn lemma_chevron_run(s: Seq<char>, i: int, st: ScanState)
    requires
        st.tpl_chevron,
        st.out.len() > 0,
        0 <= i <= s.len(),
    ensures
        starts_with(scan(s, i, st), st.out + s.subrange(i, tpl_span_end(s, i, st.out.last(), '%'))),
    decreases s.len() - i,
{
    lemma_tpl_close_bounds(s, i, st.out.last(), '%');
    let ce = tpl_span_end(s, i, st.out.last(), '%');
    if i >= s.len() {
        assert(st.out + s.subrange(i, ce) =~= st.out);
        lemma_starts_with_refl(st.out);
    } else {
        let c = s[i];
        let (i2, st2) = scan_step(s, i, st);
        assert(i2 == i + 1 && st2.out == st.out.push(c));
        if c == '}' && st.out.last() == '%' {
            lemma_scan_prefix(s, i + 1, st2);
            assert(st.out + s.subrange(i, ce) =~= st2.out);
        } else {
            assert(st2.tpl_chevron);
            lemma_chevron_run(s, i + 1, st2);
            lemma_tpl_close_bounds(s, i + 1, c, '%');
            assert(st.out + s.subrange(i, ce) =~= st2.out + s.subrange(
                i + 1,
                tpl_span_end(s, i + 1, c, '%'),
            ));
        }
    }
}

/// Template-directive preservation for `{{ ... }}`: at a directive opener
/// reached outside any directive, the whole span, delimiters and internal
/// whitespace included, appears in the output exactly as written, directly
/// after what was already emitted.
pub proof fn lemma_template_brace_preserved(s: Seq<char>, i: int, st: ScanState)
    requires
        !st.tpl_brace,
        !st.tpl_chevron,
        0 <= i,
        i + 1 < s.len(),
        s[i] == '{',
        s[i + 1] == '{',
    ensures
        starts_with(scan(s, i, st), st.out + s.subrange(i, tpl_span_end(s, i + 2, '{', '}'))),
{
    let (i1, st1) = scan_step(s, i, st);
    assert(i1 == i + 1 && st1.out == st.out.push('{') && st1.tpl_brace && !st1.tpl_chevron);
    let (i2, st2) = scan_step(s, i + 1, st1);
    assert(i2 == i + 2 && st2.out == st1.out.push('{') && st2.tpl_brace);
    assert(scan(s, i, st) == scan(s, i + 1, st1));
    assert(scan(s, i + 1, st1) == scan(s, i + 2, st2));
    assert(st2.out.last() == '{');
    lemma_tpl_close_bounds(s, i + 2, '{', '}');
    let ce = tpl_span_end(s, i + 2, '{', '}');
    if i + 2 >= s.len() {
        assert(scan(s, i + 2, st2) == st2.out);
        assert(st.out + s.subrange(i, ce) =~= st2.out);
        lemma_starts_with_refl(st2.out);
    } else {
        lemma_brace_run(s, i + 2, st2);
        assert(st.out + s.subrange(i, ce) =~= st2.out + s.subrange(i + 2, ce));
    }
}

/// Template-directive preservation for `{% ... %}`: as above, for the
/// chevron syntax.
pub proof fn lemma_template_chevron_preserved(s: Seq<char>, i: int, st: ScanState)
    requires
        !st.tpl_brace,
        !st.tpl_chevron,
        0 <= i,
        i + 1 < s.len(),
        s[i] == '{',
        s[i + 1] == '%',
    ensures
        starts_with(scan(s, i, st), st.out + s.subrange(i, tpl_span_end(s, i + 2, '%', '%'))),
{
    let (i1, st1) = scan_step(s, i, st);
    assert(i1 == i + 1 && st1.out == st.out.push('{') && st1.tpl_chevron && !st1.tpl_brace);
    let (i2, st2) = scan_step(s, i + 1, st1);
    assert(i2 == i + 2 && st2.out == st1.out.push('%') && st2.tpl_chevron);
    assert(scan(s, i, st) == scan(s, i + 1, st1));
    assert(scan(s, i + 1, st1) == scan(s, i + 2, st2));
    assert(st2.out.last() == '%');
    lemma_tpl_close_bounds(s, i + 2, '%', '%');
    let ce = tpl_span_end(s, i + 2, '%', '%');
    if i + 2 >= s.len() {
        assert(scan(s, i + 2, st2) == st2.out);
        assert(st.out + s.subrange(i, ce) =~= st2.out);
        lemma_starts_with_refl(st2.out);
    } else {
        lemma_chevron_run(s, i + 2, st2);
        assert(st.out + s.subrange(i, ce) =~= st2.out + s.subrange(i + 2, ce));
    }
}

/// Comment removal: at `<!--` reached outside every special region, the
/// output is exactly the output of the document with the whole comment
/// skipped — nothing of the comment, and no partial fragment of it, is
/// emitted.
pub proof fn lemma_comment_removed(s: Seq<char>, i: int, st: ScanState)
    requires
        !st.in_script,
        !st.in_style,
        !st.in_pre,
        !st.in_textarea,
        !st.tpl_brace,
        !st.tpl_chevron,
        0 <= i,
        i + 3 < s.len(),
        s[i] == '<',
        s[i + 1] == '!',
        s[i + 2] == '-',
        s[i + 3] == '-',
    ensures
        scan(s, i, st) == scan(
            s,
            comment_end(s, i + 4, '-', '-'),
            (ScanState { last_space: false, ..st }),
        ),
{
}

/// Verbatim region preservation: inside `pre` or `textarea`, a span that
/// holds neither `<` nor `{` is emitted exactly as it stands in the input,
/// whitespace included.
pub proof fn lemma_verbatim_run(s: Seq<char>, i: int, e: int, st: ScanState)
    requires
        st.in_pre || st.in_textarea,
        !st.in_tag,
        !st.in_script,
        !st.in_style,
        !st.tpl_brace,
        !st.tpl_chevron,
        0 <= i <= e <= s.len(),
        forall|j: int| i <= j < e ==> s[j] != '<' && s[j] != '{',
    ensures
        scan(s, i, st) == scan(
            s,
            e,
            (ScanState {
                out: st.out + s.subrange(i, e),
                last_space: if i < e {
                    false
                } else {
                    st.last_space
                },
                ..st
            }),
        ),
    decreases e - i,
{
    if i >= e {
        assert(st.out + s.subrange(i, e) =~= st.out);
        assert((ScanState { out: st.out + s.subrange(i, e), last_space: st.last_space, ..st })
            == st);
    } else {
        let c = s[i];
        let (i2, st2) = scan_step(s, i, st);
        assert(i2 == i + 1 && st2 == (ScanState {
            out: st.out.push(c),
            last_space: false,
            ..st
        }));
        lemma_verbatim_run(s, i + 1, e, st2);
        assert(st2.out + s.subrange(i + 1, e) =~= st.out + s.subrange(i, e));
    }
}

/// Plain-text whitespace collapsing, as its own little machine: runs of
/// whitespace become one space, none at the very start of the output.
pub open spec fn text_collapse(s: Seq<char>, i: int, ls: bool, out: Seq<char>) -> Seq<char>
    decreases s.len() - i,
{
    if i >= s.len() {
        out
    } else if is_space(s[i]) {
        if !ls && out.len() > 0 {
            text_collapse(s, i + 1, true, out.push(' '))
        } else {
            text_collapse(s, i + 1, ls, out)
        }
    } else {
        text_collapse(s, i + 1, false, out.push(s[i]))
    }
}

/// A document that holds neither `<` nor `{` from position `i` on.
pub open spec fn no_markup_from(s: Seq<char>, i: int) -> bool {
    forall|j: int| i <= j < s.len() ==> s[j] != '<' && s[j] != '{'
}

/// On a document without `<` and `{`, the scanner is exactly the plain-text
/// collapse.
pub proof fn lemma_scan_plain(s: Seq<char>, i: int, st: ScanState)
    requires
        !st.in_tag,
        !st.in_script,
        !st.in_style,
        !st.in_pre,
        !st.in_textarea,
        !st.tpl_brace,
        !st.tpl_chevron,
        0 <= i <= s.len(),
        no_markup_from(s, i),
    ensures
        scan(s, i, st) == text_collapse(s, i, st.last_space, st.out),
    decreases s.len() - i,
{
    if i < s.len() {
        let (i2, st2) = scan_step(s, i, st);
        lemma_scan_plain(s, i + 1, st2);
    }
}

/// The shape of already-collapsed text: every whitespace character is a
/// plain space, none leads the text, and no two stand together.
pub open spec fn collapsed(t: Seq<char>) -> bool {
    &&& forall|j: int| 0 <= j < t.len() && is_space(#[trigger] t[j]) ==> t[j] == ' '
    &&& t.len() > 0 ==> !is_space(t[0])
    &&& forall|j: int| 1 <= j < t.len() && #[trigger] t[j] == ' ' ==> t[j - 1] != ' '
}

/// Collapsing yields collapsed text and introduces no `<` or `{`.
pub proof fn lemma_collapse_props(s: Seq<char>, i: int, ls: bool, out: Seq<char>)
    requires
        collapsed(out),
        ls <==> (out.len() > 0 && out.last() == ' '),
        0 <= i <= s.len(),
        no_markup_from(s, i),
        forall|j: int| 0 <= j < out.len() ==> out[j] != '<' && out[j] != '{',
    ensures
        collapsed(text_collapse(s, i, ls, out)),
        forall|j: int|
            0 <= j < text_collapse(s, i, ls, out).len() ==> text_collapse(s, i, ls, out)[j] != '<'
                && text_collapse(s, i, ls, out)[j] != '{',
    decreases s.len() - i,
{
    if i < s.len() {
        let c = s[i];
        if is_space(c) {
            if !ls && out.len() > 0 {
                let out2 = out.push(' ');
                assert(collapsed(out2));
                lemma_collapse_props(s, i + 1, true, out2);
            } else {
                lemma_collapse_props(s, i + 1, ls, out);
            }
        } else {
            let out2 = out.push(c);
            assert(c != ' ');
            assert(collapsed(out2));
            lemma_collapse_props(s, i + 1, false, out2);
        }
    }
}

/// Collapsing collapsed text changes nothing.
pub proof fn lemma_collapse_of_collapsed(t: Seq<char>, i: int)
    requires
        collapsed(t),
        0 <= i <= t.len(),
    ensures
        text_collapse(t, i, (i > 0 && t[i - 1] == ' '), t.subrange(0, i)) == t,
    decreases t.len() - i,
{
    if i >= t.len() {
        assert(t.subrange(0, i) =~= t);
    } else {
        let c = t[i];
        let out = t.subrange(0, i);
        if is_space(c) {
            assert(c == ' ');
            assert(i > 0);
            assert(t[i - 1] != ' ');
            assert(out.len() == i);
            lemma_collapse_of_collapsed(t, i + 1);
            assert(out.push(' ') =~= t.subrange(0, i + 1));
        } else {
            assert(c != ' ');
            lemma_collapse_of_collapsed(t, i + 1);
            assert(out.push(c) =~= t.subrange(0, i + 1));
        }
    }
}

/// Whitespace idempotence on plain text: on a document without `<` and `{`,
/// minifying twice is minifying once. (With markup the second pass can
/// differ: a minified script body, fed to the JS minifier again, need not
/// come back unchanged.)
pub proof fn lemma_minify_idempotent_plain(s: Seq<char>)
    requires
        no_markup_from(s, 0),
    ensures
        spec_minify_html(spec_minify_html(s)) == spec_minify_html(s),
{
    lemma_scan_plain(s, 0, init_state());
    lemma_collapse_props(s, 0, false, Seq::empty());
    let m = spec_minify_html(s);
    assert(m == text_collapse(s, 0, false, Seq::empty()));
    lemma_scan_plain(m, 0, init_state());
    lemma_collapse_of_collapsed(m, 0);
    assert(m.subrange(0, 0) =~= Seq::<char>::empty());
}

} // verus!
