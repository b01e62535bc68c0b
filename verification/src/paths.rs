//! Output-path naming and byte-count reporting.
//!
//! Paths are handled as plain strings: the file name is everything after the
//! final `/`, and the extension is everything after the final `.` of the file
//! name, provided that `.` is not its first character. This is the library's
//! own, fully specified model of a path; the driver around it converts real
//! platform paths to strings before calling in.

use vstd::prelude::*;
use vstd::string::*;
use crate::chars::{lower_seq, lower_c};
use crate::strutil::eq_str;

verus! {

/// The index of the last occurrence of `c` in `s`, or `-1` when there is
/// none.
pub open spec fn find_last(s: Seq<char>, c: char) -> int
    decreases s.len(),
{
    if s.len() == 0 {
        -1
    } else if s.last() == c {
        s.len() - 1
    } else {
        find_last(s.drop_last(), c)
    }
}

/// `find_last` names the greatest index holding `c`, and `-1` only when no
/// index does.
pub proof fn lemma_find_last(s: Seq<char>, c: char)
    ensures
        -1 <= find_last(s, c) < s.len(),
        find_last(s, c) >= 0 ==> s[find_last(s, c)] == c,
        forall|j: int| find_last(s, c) < j < s.len() ==> s[j] != c,
    decreases s.len(),
{
    if s.len() > 0 && s.last() != c {
        lemma_find_last(s.drop_last(), c);
        assert(forall|j: int| 0 <= j < s.len() - 1 ==> s.drop_last()[j] == s[j]);
    }
}

/// The file-name part of a path: everything after the final `/`.
pub open spec fn file_name_of(p: Seq<char>) -> Seq<char> {
    p.subrange(find_last(p, '/') + 1, p.len() as int)
}

/// The directory part of a path: everything up to and including the final
/// `/`, empty when there is none.
pub open spec fn dir_of(p: Seq<char>) -> Seq<char> {
    p.subrange(0, find_last(p, '/') + 1)
}

/// True when `p` occurs in `s` starting at `k`.
pub open spec fn match_at(s: Seq<char>, p: Seq<char>, k: int) -> bool {
    0 <= k && k + p.len() <= s.len() && s.subrange(k, k + p.len() as int) == p
}

/// True when `p` occurs somewhere in `s`.
pub open spec fn contains_seq(s: Seq<char>, p: Seq<char>) -> bool {
    exists|k: int| match_at(s, p, k)
}

/// The marker that names an already-minified file.
pub open spec fn min_marker() -> Seq<char> {
    seq!['.', 'm', 'i', 'n', '.']
}

pub open spec fn w_html() -> Seq<char> {
    seq!['h', 't', 'm', 'l']
}

pub open spec fn w_htm() -> Seq<char> {
    seq!['h', 't', 'm']
}

pub open spec fn w_xml() -> Seq<char> {
    seq!['x', 'm', 'l']
}

pub open spec fn w_svg() -> Seq<char> {
    seq!['s', 'v', 'g']
}

/// The default suffix spliced into an output file name.
pub open spec fn default_suffix() -> Seq<char> {
    seq!['m', 'i', 'n']
}

/// Whether a path names a template file the driver should minify: its file
/// name does not carry the `.min.` marker, and its extension is `html`,
/// `htm`, `xml` or `svg` in any letter case.
pub open spec fn spec_is_template_file(p: Seq<char>) -> bool {
    let f = file_name_of(p);
    let d = find_last(f, '.');
    if contains_seq(f, min_marker()) {
        false
    } else if d <= 0 {
        false
    } else {
        let ext = lower_seq(f.subrange(d + 1, f.len() as int));
        ext == w_html() || ext == w_htm() || ext == w_xml() || ext == w_svg()
    }
}

/// The output path for `p` with `suffix` spliced in before the extension:
/// `dir/stem.suffix.ext`, or `dir/stem.suffix` when there is no extension.
/// `None` when the file name has no stem.
pub open spec fn spec_output_path(p: Seq<char>, suffix: Seq<char>) -> Option<Seq<char>> {
    let f = file_name_of(p);
    let d = find_last(f, '.');
    let stem = if d <= 0 {
        f
    } else {
        f.subrange(0, d)
    };
    let ext = if d <= 0 {
        Seq::<char>::empty()
    } else {
        f.subrange(d + 1, f.len() as int)
    };
    if stem.len() == 0 {
        None
    } else if ext.len() == 0 {
        Some(dir_of(p) + stem + seq!['.'] + suffix)
    } else {
        Some(dir_of(p) + stem + seq!['.'] + suffix + seq!['.'] + ext)
    }
}

/// The percentage of bytes that minification removed, rounded toward zero;
/// zero for an empty original.
pub open spec fn spec_reduction(original: int, minified: int) -> int {
    if original > 0 {
        (original - minified) * 100 / original
    } else {
        0
    }
}

/// The index of the last occurrence of `c`, or the string's length when `c`
/// does not occur (so that adding one gives the start of the file name).
fn find_last_in(s: &str, c: char) -> (r: usize)
    ensures
        r as int == if find_last(s@, c) >= 0 {
            find_last(s@, c)
        } else {
            s@.len() as int
        },
{
    proof {
        lemma_find_last(s@, c);
    }
    let n = s.unicode_len();
    let mut k = n;
    while k > 0
        invariant
            n == s@.len(),
            k <= n,
            forall|j: int| k <= j < n ==> s@[j] != c,
        decreases k,
    {
        k = k - 1;
        if s.get_char(k) == c {
            proof {
                lemma_find_last(s@, c);
                let fl = find_last(s@, c);
                assert(fl == k as int) by {
                    if fl < k as int {
                        assert(s@[k as int] != c);
                    }
                    if fl > k as int {
                        assert(s@[fl] != c);
                    }
                }
            }
            return k;
        }
    }
    proof {
        let fl = find_last(s@, c);
        if fl >= 0 {
            assert(s@[fl] != c);
        }
    }
    n
}

/// Whether `.min.` occurs in the string.
fn contains_min_marker(s: &str) -> (r: bool)
    ensures
        r == contains_seq(s@, min_marker()),
{
    let n = s.unicode_len();
    if n < 5 {
        proof {
            assert forall|k: int| !match_at(s@, min_marker(), k) by {}
        }
        return false;
    }
    let mut k: usize = 0;
    while k <= n - 5
        invariant
            n == s@.len(),
            5 <= n,
            k <= n - 4,
            forall|j: int| 0 <= j < k ==> !match_at(s@, min_marker(), j),
        decreases n - k,
    {
        if s.get_char(k) == '.' && s.get_char(k + 1) == 'm' && s.get_char(k + 2) == 'i'
            && s.get_char(k + 3) == 'n' && s.get_char(k + 4) == '.' {
            proof {
                assert(s@.subrange(k as int, k as int + 5) =~= min_marker());
                assert(match_at(s@, min_marker(), k as int));
            }
            return true;
        }
        proof {
            assert(!match_at(s@, min_marker(), k as int));
        }
        k = k + 1;
    }
    proof {
        assert forall|j: int| !match_at(s@, min_marker(), j) by {
            if 0 <= j <= n - 5 {
                assert(!match_at(s@, min_marker(), j));
            }
        }
    }
    false
}

/// The words an extension is held against.
proof fn lemma_ext_words()
    ensures
        "html"@ == w_html(),
        "htm"@ == w_htm(),
        "xml"@ == w_xml(),
        "svg"@ == w_svg(),
{
    reveal_strlit("html");
    reveal_strlit("htm");
    reveal_strlit("xml");
    reveal_strlit("svg");
    assert("html"@ =~= w_html());
    assert("htm"@ =~= w_htm());
    assert("xml"@ =~= w_xml());
    assert("svg"@ =~= w_svg());
}

/// Builds the lower-cased copy of `s@[from..to]`.
fn lower_part(s: &str, from: usize, to: usize) -> (r: String)
    requires
        from <= to <= s@.len(),
    ensures
        r@ == lower_seq(s@.subrange(from as int, to as int)),
{
    let mut out = String::new();
    let mut k = from;
    proof {
        assert(out@ =~= lower_seq(s@.subrange(from as int, from as int)));
    }
    while k < to
        invariant
            from <= k <= to <= s@.len(),
            out@ == lower_seq(s@.subrange(from as int, k as int)),
        decreases to - k,
    {
        out.push(lower_c(s.get_char(k)));
        k = k + 1;
        proof {
            assert(out@ =~= lower_seq(s@.subrange(from as int, k as int)));
        }
    }
    out
}

/// Copies `s@[from..to]` onto the end of `out`.
fn push_part(out: &mut String, s: &str, from: usize, to: usize)
    requires
        from <= to <= s@.len(),
    ensures
        final(out)@ == old(out)@ + s@.subrange(from as int, to as int),
{
    let mut k = from;
    proof {
        assert(out@ =~= out@ + s@.subrange(from as int, from as int));
    }
    while k < to
        invariant
            from <= k <= to <= s@.len(),
            out@ == old(out)@ + s@.subrange(from as int, k as int),
        decreases to - k,
    {
        out.push(s.get_char(k));
        k = k + 1;
        proof {
            assert(out@ =~= old(out)@ + s@.subrange(from as int, k as int));
        }
    }
}

/// Whether a path names a template file that the driver should minify.
/// Already-minified files (`.min.` in the name) are skipped, and only the
/// extensions `html`, `htm`, `xml` and `svg` count, in any letter case.
pub fn is_template_file(path: &str) -> (r: bool)
    ensures
        r == spec_is_template_file(path@),
{
    proof {
        lemma_find_last(path@, '/');
        lemma_ext_words();
    }
    let n = path.unicode_len();
    let slash = find_last_in(path, '/');
    let fstart = if slash < n {
        slash + 1
    } else {
        // no `/` in the path: the whole of it is the file name
        0
    };
    let mut fname = String::new();
    push_part(&mut fname, path, fstart, n);
    proof {
        assert(fname@ =~= file_name_of(path@));
    }
    if contains_min_marker(fname.as_str()) {
        return false;
    }
    proof {
        lemma_find_last(fname@, '.');
    }
    let fn_len = fname.unicode_len();
    let dot = find_last_in(fname.as_str(), '.');
    if dot >= fn_len || dot == 0 {
        return false;
    }
    let ext = lower_part(fname.as_str(), dot + 1, fn_len);
    eq_str(ext.as_str(), "html") || eq_str(ext.as_str(), "htm") || eq_str(ext.as_str(), "xml")
        || eq_str(ext.as_str(), "svg")
}

/// The output path for `path` with `suffix` spliced in before the extension:
/// `dir/stem.suffix.ext`, or `dir/stem.suffix` for a file name without an
/// extension. A path whose file name is empty has no output path and comes
/// back as the error.
pub fn generate_output_path(path: &str, suffix: &str) -> (r: Result<String, String>)
    ensures
        spec_output_path(path@, suffix@) is Some ==> r is Ok && r->Ok_0@ == spec_output_path(
            path@,
            suffix@,
        )->0,
        spec_output_path(path@, suffix@) is None ==> r is Err && r->Err_0@ == path@,
{
    proof {
        lemma_find_last(path@, '/');
    }
    let n = path.unicode_len();
    let slash = find_last_in(path, '/');
    let fstart = if slash < n {
        slash + 1
    } else {
        0
    };
    let mut fname = String::new();
    push_part(&mut fname, path, fstart, n);
    proof {
        assert(fname@ =~= file_name_of(path@));
        lemma_find_last(fname@, '.');
    }
    let fn_len = fname.unicode_len();
    let dot = find_last_in(fname.as_str(), '.');
    let has_dot = dot < fn_len && dot > 0;
    let stem_end = if has_dot {
        dot
    } else {
        fn_len
    };
    if stem_end == 0 {
        return Err(path.to_owned());
    }
    let mut out = String::new();
    push_part(&mut out, path, 0, fstart);
    push_part(&mut out, fname.as_str(), 0, stem_end);
    out.push('.');
    out.append(suffix);
    if has_dot && dot + 1 < fn_len {
        out.push('.');
        push_part(&mut out, fname.as_str(), dot + 1, fn_len);
        proof {
            assert(out@ =~= spec_output_path(path@, suffix@)->0);
        }
    } else {
        proof {
            assert(out@ =~= spec_output_path(path@, suffix@)->0);
        }
    }
    Ok(out)
}

/// The output path the driver uses: the explicit output path when one was
/// given, else the input path with the suffix (default `min`) spliced in.
pub fn resolve_output_path(path: &str, output: Option<&str>, suffix: Option<&str>) -> (r: Result<
    String,
    String,
>)
    ensures
        output is Some ==> r is Ok && r->Ok_0@ == output->0@,
        output is None ==> {
            let suf = if suffix is Some {
                suffix->0@
            } else {
                default_suffix()
            };
            &&& spec_output_path(path@, suf) is Some ==> r is Ok && r->Ok_0@ == spec_output_path(
                path@,
                suf,
            )->0
            &&& spec_output_path(path@, suf) is None ==> r is Err && r->Err_0@ == path@
        },
{
    match output {
        Some(o) => Ok(o.to_owned()),
        None => {
            match suffix {
                Some(x) => generate_output_path(path, x),
                None => {
                    proof {
                        reveal_strlit("min");
                        assert("min"@ =~= default_suffix());
                    }
                    generate_output_path(path, "min")
                },
            }
        },
    }
}

/// The percentage of bytes that minification removed, rounded toward zero;
/// zero for an empty original. Callers hand in a minified size no greater
/// than the original size.
pub fn calculate_reduction_percent(original_size: usize, minified_size: usize) -> (r: i32)
    requires
        minified_size <= original_size,
    ensures
        r as int == spec_reduction(original_size as int, minified_size as int),
{
    if original_size > 0 {
        let diff = (original_size - minified_size) as u128;
        let pct = diff * 100 / (original_size as u128);
        proof {
            let o = original_size as int;
            let dd = (original_size - minified_size) as int;
            assert(dd * 100 / o <= 100) by (nonlinear_arith)
                requires
                    0 <= dd <= o,
                    0 < o,
            ;
            assert(pct as int == dd * 100 / o);
        }
        pct as i32
    } else {
        0
    }
}

} // verus!
