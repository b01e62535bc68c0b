//! Small string helpers shared by the scanners.

use vstd::prelude::*;
use vstd::string::*;

verus! {

/// Relies on `alloc::string::String::push`: appends exactly the one given
/// character to the end of the string.
pub assume_specification[ String::push ](s: &mut String, ch: char)
    ensures
        final(s)@ == old(s)@.push(ch),
;

/// Character-wise equality of two string slices.
pub fn eq_str(a: &str, b: &str) -> (r: bool)
    ensures
        r == (a@ == b@),
{
    let n = a.unicode_len();
    let m = b.unicode_len();
    if n != m {
        return false;
    }
    let mut k: usize = 0;
    while k < n
        invariant
            n == a@.len(),
            n == b@.len(),
            k <= n,
            forall|j: int| 0 <= j < k ==> a@[j] == b@[j],
        decreases n - k,
    {
        if a.get_char(k) != b.get_char(k) {
            return false;
        }
        k += 1;
    }
    proof {
        assert(a@ =~= b@);
    }
    true
}

/// True when `p` is a prefix of `t`.
pub open spec fn starts_with(t: Seq<char>, p: Seq<char>) -> bool {
    p.len() <= t.len() && t.subrange(0, p.len() as int) == p
}

/// A sequence starts with itself without its last pushed element.
pub proof fn lemma_starts_with_push(p: Seq<char>, c: char)
    ensures
        starts_with(p.push(c), p),
{
    assert(p.push(c).subrange(0, p.len() as int) =~= p);
}

/// Every sequence starts with itself.
pub proof fn lemma_starts_with_refl(t: Seq<char>)
    ensures
        starts_with(t, t),
{
    assert(t.subrange(0, t.len() as int) =~= t);
}

/// `a + b` starts with `a`.
pub proof fn lemma_starts_with_add(a: Seq<char>, b: Seq<char>)
    ensures
        starts_with(a + b, a),
{
    assert((a + b).subrange(0, a.len() as int) =~= a);
}

/// Prefixes chain: if `t` starts with `b` and `b` starts with `a`, then `t`
/// starts with `a`.
pub proof fn lemma_starts_with_trans(t: Seq<char>, b: Seq<char>, a: Seq<char>)
    requires
        starts_with(t, b),
        starts_with(b, a),
    ensures
        starts_with(t, a),
{
    assert forall|j: int| 0 <= j < a.len() implies t.subrange(0, a.len() as int)[j] == a[j] by {
        assert(t.subrange(0, b.len() as int)[j] == b[j]);
        assert(b.subrange(0, a.len() as int)[j] == a[j]);
    }
    assert(t.subrange(0, a.len() as int) =~= a);
}

/// True when every character of the string is whitespace.
pub fn all_space_str(s: &str) -> (r: bool)
    ensures
        r == crate::chars::all_space(s@),
{
    let n = s.unicode_len();
    let mut k: usize = 0;
    while k < n
        invariant
            n == s@.len(),
            k <= n,
            forall|j: int| 0 <= j < k ==> crate::chars::is_space(#[trigger] s@[j]),
        decreases n - k,
    {
        if !crate::chars::is_space_c(s.get_char(k)) {
            return false;
        }
        k += 1;
    }
    true
}

} // verus!
