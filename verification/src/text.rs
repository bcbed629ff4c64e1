//! Text primitives on which argument matching is built.

use vstd::prelude::*;
use vstd::string::*;

verus! {

/// Whether `text` begins with `prefix`.
pub fn starts_with(text: &str, prefix: &str) -> (b: bool)
    ensures
        b == prefix@.is_prefix_of(text@),
{
    let n: usize = prefix.unicode_len();
    let m: usize = text.unicode_len();
    if n > m {
        return false;
    }
    let mut i: usize = 0;
    while i < n
        invariant
            i <= n <= m,
            n == prefix@.len(),
            m == text@.len(),
            forall|k: int| 0 <= k < i ==> prefix@[k] == text@[k],
        decreases n - i,
    {
        if prefix.get_char(i) != text.get_char(i) {
            assert(text@.subrange(0, n as int)[i as int] != prefix@[i as int]);
            return false;
        }
        i += 1;
    }
    assert(prefix@ =~= text@.subrange(0, n as int));
    true
}

/// Whether two strings hold the same characters.
pub fn same_text(a: &str, b: &str) -> (r: bool)
    ensures
        r == (a@ == b@),
{
    let n: usize = a.unicode_len();
    let m: usize = b.unicode_len();
    if n != m {
        return false;
    }
    let r = starts_with(a, b);
    proof {
        if r {
            assert(a@.subrange(0, n as int) =~= a@);
        }
    }
    r
}

/// The part of `text` from position `from` to its end, as an owned string.
pub(crate) fn tail(text: &str, from: usize) -> (r: String)
    requires
        from <= text@.len(),
    ensures
        r@ == text@.skip(from as int),
{
    let n: usize = text.unicode_len();
    let part = text.substring_char(from, n);
    assert(text@.subrange(from as int, n as int) =~= text@.skip(from as int));
    String::from_str(part)
}

/// Position `i` holds the dot that introduces the extension of the file that
/// `path` names: the last dot of the final component, unless that component
/// begins with it.
pub open spec fn is_extension_dot(path: Seq<char>, i: int) -> bool {
    &&& 0 < i < path.len()
    &&& path[i] == '.'
    &&& path[i - 1] != '/'
    &&& forall|j: int| i < j < path.len() ==> path[j] != '.' && path[j] != '/'
}

/// The extension of the file that `path` names, without its dot.
pub open spec fn extension_of(path: Seq<char>) -> Option<Seq<char>> {
    if exists|i: int| is_extension_dot(path, i) {
        Some(path.skip((choose|i: int| is_extension_dot(path, i)) + 1))
    } else {
        None
    }
}

/// A path has at most one extension dot.
pub proof fn lemma_extension_dot_unique(path: Seq<char>, i: int, j: int)
    requires
        is_extension_dot(path, i),
        is_extension_dot(path, j),
    ensures
        i == j,
{
}

/// The extension of the file that `path` names, without its dot.
pub fn extension(path: &str) -> (r: Option<String>)
    ensures
        r.deep_view() == extension_of(path@),
{
    let n: usize = path.unicode_len();
    let mut k: usize = n;
    while k > 0
        invariant
            k <= n,
            n == path@.len(),
            forall|j: int| k <= j < n ==> path@[j] != '.' && path@[j] != '/',
        decreases k,
    {
        k -= 1;
        let c = path.get_char(k);
        if c == '/' {
            assert forall|i: int| !is_extension_dot(path@, i) by {
                if is_extension_dot(path@, i) {
                    if i < k {
                        assert(path@[k as int] != '/');
                    }
                }
            }
            return None;
        }
        if c == '.' {
            if k == 0 || path.get_char(k - 1) == '/' {
                assert forall|i: int| !is_extension_dot(path@, i) by {
                    if is_extension_dot(path@, i) {
                        if i < k {
                            assert(path@[k as int] != '.');
                        }
                    }
                }
                return None;
            }
            proof {
                assert(is_extension_dot(path@, k as int));
                let i = choose|i: int| is_extension_dot(path@, i);
                lemma_extension_dot_unique(path@, i, k as int);
            }
            return Some(tail(path, k + 1));
        }
    }
    assert forall|i: int| !is_extension_dot(path@, i) by {}
    None
}

} // verus!
