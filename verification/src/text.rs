//! Verified text utilities: blank-string detection for username validation
//! and literal substring search for the thought-reflection rules.

use vstd::prelude::*;
use vstd::string::StrSliceExecFns;

verus! {

/// The whitespace characters recognized by username validation: the
/// Unicode `White_Space` set, exactly the characters Rust's
/// `char::is_whitespace` accepts.
pub open spec fn is_space(c: char) -> bool {
    ||| c == '\t'
    ||| c == '\n'
    ||| c == '\u{0B}'
    ||| c == '\u{0C}'
    ||| c == '\r'
    ||| c == ' '
    ||| c == '\u{85}'
    ||| c == '\u{A0}'
    ||| c == '\u{1680}'
    ||| c == '\u{2000}'
    ||| c == '\u{2001}'
    ||| c == '\u{2002}'
    ||| c == '\u{2003}'
    ||| c == '\u{2004}'
    ||| c == '\u{2005}'
    ||| c == '\u{2006}'
    ||| c == '\u{2007}'
    ||| c == '\u{2008}'
    ||| c == '\u{2009}'
    ||| c == '\u{200A}'
    ||| c == '\u{2028}'
    ||| c == '\u{2029}'
    ||| c == '\u{202F}'
    ||| c == '\u{205F}'
    ||| c == '\u{3000}'
}

/// Whether one character is whitespace in the sense of `is_space`.
fn is_space_char(c: char) -> (r: bool)
    ensures
        r == is_space(c),
{
    c == '\t' || c == '\n' || c == '\u{0B}' || c == '\u{0C}' || c == '\r' || c == ' '
        || c == '\u{85}' || c == '\u{A0}' || c == '\u{1680}' || c == '\u{2000}'
        || c == '\u{2001}' || c == '\u{2002}' || c == '\u{2003}' || c == '\u{2004}'
        || c == '\u{2005}' || c == '\u{2006}' || c == '\u{2007}' || c == '\u{2008}'
        || c == '\u{2009}' || c == '\u{200A}' || c == '\u{2028}' || c == '\u{2029}'
        || c == '\u{202F}' || c == '\u{205F}' || c == '\u{3000}'
}

/// A string is blank when every character is whitespace (so in particular
/// when it is empty).
pub open spec fn spec_blank(s: Seq<char>) -> bool {
    forall|i: int| 0 <= i < s.len() ==> is_space(s[i])
}

/// Whether `s` is empty or consists only of whitespace.
pub fn is_blank_str(s: &str) -> (r: bool)
    ensures
        r == spec_blank(s@),
{
    let n = s.unicode_len();
    let mut i: usize = 0;
    while i < n
        invariant
            n == s@.len(),
            i <= n,
            forall|k: int| 0 <= k < i ==> is_space(s@[k]),
        decreases n - i,
    {
        let c = s.get_char(i);
        if !is_space_char(c) {
            return false;
        }
        i = i + 1;
    }
    true
}

/// The needle `n` occurs in the haystack `h` starting at position `i`.
pub open spec fn match_at(h: Seq<char>, n: Seq<char>, i: int) -> bool {
    &&& 0 <= i
    &&& i + n.len() <= h.len()
    &&& h.subrange(i, i + n.len() as int) == n
}

/// The needle `n` occurs somewhere in the haystack `h`.
pub open spec fn spec_contains(h: Seq<char>, n: Seq<char>) -> bool {
    exists|i: int| match_at(h, n, i)
}

/// Literal, case-sensitive substring search.
pub fn contains_str(h: &str, n: &str) -> (r: bool)
    ensures
        r == spec_contains(h@, n@),
{
    let hl = h.unicode_len();
    let nl = n.unicode_len();
    if nl > hl {
        return false;
    }
    if nl == 0 {
        proof {
            assert(h@.subrange(0, 0) =~= n@);
            assert(match_at(h@, n@, 0));
        }
        return true;
    }
    let mut i: usize = 0;
    while i <= hl - nl
        invariant
            hl == h@.len(),
            nl == n@.len(),
            nl <= hl,
            i <= hl - nl + 1,
            1 <= nl,
            forall|k: int| 0 <= k < i ==> !match_at(h@, n@, k),
        decreases hl - nl - i + 1,
    {
        let mut j: usize = 0;
        let mut ok = true;
        while j < nl
            invariant
                hl == h@.len(),
                nl == n@.len(),
                i + nl <= hl,
                j <= nl,
                ok ==> forall|t: int| 0 <= t < j ==> h@[i + t] == n@[t],
                !ok ==> !match_at(h@, n@, i as int),
            decreases nl - j,
        {
            if h.get_char(i + j) != n.get_char(j) {
                proof {
                    if match_at(h@, n@, i as int) {
                        assert(h@.subrange(i as int, i + n@.len() as int)[j as int]
                            == h@[i + j]);
                    }
                }
                ok = false;
                j = nl;
            } else {
                j = j + 1;
            }
        }
        if ok {
            proof {
                assert(h@.subrange(i as int, i + n@.len() as int) =~= n@);
                assert(match_at(h@, n@, i as int));
            }
            return true;
        }
        i = i + 1;
    }
    proof {
        assert forall|k: int| !match_at(h@, n@, k) by {
            if 0 <= k && k + n@.len() <= h@.len() {
                assert(k < i);
            }
        }
    }
    false
}

} // verus!
