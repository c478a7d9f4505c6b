//! Character-level helpers over `str`, specified on `Seq<char>`.

use vstd::prelude::*;
use vstd::string::StrSliceExecFns;
use vstd::string::StringExecFns;

verus! {

/// `p` occurs in `s` starting at index `i`.
pub open spec fn occurs_at(s: Seq<char>, p: Seq<char>, i: int) -> bool {
    0 <= i && i + p.len() <= s.len() && s.subrange(i, i + p.len() as int) == p
}

/// `s` begins with `p`.
pub open spec fn has_prefix(s: Seq<char>, p: Seq<char>) -> bool {
    occurs_at(s, p, 0)
}

/// `p` occurs somewhere in `s`.
pub open spec fn has_infix(s: Seq<char>, p: Seq<char>) -> bool {
    exists|i: int| occurs_at(s, p, i)
}

/// Number of start positions below `n` at which `p` occurs in `s`.
pub open spec fn occurrences_below(s: Seq<char>, p: Seq<char>, n: int) -> nat
    decreases n,
{
    if n <= 0 {
        0
    } else {
        occurrences_below(s, p, n - 1) + if occurs_at(s, p, n - 1) {
            1nat
        } else {
            0nat
        }
    }
}

/// Number of start positions at which `p` occurs in `s`.
pub open spec fn occurrences(s: Seq<char>, p: Seq<char>) -> nat {
    occurrences_below(s, p, s.len() as int)
}

/// Number of indices below `n` that hold `c`.
pub open spec fn char_count_below(s: Seq<char>, c: char, n: int) -> nat
    decreases n,
{
    if n <= 0 {
        0
    } else {
        char_count_below(s, c, n - 1) + if s[n - 1] == c {
            1nat
        } else {
            0nat
        }
    }
}

/// Number of times `c` appears in `s`.
pub open spec fn char_count(s: Seq<char>, c: char) -> nat {
    char_count_below(s, c, s.len() as int)
}

/// The characters of `s`, one by one.
pub fn chars_of(s: &str) -> (r: Vec<char>)
    ensures
        r@ == s@,
{
    let n = s.unicode_len();
    let mut r: Vec<char> = Vec::new();
    let mut i: usize = 0;
    while i < n
        invariant
            n == s@.len(),
            i <= n,
            r@ == s@.subrange(0, i as int),
        decreases n - i,
    {
        r.push(s.get_char(i));
        i = i + 1;
        assert(r@ =~= s@.subrange(0, i as int));
    }
    assert(r@ =~= s@);
    r
}

/// Whether `p` occurs in `s` at index `i`.
pub fn occurs_at_exec(s: &[char], p: &[char], i: usize) -> (r: bool)
    ensures
        r == occurs_at(s@, p@, i as int),
{
    if i > s.len() || p.len() > s.len() - i {
        return false;
    }
    let mut k: usize = 0;
    while k < p.len()
        invariant
            i + p@.len() <= s@.len(),
            s@.len() <= usize::MAX,
            k <= p@.len(),
            forall|j: int| 0 <= j < k ==> s@[i + j] == p@[j],
        decreases p@.len() - k,
    {
        if s[i + k] != p[k] {
            assert(s@.subrange(i as int, i + p@.len())[k as int] != p@[k as int]);
            return false;
        }
        k = k + 1;
    }
    assert(s@.subrange(i as int, i + p@.len()) =~= p@);
    true
}

/// Whether `s` begins with `p`.
pub fn starts_with_chars(s: &[char], p: &[char]) -> (r: bool)
    ensures
        r == has_prefix(s@, p@),
{
    occurs_at_exec(s, p, 0)
}

/// Whether `p` occurs anywhere in `s`.
pub fn contains_chars(s: &[char], p: &[char]) -> (r: bool)
    ensures
        r == has_infix(s@, p@),
{
    if p.len() == 0 {
        assert(s@.subrange(0, 0) =~= p@);
        assert(occurs_at(s@, p@, 0));
        return true;
    }
    let mut i: usize = 0;
    while i < s.len()
        invariant
            p@.len() > 0,
            i <= s@.len(),
            forall|j: int| 0 <= j < i ==> !occurs_at(s@, p@, j),
        decreases s@.len() - i,
    {
        if occurs_at_exec(s, p, i) {
            return true;
        }
        i = i + 1;
    }
    assert forall|j: int| !occurs_at(s@, p@, j) by {
        if j >= i {
            assert(j + p@.len() > s@.len());
        }
    }
    false
}

/// How many start positions of `s` begin an occurrence of `p`.
pub fn count_occurrences(s: &[char], p: &[char]) -> (r: usize)
    ensures
        r == occurrences(s@, p@),
{
    let mut i: usize = 0;
    let mut r: usize = 0;
    while i < s.len()
        invariant
            i <= s@.len(),
            r == occurrences_below(s@, p@, i as int),
            r <= i,
        decreases s@.len() - i,
    {
        if occurs_at_exec(s, p, i) {
            r = r + 1;
        }
        i = i + 1;
    }
    r
}

/// How many times `c` appears in `s`.
pub fn count_char(s: &[char], c: char) -> (r: usize)
    ensures
        r == char_count(s@, c),
{
    let mut i: usize = 0;
    let mut r: usize = 0;
    while i < s.len()
        invariant
            i <= s@.len(),
            r == char_count_below(s@, c, i as int),
            r <= i,
        decreases s@.len() - i,
    {
        if s[i] == c {
            r = r + 1;
        }
        i = i + 1;
    }
    r
}

/// A `String` holding exactly the characters `s`.
pub fn string_of(s: &[char]) -> (r: String)
    ensures
        r@ == s@,
{
    let mut r = String::new();
    let mut i: usize = 0;
    while i < s.len()
        invariant
            i <= s@.len(),
            r@ == s@.subrange(0, i as int),
        decreases s@.len() - i,
    {
        let piece = one_char(s[i]);
        r.append(piece.as_str());
        i = i + 1;
        assert(r@ =~= s@.subrange(0, i as int));
    }
    assert(r@ =~= s@);
    r
}

/// A `String` of the single character `c`.
#[verifier::external_body]
fn one_char(c: char) -> (r: String)
    ensures
        r@ == seq![c],
{
    String::from(c)
}

/// Whether `a` and `b` hold the same characters.
pub fn same_chars(a: &[char], b: &[char]) -> (r: bool)
    ensures
        r == (a@ == b@),
{
    if a.len() != b.len() {
        return false;
    }
    let r = occurs_at_exec(a, b, 0);
    assert(a@.subrange(0, b@.len() as int) =~= a@);
    r
}

/// `c` is an ASCII character.
pub open spec fn is_ascii_char(c: char) -> bool {
    (c as u32) < 128
}

/// `s` with every non-ASCII character replaced by a space.
pub open spec fn ascii_only(s: Seq<char>) -> Seq<char> {
    s.map_values(|c: char| if is_ascii_char(c) { c } else { ' ' })
}

/// Replaces every non-ASCII character of `s` with a space.
pub fn sanitize_string(s: &str) -> (r: String)
    ensures
        r@ == ascii_only(s@),
{
    let cs = chars_of(s);
    let mut out: Vec<char> = Vec::new();
    let mut i: usize = 0;
    while i < cs.len()
        invariant
            cs@ == s@,
            i <= cs@.len(),
            out@ == ascii_only(s@).subrange(0, i as int),
        decreases cs@.len() - i,
    {
        let c = cs[i];
        if (c as u32) < 128 {
            out.push(c);
        } else {
            out.push(' ');
        }
        i = i + 1;
        assert(out@ =~= ascii_only(s@).subrange(0, i as int));
    }
    assert(out@ =~= ascii_only(s@));
    string_of(out.as_slice())
}

} // verus!
