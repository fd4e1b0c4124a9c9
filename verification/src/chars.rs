//! Character-level groundwork shared by the version parser and the branch
//! classifier: digit predicates, decimal valuation, first-occurrence search,
//! and the verified scanning helpers built on them.

use vstd::prelude::*;

verus! {

/// Whether `c` is a decimal digit.
pub open spec fn is_digit(c: char) -> bool {
    48 <= c as u32 <= 57
}

/// The value of a decimal digit character (meaningful only under `is_digit`).
pub open spec fn digit_val(c: char) -> nat {
    ((c as u32) - 48) as nat
}

/// Whether every character of `s` is a decimal digit.
pub open spec fn all_digits(s: Seq<char>) -> bool {
    forall|k: int| 0 <= k < s.len() ==> is_digit(s[k])
}

/// The numeric value of a digit string, most significant digit first.
pub open spec fn num_val(s: Seq<char>) -> nat
    decreases s.len(),
{
    if s.len() == 0 {
        0
    } else {
        num_val(s.drop_last()) * 10 + digit_val(s.last())
    }
}

/// A digit string in canonical form: nonempty, and no leading zero unless it
/// is exactly `0`.
pub open spec fn is_canonical_num(s: Seq<char>) -> bool {
    s.len() > 0 && all_digits(s) && (s.len() > 1 ==> s[0] != '0')
}

/// `n` clamped to `[0, 256]`: values above 255 all collapse to 256, which the
/// scanners use as an out-of-range marker.
pub open spec fn clamp256(n: nat) -> nat {
    if n <= 255 {
        n
    } else {
        256
    }
}

/// The index of the first occurrence of `c` in `s`, or `s.len()` if absent.
pub open spec fn spec_find(s: Seq<char>, c: char) -> int
    decreases s.len(),
{
    if s.len() == 0 {
        0
    } else if s[0] == c {
        0
    } else {
        1 + spec_find(s.skip(1), c)
    }
}

/// `spec_find` lands in bounds, on an occurrence of `c` when there is one,
/// and nothing before it is an occurrence.
pub proof fn lemma_find_props(s: Seq<char>, c: char)
    ensures
        0 <= spec_find(s, c) <= s.len(),
        spec_find(s, c) < s.len() ==> s[spec_find(s, c)] == c,
        forall|j: int| 0 <= j < spec_find(s, c) ==> s[j] != c,
    decreases s.len(),
{
    if s.len() == 0 {
    } else if s[0] == c {
    } else {
        lemma_find_props(s.skip(1), c);
        assert forall|j: int| 0 <= j < spec_find(s, c) implies s[j] != c by {
            if j > 0 {
                assert(s.skip(1)[j - 1] == s[j]);
            }
        }
        if spec_find(s, c) < s.len() {
            assert(s.skip(1)[spec_find(s, c) - 1] == s[spec_find(s, c)]);
        }
    }
}

/// The first occurrence is uniquely characterised: if nothing before `i`
/// matches and `i` is an occurrence (or the end), then `spec_find` is `i`.
pub proof fn lemma_find_at(s: Seq<char>, c: char, i: int)
    requires
        0 <= i <= s.len(),
        forall|j: int| 0 <= j < i ==> s[j] != c,
        i < s.len() ==> s[i] == c,
    ensures
        spec_find(s, c) == i,
{
    lemma_find_props(s, c);
    let f = spec_find(s, c);
    if f < i {
        assert(s[f] != c);
    } else if f > i {
        assert(s[i] != c);
    }
}

/// Finds the first occurrence of `c` in `t[lo..hi]`, reported as an absolute
/// index (`hi` when absent).
pub fn find_in(t: &Vec<char>, lo: usize, hi: usize, c: char) -> (r: usize)
    requires
        lo <= hi <= t@.len(),
    ensures
        lo <= r <= hi,
        r - lo == spec_find(t@.subrange(lo as int, hi as int), c),
        r < hi ==> t@[r as int] == c,
        forall|j: int| lo <= j < r ==> t@[j] != c,
{
    let ghost sub = t@.subrange(lo as int, hi as int);
    let mut k = lo;
    while k < hi
        invariant
            lo <= k <= hi <= t@.len(),
            sub == t@.subrange(lo as int, hi as int),
            forall|j: int| lo <= j < k ==> t@[j] != c,
        decreases hi - k,
    {
        if t[k] == c {
            proof {
                assert forall|j: int| 0 <= j < k - lo implies sub[j] != c by {
                    assert(sub[j] == t@[lo + j]);
                }
                assert(sub[k - lo] == t@[k as int]);
                lemma_find_at(sub, c, k - lo);
            }
            return k;
        }
        k += 1;
    }
    proof {
        assert forall|j: int| 0 <= j < hi - lo implies sub[j] != c by {
            assert(sub[j] == t@[lo + j]);
        }
        lemma_find_at(sub, c, hi - lo);
    }
    hi
}

/// Whether every character of `t[lo..hi]` is a decimal digit.
pub fn all_digits_in(t: &Vec<char>, lo: usize, hi: usize) -> (b: bool)
    requires
        lo <= hi <= t@.len(),
    ensures
        b == all_digits(t@.subrange(lo as int, hi as int)),
{
    let ghost sub = t@.subrange(lo as int, hi as int);
    let mut k = lo;
    while k < hi
        invariant
            lo <= k <= hi <= t@.len(),
            sub == t@.subrange(lo as int, hi as int),
            forall|j: int| lo <= j < k ==> is_digit(t@[j]),
        decreases hi - k,
    {
        let u = t[k] as u32;
        if !(48 <= u && u <= 57) {
            proof {
                assert(sub[k - lo] == t@[k as int]);
            }
            return false;
        }
        k += 1;
    }
    proof {
        assert forall|j: int| 0 <= j < sub.len() implies is_digit(sub[j]) by {
            assert(sub[j] == t@[lo + j]);
        }
    }
    true
}

/// Whether `t[lo..hi]` is a canonical digit string.
pub fn is_canonical_in(t: &Vec<char>, lo: usize, hi: usize) -> (b: bool)
    requires
        lo <= hi <= t@.len(),
    ensures
        b == is_canonical_num(t@.subrange(lo as int, hi as int)),
{
    let ghost sub = t@.subrange(lo as int, hi as int);
    if lo == hi {
        return false;
    }
    if hi - lo > 1 && t[lo] == '0' {
        proof {
            assert(sub[0] == t@[lo as int]);
        }
        return false;
    }
    all_digits_in(t, lo, hi)
}

/// The numeric value of the digit string `t[lo..hi]`, clamped to 256 so that
/// out-of-range values need no unbounded arithmetic.
pub fn clamped_value_in(t: &Vec<char>, lo: usize, hi: usize) -> (r: u16)
    requires
        lo <= hi <= t@.len(),
        all_digits(t@.subrange(lo as int, hi as int)),
    ensures
        r as nat == clamp256(num_val(t@.subrange(lo as int, hi as int))),
{
    let ghost sub = t@.subrange(lo as int, hi as int);
    let mut acc: u16 = 0;
    let mut k = lo;
    while k < hi
        invariant
            lo <= k <= hi <= t@.len(),
            sub == t@.subrange(lo as int, hi as int),
            all_digits(sub),
            acc <= 256,
            acc as nat == clamp256(num_val(t@.subrange(lo as int, k as int))),
        decreases hi - k,
    {
        let ghost pre = t@.subrange(lo as int, k as int);
        let ghost pre2 = t@.subrange(lo as int, k + 1 as int);
        proof {
            assert(sub[k - lo] == t@[k as int]);
            assert(pre2.drop_last() =~= pre);
            assert(pre2.last() == t@[k as int]);
            assert(num_val(pre2) == num_val(pre) * 10 + digit_val(t@[k as int]));
        }
        let u = t[k] as u32;
        proof {
            assert(is_digit(t@[k as int]));
        }
        let d = (u - 48) as u16;
        acc = acc * 10 + d;
        if acc > 255 {
            acc = 256;
        }
        k += 1;
    }
    proof {
        assert(t@.subrange(lo as int, k as int) == sub);
    }
    acc
}

/// Copies `t[lo..hi]` into a fresh string.
pub fn string_of_range(t: &Vec<char>, lo: usize, hi: usize) -> (s: String)
    requires
        lo <= hi <= t@.len(),
    ensures
        s@ == t@.subrange(lo as int, hi as int),
{
    let mut out = String::new();
    let mut k = lo;
    while k < hi
        invariant
            lo <= k <= hi <= t@.len(),
            out@ == t@.subrange(lo as int, k as int),
        decreases hi - k,
    {
        crate::version::push_char(&mut out, t[k]);
        proof {
            assert(out@ =~= t@.subrange(lo as int, k + 1 as int));
        }
        k += 1;
    }
    out
}

/// The characters of `s` from position `start` on, as a vector.
pub fn chars_from(s: &str, start: usize) -> (v: Vec<char>)
    requires
        start <= s@.len(),
    ensures
        v@ == s@.skip(start as int),
{
    let n = s.unicode_len();
    let mut v: Vec<char> = Vec::new();
    let mut i: usize = start;
    while i < n
        invariant
            start <= i <= n,
            n == s@.len(),
            v@ == s@.subrange(start as int, i as int),
        decreases n - i,
    {
        let c = s.get_char(i);
        v.push(c);
        proof {
            assert(v@ =~= s@.subrange(start as int, i + 1 as int));
        }
        i += 1;
    }
    proof {
        assert(v@ =~= s@.skip(start as int));
    }
    v
}

/// Whether two strings hold the same characters.
pub fn str_eq(a: &str, b: &str) -> (r: bool)
    ensures
        r == (a@ == b@),
{
    let n = a.unicode_len();
    let m = b.unicode_len();
    if n != m {
        return false;
    }
    let mut i: usize = 0;
    while i < n
        invariant
            0 <= i <= n,
            n == a@.len(),
            n == b@.len(),
            forall|j: int| 0 <= j < i ==> a@[j] == b@[j],
        decreases n - i,
    {
        if a.get_char(i) != b.get_char(i) {
            return false;
        }
        i += 1;
    }
    proof {
        assert(a@ =~= b@);
    }
    true
}

} // verus!
