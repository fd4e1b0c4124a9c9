//! The strict version-text parser.
//!
//! Accepted texts are `v` followed by a semantic version `X.Y.Z`, optionally
//! with a prerelease label, and never with `+build` metadata.  A text without
//! a prerelease label parses to a `Production` version; one whose label reads
//! `rc.W` parses to an `Alpha` version.  Each component, and `W`, must fit in
//! `[0, 255]`.
//!
//! The label may carry segments after `rc.W`; they are validated against the
//! prerelease grammar and otherwise ignored, so `v1.0.0-rc.1.nightly` parses
//! like `v1.0.0-rc.1`.  The whole grammar is pinned down by [`spec_parse`],
//! which the executable parser matches exactly.

use vstd::prelude::*;

use crate::chars::all_digits;
use crate::chars::all_digits_in;
use crate::chars::chars_from;
use crate::chars::clamped_value_in;
use crate::chars::find_in;
use crate::chars::is_canonical_in;
use crate::chars::is_canonical_num;
use crate::chars::is_digit;
use crate::chars::num_val;
use crate::chars::spec_find;
use crate::chars::string_of_range;
use crate::version::GitflowError;
use crate::version::SemverBase;
use crate::version::SemverRC;
use crate::version::VersionInfo;

verus! {

/// What parsing a version text yields: a structured version, or the first
/// grammar rule the text violates.  The payload of `UnsupportedPrerelease`
/// is the offending first prerelease segment.
pub enum SpecParseOutcome {
    Parsed(VersionInfo),
    MissingPrefix,
    MalformedVersion,
    BuildMetadataNotAllowed,
    ComponentOutOfRange,
    UnsupportedPrerelease(Seq<char>),
    MissingOrInvalidRc,
}

/// Whether `c` may appear in a prerelease or build segment: ASCII letters,
/// digits, and hyphens.
pub open spec fn is_ident_char(c: char) -> bool {
    is_digit(c) || (97 <= c as u32 <= 122) || (65 <= c as u32 <= 90) || c as u32 == 45
}

/// One dot-separated label segment.  Both label kinds demand a nonempty run
/// of identifier characters; under prerelease rules (`pre` set) a fully
/// numeric segment must also have no leading zero.
pub open spec fn valid_segment(s: Seq<char>, pre: bool) -> bool {
    s.len() > 0 && (forall|k: int| 0 <= k < s.len() ==> is_ident_char(s[k])) && (pre && all_digits(
        s,
    ) ==> (s.len() == 1 || s[0] != '0'))
}

/// A whole dot-separated label: every segment valid under the given rules.
pub open spec fn valid_label(s: Seq<char>, pre: bool) -> bool
    decreases s.len(),
{
    let i = spec_find(s, '.');
    if 0 <= i < s.len() {
        valid_segment(s.take(i), pre) && valid_label(s.skip(i + 1), pre)
    } else {
        valid_segment(s, pre)
    }
}

/// The `X.Y.Z` core: exactly three dot-separated canonical digit strings.
pub open spec fn valid_core(core: Seq<char>) -> bool {
    let i = spec_find(core, '.');
    if i < core.len() {
        let rest = core.skip(i + 1);
        let j = spec_find(rest, '.');
        if j < rest.len() {
            is_canonical_num(core.take(i)) && is_canonical_num(rest.take(j)) && is_canonical_num(
                rest.skip(j + 1),
            )
        } else {
            false
        }
    } else {
        false
    }
}

/// Parses a grammatically valid core and optional prerelease label: checks
/// the component ranges, then applies the `rc.W` rules to the label.
pub open spec fn spec_parse_core_pre(core: Seq<char>, has_pre: bool, pre: Seq<char>) -> SpecParseOutcome {
    let i = spec_find(core, '.');
    let rest = core.skip(i + 1);
    let j = spec_find(rest, '.');
    let ma = num_val(core.take(i));
    let mi = num_val(rest.take(j));
    let pa = num_val(rest.skip(j + 1));
    if ma > 255 || mi > 255 || pa > 255 {
        SpecParseOutcome::ComponentOutOfRange
    } else {
        let base = SemverBase { major: ma as u8, minor: mi as u8, patch: pa as u8 };
        if !has_pre {
            SpecParseOutcome::Parsed(VersionInfo::Production(base))
        } else {
            let f = spec_find(pre, '.');
            let first = pre.take(f);
            if first != seq!['r', 'c'] {
                SpecParseOutcome::UnsupportedPrerelease(first)
            } else if f >= pre.len() {
                SpecParseOutcome::MissingOrInvalidRc
            } else {
                let rest2 = pre.skip(f + 1);
                let g = spec_find(rest2, '.');
                let second = rest2.take(g);
                if second.len() > 0 && all_digits(second) && num_val(second) <= 255 {
                    SpecParseOutcome::Parsed(
                        VersionInfo::Alpha(SemverRC { base, rc: num_val(second) as u8 }),
                    )
                } else {
                    SpecParseOutcome::MissingOrInvalidRc
                }
            }
        }
    }
}

/// Parses the text after the `v` prefix.  The first `+` starts build
/// metadata, the first `-` before it starts the prerelease label; grammar
/// violations anywhere are malformed, a well-formed build suffix is refused
/// as such, and the rest is handed to [`spec_parse_core_pre`].
pub open spec fn spec_parse_tail(t: Seq<char>) -> SpecParseOutcome {
    let plus = spec_find(t, '+');
    let vp = t.take(plus);
    let dash = spec_find(vp, '-');
    let core = vp.take(dash);
    let has_pre = dash < vp.len();
    let pre = if has_pre {
        vp.skip(dash + 1)
    } else {
        Seq::<char>::empty()
    };
    if !valid_core(core) {
        SpecParseOutcome::MalformedVersion
    } else if has_pre && !valid_label(pre, true) {
        SpecParseOutcome::MalformedVersion
    } else if plus < t.len() && !valid_label(t.skip(plus + 1), false) {
        SpecParseOutcome::MalformedVersion
    } else if plus < t.len() {
        SpecParseOutcome::BuildMetadataNotAllowed
    } else {
        spec_parse_core_pre(core, has_pre, pre)
    }
}

/// The parser, as a total function over the characters of the input.
pub open spec fn spec_parse(s: Seq<char>) -> SpecParseOutcome {
    if s.len() == 0 || s[0] != 'v' {
        SpecParseOutcome::MissingPrefix
    } else {
        spec_parse_tail(s.skip(1))
    }
}

/// Whether the executable parser's result agrees with a parse outcome.
pub open spec fn parse_matches(r: Result<VersionInfo, GitflowError>, o: SpecParseOutcome) -> bool {
    match o {
        SpecParseOutcome::Parsed(v) => r == Ok::<VersionInfo, GitflowError>(v),
        SpecParseOutcome::MissingPrefix => r == Err::<VersionInfo, GitflowError>(
            GitflowError::MissingPrefix,
        ),
        SpecParseOutcome::MalformedVersion => r == Err::<VersionInfo, GitflowError>(
            GitflowError::MalformedVersion,
        ),
        SpecParseOutcome::BuildMetadataNotAllowed => r == Err::<VersionInfo, GitflowError>(
            GitflowError::BuildMetadataNotAllowed,
        ),
        SpecParseOutcome::ComponentOutOfRange => r == Err::<VersionInfo, GitflowError>(
            GitflowError::ComponentOutOfRange,
        ),
        SpecParseOutcome::UnsupportedPrerelease(l) => (r matches Err(
            GitflowError::UnsupportedPrerelease(x),
        ) && x@ == l),
        SpecParseOutcome::MissingOrInvalidRc => r == Err::<VersionInfo, GitflowError>(
            GitflowError::MissingOrInvalidRc,
        ),
    }
}

/// Checks `t[lo..hi]` against the dot-separated label grammar.
fn valid_label_in(t: &Vec<char>, lo: usize, hi: usize, pre: bool) -> (b: bool)
    requires
        lo <= hi <= t@.len(),
    ensures
        b == valid_label(t@.subrange(lo as int, hi as int), pre),
{
    let mut pos = lo;
    loop
        invariant
            lo <= pos <= hi <= t@.len(),
            valid_label(t@.subrange(lo as int, hi as int), pre) == valid_label(
                t@.subrange(pos as int, hi as int),
                pre,
            ),
        decreases hi - pos,
    {
        let ghost cur = t@.subrange(pos as int, hi as int);
        let d = find_in(t, pos, hi, '.');
        proof {
            assert(cur.take(d - pos) =~= t@.subrange(pos as int, d as int));
        }
        if d < hi {
            proof {
                assert(cur.skip(d - pos + 1) =~= t@.subrange(d + 1, hi as int));
                assert(valid_label(cur, pre) == (valid_segment(
                    t@.subrange(pos as int, d as int),
                    pre,
                ) && valid_label(t@.subrange(d + 1, hi as int), pre)));
            }
            if !valid_segment_in(t, pos, d, pre) {
                return false;
            }
            pos = d + 1;
        } else {
            proof {
                assert(cur.take(d - pos) =~= cur);
            }
            return valid_segment_in(t, pos, hi, pre);
        }
    }
}

/// Checks `t[lo..hi]` against the segment grammar.
fn valid_segment_in(t: &Vec<char>, lo: usize, hi: usize, pre: bool) -> (b: bool)
    requires
        lo <= hi <= t@.len(),
    ensures
        b == valid_segment(t@.subrange(lo as int, hi as int), pre),
{
    let ghost sub = t@.subrange(lo as int, hi as int);
    if lo == hi {
        return false;
    }
    let mut k = lo;
    while k < hi
        invariant
            lo <= k <= hi <= t@.len(),
            sub == t@.subrange(lo as int, hi as int),
            forall|j: int| lo <= j < k ==> is_ident_char(t@[j]),
        decreases hi - k,
    {
        let u = t[k] as u32;
        let ok = (48 <= u && u <= 57) || (97 <= u && u <= 122) || (65 <= u && u <= 90) || u == 45;
        if !ok {
            proof {
                assert(sub[k - lo] == t@[k as int]);
            }
            return false;
        }
        k += 1;
    }
    proof {
        assert forall|j: int| 0 <= j < sub.len() implies is_ident_char(sub[j]) by {
            assert(sub[j] == t@[lo + j]);
        }
    }
    if pre {
        if all_digits_in(t, lo, hi) && hi - lo > 1 && t[lo] == '0' {
            proof {
                assert(sub[0] == t@[lo as int]);
            }
            return false;
        }
        proof {
            assert(sub[0] == t@[lo as int]);
        }
        return true;
    }
    true
}

/// Parses tag-style version text into a structured version.
///
/// The result agrees exactly with [`spec_parse`] on the input's characters:
/// canonical `vX.Y.Z` texts yield `Production`, texts continuing `-rc.W`
/// yield `Alpha`, and every other text is rejected with the error naming the
/// violated grammar rule.
pub fn parse_semver(s: &str) -> (r: Result<VersionInfo, GitflowError>)
    ensures
        parse_matches(r, spec_parse(s@)),
{
    let n = s.unicode_len();
    if n == 0 {
        return Err(GitflowError::MissingPrefix);
    }
    if s.get_char(0) != 'v' {
        return Err(GitflowError::MissingPrefix);
    }
    let t = chars_from(s, 1);
    parse_tail(&t)
}

/// Parses the text after the `v` prefix; see [`spec_parse_tail`].
#[verifier::rlimit(100)]
fn parse_tail(t: &Vec<char>) -> (r: Result<VersionInfo, GitflowError>)
    ensures
        parse_matches(r, spec_parse_tail(t@)),
{
    let m = t.len();
    let plus = find_in(t, 0, m, '+');
    proof {
        assert(t@.subrange(0, m as int) =~= t@);
    }
    let ghost vp = t@.take(plus as int);
    let dash = find_in(t, 0, plus, '-');
    proof {
        assert(t@.subrange(0, plus as int) =~= vp);
    }
    let ghost core = vp.take(dash as int);
    let ghost has_pre = dash < plus;
    let ghost pre = t@.subrange(dash + 1, plus as int);
    proof {
        assert(core =~= t@.subrange(0, dash as int));
        if has_pre {
            assert(vp.skip(dash + 1) =~= pre);
        }
    }

    // The three-component core.
    let i = find_in(t, 0, dash, '.');
    proof {
        assert(t@.subrange(0, dash as int) =~= core);
    }
    if i == dash {
        proof {
            assert(!valid_core(core));
        }
        return Err(GitflowError::MalformedVersion);
    }
    let ghost rest = core.skip(i + 1);
    let j = find_in(t, i + 1, dash, '.');
    proof {
        assert(rest =~= t@.subrange(i + 1, dash as int));
    }
    if j == dash {
        proof {
            assert(!valid_core(core));
        }
        return Err(GitflowError::MalformedVersion);
    }
    proof {
        assert(core.take(i as int) =~= t@.subrange(0, i as int));
        assert(rest.take(j - (i + 1)) =~= t@.subrange(i + 1, j as int));
        assert(rest.skip(j - (i + 1) + 1) =~= t@.subrange(j + 1, dash as int));
    }
    let c1 = is_canonical_in(t, 0, i);
    let c2 = is_canonical_in(t, i + 1, j);
    let c3 = is_canonical_in(t, j + 1, dash);
    if !c1 || !c2 || !c3 {
        proof {
            assert(!valid_core(core));
        }
        return Err(GitflowError::MalformedVersion);
    }
    proof {
        assert(valid_core(core));
    }

    // The prerelease label's grammar.
    if dash < plus {
        if !valid_label_in(t, dash + 1, plus, true) {
            return Err(GitflowError::MalformedVersion);
        }
    }

    // Build metadata: grammar-checked, then refused.
    if plus < m {
        if !valid_label_in(t, plus + 1, m, false) {
            proof {
                assert(t@.skip(plus + 1) =~= t@.subrange(plus + 1, m as int));
            }
            return Err(GitflowError::MalformedVersion);
        }
        proof {
            assert(t@.skip(plus + 1) =~= t@.subrange(plus + 1, m as int));
        }
        return Err(GitflowError::BuildMetadataNotAllowed);
    }

    // Component ranges.
    let ma = clamped_value_in(t, 0, i);
    let mi = clamped_value_in(t, i + 1, j);
    let pa = clamped_value_in(t, j + 1, dash);
    if ma > 255 || mi > 255 || pa > 255 {
        return Err(GitflowError::ComponentOutOfRange);
    }
    let base = SemverBase { major: ma as u8, minor: mi as u8, patch: pa as u8 };
    if dash == plus {
        return Ok(VersionInfo::Production(base));
    }

    // The `rc.W` rules.
    let f = find_in(t, dash + 1, plus, '.');
    proof {
        assert(t@.subrange(dash + 1, plus as int) =~= pre);
        assert(pre.take(f - (dash + 1)) =~= t@.subrange(dash + 1, f as int));
    }
    let first_is_rc = f - (dash + 1) == 2 && {
        let r0 = t[dash + 1];
        let r1 = t[dash + 2];
        r0 == 'r' && r1 == 'c'
    };
    proof {
        let first = pre.take(spec_find(pre, '.'));
        if first_is_rc {
            assert(first =~= seq!['r', 'c']);
        } else {
            if first == seq!['r', 'c'] {
                assert(first.len() == 2);
                assert(first[0] == 'r' && first[1] == 'c');
                assert(t@[dash + 1] == first[0] && t@[dash + 2] == first[1]);
            }
        }
    }
    if !first_is_rc {
        let label = string_of_range(t, dash + 1, f);
        return Err(GitflowError::UnsupportedPrerelease(label));
    }
    if f == plus {
        return Err(GitflowError::MissingOrInvalidRc);
    }
    let ghost rest2 = pre.skip(f - (dash + 1) + 1);
    let g = find_in(t, f + 1, plus, '.');
    proof {
        assert(rest2 =~= t@.subrange(f + 1, plus as int));
        assert(rest2.take(g - (f + 1)) =~= t@.subrange(f + 1, g as int));
    }
    if g == f + 1 {
        return Err(GitflowError::MissingOrInvalidRc);
    }
    if !all_digits_in(t, f + 1, g) {
        return Err(GitflowError::MissingOrInvalidRc);
    }
    let rc = clamped_value_in(t, f + 1, g);
    if rc > 255 {
        return Err(GitflowError::MissingOrInvalidRc);
    }
    Ok(VersionInfo::Alpha(SemverRC { base, rc: rc as u8 }))
}

} // verus!
