//! The version-kind resolver: classifies the branch checked out at the head
//! commit into one of the four version kinds, and derives the numeric
//! version for the kinds that carry one from the tags reachable there.

use vstd::prelude::*;

use crate::chars::all_digits;
use crate::chars::all_digits_in;
use crate::chars::chars_from;
use crate::chars::clamped_value_in;
use crate::chars::find_in;
use crate::chars::num_val;
use crate::chars::spec_find;
use crate::chars::str_eq;
use crate::parse::SpecParseOutcome;
use crate::parse::parse_semver;
use crate::parse::spec_parse;
use crate::version::GitflowError;
use crate::version::SemverBase;
use crate::version::SemverRC;
use crate::version::VersionInfo;

verus! {

/// How a branch name classifies under the gitflow conventions.
#[derive(PartialEq, Eq, Structural, Debug, Copy, Clone)]
pub enum BranchKind {
    /// `master` or `main`: the tip carries a production version.
    Mainline,
    /// `vX.Y.Z` with digit-only components: a release branch.
    Release,
    /// `develop`: the shared development branch.
    Develop,
    /// Every other name: a feature branch, built locally.
    Feature,
}

pub open spec fn develop_chars() -> Seq<char> {
    seq!['d', 'e', 'v', 'e', 'l', 'o', 'p']
}

pub open spec fn master_chars() -> Seq<char> {
    seq!['m', 'a', 's', 't', 'e', 'r']
}

pub open spec fn main_chars() -> Seq<char> {
    seq!['m', 'a', 'i', 'n']
}

/// Whether `s` matches the release-branch pattern: `v` followed by exactly
/// three nonempty, dot-separated, digit-only components (leading zeros and
/// any length allowed; the range check comes later).
pub open spec fn is_release_branch_name(s: Seq<char>) -> bool {
    s.len() > 0 && s[0] == 'v' && {
        let t = s.skip(1);
        let i = spec_find(t, '.');
        i < t.len() && i > 0 && all_digits(t.take(i)) && {
            let rest = t.skip(i + 1);
            let j = spec_find(rest, '.');
            j < rest.len() && j > 0 && all_digits(rest.take(j)) && rest.skip(j + 1).len() > 0
                && all_digits(rest.skip(j + 1))
        }
    }
}

/// The total classification of a branch name: every name falls into exactly
/// one kind, with `Feature` as the fallback.
pub open spec fn spec_classify(s: Seq<char>) -> BranchKind {
    if s == develop_chars() {
        BranchKind::Develop
    } else if s == master_chars() || s == main_chars() {
        BranchKind::Mainline
    } else if is_release_branch_name(s) {
        BranchKind::Release
    } else {
        BranchKind::Feature
    }
}

/// The numeric values of a release branch's three components (meaningful
/// only under `is_release_branch_name`).
pub open spec fn spec_release_components(s: Seq<char>) -> (nat, nat, nat) {
    let t = s.skip(1);
    let i = spec_find(t, '.');
    let rest = t.skip(i + 1);
    let j = spec_find(rest, '.');
    (num_val(t.take(i)), num_val(rest.take(j)), num_val(rest.skip(j + 1)))
}

/// The best production version found among parseable tags: the maximum in
/// lexicographic `major.minor.patch` order, or nothing when no tag parses to
/// a production version.
pub open spec fn spec_best_release(tags: Seq<Seq<char>>) -> Option<SemverBase>
    decreases tags.len(),
{
    if tags.len() == 0 {
        None
    } else {
        let prev = spec_best_release(tags.drop_last());
        match spec_parse(tags.last()) {
            SpecParseOutcome::Parsed(VersionInfo::Production(b)) => match prev {
                None => Some(b),
                Some(p) => if base_le(p, b) {
                    Some(b)
                } else {
                    Some(p)
                },
            },
            _ => prev,
        }
    }
}

/// Lexicographic order on base versions.
pub open spec fn base_le(x: SemverBase, y: SemverBase) -> bool {
    x.major < y.major || (x.major == y.major && (x.minor < y.minor || (x.minor == y.minor
        && x.patch <= y.patch)))
}

/// The highest release-candidate number among tags that parse to an alpha
/// version of the given base, or 0 when there is none.
pub open spec fn spec_max_rc(tags: Seq<Seq<char>>, base: SemverBase) -> nat
    decreases tags.len(),
{
    if tags.len() == 0 {
        0
    } else {
        let prev = spec_max_rc(tags.drop_last(), base);
        match spec_parse(tags.last()) {
            SpecParseOutcome::Parsed(VersionInfo::Alpha(a)) => if a.base == base && a.rc as nat
                > prev {
                a.rc as nat
            } else {
                prev
            },
            _ => prev,
        }
    }
}

/// The version carried by a release branch: its components must fit in
/// `[0, 255]`, and the next release-candidate number after the reachable
/// tags must still fit in `[1, 255]`.
pub open spec fn spec_release_version(name: Seq<char>, tags: Seq<Seq<char>>) -> Result<
    VersionInfo,
    GitflowError,
> {
    let (x, y, z) = spec_release_components(name);
    if x > 255 || y > 255 || z > 255 {
        Err(GitflowError::ComponentOutOfRange)
    } else {
        let base = SemverBase { major: x as u8, minor: y as u8, patch: z as u8 };
        let m = spec_max_rc(tags, base);
        if m >= 255 {
            Err(GitflowError::ComponentOutOfRange)
        } else {
            Ok(VersionInfo::Alpha(SemverRC { base, rc: (m + 1) as u8 }))
        }
    }
}

/// What resolution yields for a branch name and the reachable tags.
pub open spec fn spec_resolve(name: Seq<char>, tags: Seq<Seq<char>>) -> Result<
    VersionInfo,
    GitflowError,
> {
    match spec_classify(name) {
        BranchKind::Develop => Ok(VersionInfo::Development),
        BranchKind::Feature => Ok(VersionInfo::Local),
        BranchKind::Mainline => match spec_best_release(tags) {
            None => Err(GitflowError::NoReleaseAncestor),
            Some(b) => Ok(VersionInfo::Production(b)),
        },
        BranchKind::Release => spec_release_version(name, tags),
    }
}

/// Classifies a branch name.
pub fn classify_branch(name: &str) -> (k: BranchKind)
    ensures
        k == spec_classify(name@),
{
    proof {
        reveal_strlit("develop");
        reveal_strlit("master");
        reveal_strlit("main");
        assert("develop"@ =~= develop_chars());
        assert("master"@ =~= master_chars());
        assert("main"@ =~= main_chars());
    }
    if str_eq(name, "develop") {
        return BranchKind::Develop;
    }
    if str_eq(name, "master") || str_eq(name, "main") {
        return BranchKind::Mainline;
    }
    if is_release_branch(name) {
        BranchKind::Release
    } else {
        BranchKind::Feature
    }
}

/// Whether a branch name matches the release-branch pattern.
fn is_release_branch(name: &str) -> (b: bool)
    ensures
        b == is_release_branch_name(name@),
{
    let n = name.unicode_len();
    if n == 0 {
        return false;
    }
    if name.get_char(0) != 'v' {
        return false;
    }
    let t = chars_from(name, 0);
    let ghost tail = name@.skip(1);
    let i = find_in(&t, 1, n, '.');
    proof {
        assert(t@.subrange(1, n as int) =~= tail);
    }
    if i == n || i == 1 {
        return false;
    }
    proof {
        assert(t@.subrange(1, i as int) =~= tail.take(i - 1));
    }
    if !all_digits_in(&t, 1, i) {
        return false;
    }
    let ghost rest = tail.skip(i - 1 + 1);
    let j = find_in(&t, i + 1, n, '.');
    proof {
        assert(rest =~= t@.subrange(i + 1, n as int));
    }
    if j == n || j == i + 1 {
        return false;
    }
    proof {
        assert(t@.subrange(i + 1, j as int) =~= rest.take(j - (i + 1)));
    }
    if !all_digits_in(&t, i + 1, j) {
        return false;
    }
    proof {
        assert(t@.subrange(j + 1, n as int) =~= rest.skip(j - (i + 1) + 1));
    }
    if j + 1 == n {
        return false;
    }
    all_digits_in(&t, j + 1, n)
}

/// Resolves the version kind for the branch at the head commit, given the
/// tag texts reachable from it.
///
/// `develop` resolves to `Development` and unrecognised names to `Local`,
/// both whatever the tags say.  `master`/`main` resolve to the highest
/// production version among the tags, and fail with `NoReleaseAncestor` when
/// no tag parses to one.  A release branch `vX.Y.Z` resolves to the alpha
/// version one release candidate past the highest reachable `vX.Y.Z-rc.W`
/// tag (1 when there is none); components or candidates past 255 fail with
/// `ComponentOutOfRange`.
pub fn resolve_version(branch_name: &str, tags: &Vec<String>) -> (r: Result<
    VersionInfo,
    GitflowError,
>)
    ensures
        r == spec_resolve(branch_name@, tags.deep_view()),
{
    let kind = classify_branch(branch_name);
    match kind {
        BranchKind::Develop => Ok(VersionInfo::Development),
        BranchKind::Feature => Ok(VersionInfo::Local),
        BranchKind::Mainline => {
            match best_release(tags) {
                None => Err(GitflowError::NoReleaseAncestor),
                Some(b) => Ok(VersionInfo::Production(b)),
            }
        },
        BranchKind::Release => release_version(branch_name, tags),
    }
}

/// Scans the tags for the highest production version.
fn best_release(tags: &Vec<String>) -> (r: Option<SemverBase>)
    ensures
        r == spec_best_release(tags.deep_view()),
{
    let ghost tv = tags.deep_view();
    proof {
        assert(tv.take(0) =~= Seq::<Seq<char>>::empty());
    }
    let mut best: Option<SemverBase> = None;
    let mut idx: usize = 0;
    while idx < tags.len()
        invariant
            0 <= idx <= tags.len(),
            tv == tags.deep_view(),
            tv.len() == tags@.len(),
            forall|q: int| 0 <= q < tv.len() ==> tv[q] == tags@[q]@,
            best == spec_best_release(tv.take(idx as int)),
        decreases tags.len() - idx,
    {
        proof {
            assert(tv.take(idx + 1).drop_last() =~= tv.take(idx as int));
            assert(tv.take(idx + 1).last() == tags@[idx as int]@);
        }
        let parsed = parse_semver(tags[idx].as_str());
        if let Ok(VersionInfo::Production(b)) = parsed {
            match best {
                None => {
                    best = Some(b);
                },
                Some(p) => {
                    let le = p.major < b.major || (p.major == b.major && (p.minor < b.minor || (
                    p.minor == b.minor && p.patch <= b.patch)));
                    if le {
                        best = Some(b);
                    }
                },
            }
        }
        idx += 1;
    }
    proof {
        assert(tv.take(tags@.len() as int) =~= tv);
    }
    best
}

/// Scans the tags for the highest release-candidate number of `base`.
fn max_rc(tags: &Vec<String>, base: SemverBase) -> (r: u8)
    ensures
        r as nat == spec_max_rc(tags.deep_view(), base),
{
    let ghost tv = tags.deep_view();
    proof {
        assert(tv.take(0) =~= Seq::<Seq<char>>::empty());
    }
    let mut top: u8 = 0;
    let mut idx: usize = 0;
    while idx < tags.len()
        invariant
            0 <= idx <= tags.len(),
            tv == tags.deep_view(),
            tv.len() == tags@.len(),
            forall|q: int| 0 <= q < tv.len() ==> tv[q] == tags@[q]@,
            top as nat == spec_max_rc(tv.take(idx as int), base),
        decreases tags.len() - idx,
    {
        proof {
            assert(tv.take(idx + 1).drop_last() =~= tv.take(idx as int));
            assert(tv.take(idx + 1).last() == tags@[idx as int]@);
        }
        let parsed = parse_semver(tags[idx].as_str());
        if let Ok(VersionInfo::Alpha(a)) = parsed {
            if a.base.major == base.major && a.base.minor == base.minor && a.base.patch
                == base.patch && a.rc > top {
                top = a.rc;
            }
        }
        idx += 1;
    }
    proof {
        assert(tv.take(tags@.len() as int) =~= tv);
    }
    top
}

/// Derives the alpha version for a release branch; see
/// [`spec_release_version`].
fn release_version(name: &str, tags: &Vec<String>) -> (r: Result<VersionInfo, GitflowError>)
    requires
        is_release_branch_name(name@),
    ensures
        r == spec_release_version(name@, tags.deep_view()),
{
    let n = name.unicode_len();
    let t = chars_from(name, 0);
    let ghost tail = name@.skip(1);
    let i = find_in(&t, 1, n, '.');
    proof {
        assert(t@.subrange(1, n as int) =~= tail);
        assert(t@.subrange(1, i as int) =~= tail.take(i - 1));
    }
    let ghost rest = tail.skip(i - 1 + 1);
    let j = find_in(&t, i + 1, n, '.');
    proof {
        assert(rest =~= t@.subrange(i + 1, n as int));
        assert(t@.subrange(i + 1, j as int) =~= rest.take(j - (i + 1)));
        assert(t@.subrange(j + 1, n as int) =~= rest.skip(j - (i + 1) + 1));
    }
    let x = clamped_value_in(&t, 1, i);
    let y = clamped_value_in(&t, i + 1, j);
    let z = clamped_value_in(&t, j + 1, n);
    if x > 255 || y > 255 || z > 255 {
        return Err(GitflowError::ComponentOutOfRange);
    }
    let base = SemverBase { major: x as u8, minor: y as u8, patch: z as u8 };
    let m = max_rc(tags, base);
    if m >= 255 {
        return Err(GitflowError::ComponentOutOfRange);
    }
    Ok(VersionInfo::Alpha(SemverRC { base, rc: m + 1 }))
}

/// Classifying `develop` yields `Development` whatever the tag history.
pub proof fn lemma_develop_always_development(tags: Seq<Seq<char>>)
    ensures
        spec_resolve(develop_chars(), tags) == Ok::<VersionInfo, GitflowError>(
            VersionInfo::Development,
        ),
{
}

/// Classifying a name that is none of `master`, `main`, `develop`, or a
/// release-branch pattern yields `Local` whatever the tag history.
pub proof fn lemma_unmatched_always_local(name: Seq<char>, tags: Seq<Seq<char>>)
    requires
        name != develop_chars(),
        name != master_chars(),
        name != main_chars(),
        !is_release_branch_name(name),
    ensures
        spec_resolve(name, tags) == Ok::<VersionInfo, GitflowError>(VersionInfo::Local),
{
}

} // verus!
