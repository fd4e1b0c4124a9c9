//! The structured version data model: released base versions, release
//! candidates, the four-kind version classification, the resolved snapshot
//! record, and the error taxonomy shared by the whole library.

use vstd::prelude::*;

verus! {

/// A released `major.minor.patch` triple.  Each component is confined to
/// `[0, 255]`; text with a larger component is rejected by the parser rather
/// than truncated.
#[derive(PartialEq, Eq, Structural, Debug, Copy, Clone, Hash)]
pub struct SemverBase {
    pub major: u8,
    pub minor: u8,
    pub patch: u8,
}

/// A release-candidate number scoped to one base version.
#[derive(PartialEq, Eq, Structural, Debug, Copy, Clone, Hash)]
pub struct SemverRC {
    pub base: SemverBase,
    pub rc: u8,
}

/// The closed set of version kinds a commit can resolve to.
#[derive(PartialEq, Eq, Structural, Debug, Copy, Clone, Hash)]
pub enum VersionInfo {
    /// Production release (`master`/`main` branch).
    Production(SemverBase),
    /// Alpha release (`vX.Y.Z` release branch), rendered `vX.Y.Z-rc.W`.
    Alpha(SemverRC),
    /// Build on the `develop` branch; carries no numeric version.
    Development,
    /// Local build on a feature branch; carries no numeric version.
    Local,
}

/// Everything that can go wrong while parsing version text or resolving a
/// repository state.  Each variant names exactly one violated rule.
#[derive(PartialEq, Eq, Debug, Clone, Hash)]
pub enum GitflowError {
    /// The version text does not start with the literal `v`.
    MissingPrefix,
    /// After the `v`, the text is not a well-formed semantic version.
    MalformedVersion,
    /// The version text carries a `+build` suffix, which is not allowed.
    BuildMetadataNotAllowed,
    /// A `major`/`minor`/`patch` component does not fit in `[0, 255]`, or a
    /// release branch would need a release-candidate number above 255.
    ComponentOutOfRange,
    /// The prerelease label does not start with the `rc` tag; the payload is
    /// the first prerelease segment that was found instead.
    UnsupportedPrerelease(String),
    /// The prerelease label has no second segment, or it is not an integer
    /// in `[0, 255]`.
    MissingOrInvalidRc,
    /// No branch tip points at the head commit.
    NoBranchAtHead,
    /// More than one branch tip points at the head commit.
    AmbiguousBranch,
    /// A branch name reached the resolver without matching any of the four
    /// classification rules.  `Local` is a total fallback, so this is kept
    /// only as a defensive variant.
    UnclassifiableBranch,
    /// A `master`/`main` head has no reachable release tag to take its base
    /// version from.
    NoReleaseAncestor,
    /// The repository cannot be opened, its head cannot be resolved to a
    /// commit, or the handed-over commit graph is not well formed.
    InvalidRepository,
}

/// The resolved snapshot of a repository head: produced once per resolution,
/// never mutated afterwards.
#[derive(PartialEq, Eq, Debug, Clone, Hash)]
pub struct GitflowInfo {
    pub branch_name: String,
    pub version: VersionInfo,
    pub commit_hash: String,
    pub build_number: u64,
}

/// The character for a single decimal digit value.
pub open spec fn spec_digit_char(d: nat) -> char {
    if d == 0 {
        '0'
    } else if d == 1 {
        '1'
    } else if d == 2 {
        '2'
    } else if d == 3 {
        '3'
    } else if d == 4 {
        '4'
    } else if d == 5 {
        '5'
    } else if d == 6 {
        '6'
    } else if d == 7 {
        '7'
    } else if d == 8 {
        '8'
    } else {
        '9'
    }
}

/// Canonical decimal rendering of a number: no leading zeros, `0` for zero.
pub open spec fn spec_dec(n: nat) -> Seq<char>
    decreases n,
{
    if n < 10 {
        seq![spec_digit_char(n)]
    } else {
        spec_dec(n / 10) + seq![spec_digit_char(n % 10)]
    }
}

/// The canonical text of a base version: `vX.Y.Z`.
pub open spec fn spec_base_str(b: SemverBase) -> Seq<char> {
    seq!['v'] + spec_dec(b.major as nat) + seq!['.'] + spec_dec(b.minor as nat) + seq!['.']
        + spec_dec(b.patch as nat)
}

/// The canonical text of a release candidate: `vX.Y.Z-rc.W`.
pub open spec fn spec_rc_str(v: SemverRC) -> Seq<char> {
    spec_base_str(v.base) + seq!['-', 'r', 'c', '.'] + spec_dec(v.rc as nat)
}

/// Relies on `String::push`: appends exactly one character at the end.
#[verifier::external_body]
pub(crate) fn push_char(s: &mut String, c: char)
    ensures
        final(s)@ == old(s)@.push(c),
{
    s.push(c);
}

/// One decimal digit as a character.
fn digit_char(d: u8) -> (c: char)
    requires
        d < 10,
    ensures
        c == spec_digit_char(d as nat),
{
    if d == 0 {
        '0'
    } else if d == 1 {
        '1'
    } else if d == 2 {
        '2'
    } else if d == 3 {
        '3'
    } else if d == 4 {
        '4'
    } else if d == 5 {
        '5'
    } else if d == 6 {
        '6'
    } else if d == 7 {
        '7'
    } else if d == 8 {
        '8'
    } else {
        '9'
    }
}

/// Appends the canonical decimal rendering of `n` to `out`.
fn push_dec(out: &mut String, n: u8)
    ensures
        final(out)@ == old(out)@ + spec_dec(n as nat),
{
    if n >= 100 {
        push_char(out, digit_char(n / 100));
        push_char(out, digit_char((n / 10) % 10));
        push_char(out, digit_char(n % 10));
        proof {
            reveal_with_fuel(spec_dec, 4);
            assert((n as nat) / 10 / 10 == (n as nat) / 100) by (nonlinear_arith);
            assert(out@ =~= old(out)@ + spec_dec(n as nat));
        }
    } else if n >= 10 {
        push_char(out, digit_char(n / 10));
        push_char(out, digit_char(n % 10));
        proof {
            reveal_with_fuel(spec_dec, 3);
            assert(out@ =~= old(out)@ + spec_dec(n as nat));
        }
    } else {
        push_char(out, digit_char(n));
        proof {
            assert(out@ =~= old(out)@ + spec_dec(n as nat));
        }
    }
}

impl SemverBase {
    /// The canonical `vX.Y.Z` text of this base version.
    pub fn to_version_string(&self) -> (s: String)
        ensures
            s@ == spec_base_str(*self),
    {
        let mut out = String::new();
        push_char(&mut out, 'v');
        push_dec(&mut out, self.major);
        push_char(&mut out, '.');
        push_dec(&mut out, self.minor);
        push_char(&mut out, '.');
        push_dec(&mut out, self.patch);
        proof {
            assert(out@ =~= spec_base_str(*self));
        }
        out
    }
}

impl SemverRC {
    /// The canonical `vX.Y.Z-rc.W` text of this release candidate.
    pub fn to_version_string(&self) -> (s: String)
        ensures
            s@ == spec_rc_str(*self),
    {
        let mut out = self.base.to_version_string();
        push_char(&mut out, '-');
        push_char(&mut out, 'r');
        push_char(&mut out, 'c');
        push_char(&mut out, '.');
        push_dec(&mut out, self.rc);
        proof {
            assert(out@ =~= spec_rc_str(*self));
        }
        out
    }
}

impl VersionInfo {
    /// The tag-compatible version text: `vX.Y.Z` for `Production`,
    /// `vX.Y.Z-rc.W` for `Alpha`, and nothing for the kinds that carry no
    /// numeric version.
    pub fn get_semver(&self) -> (r: Option<String>)
        ensures
            match *self {
                VersionInfo::Production(b) => r matches Some(s) && s@ == spec_base_str(b),
                VersionInfo::Alpha(a) => r matches Some(s) && s@ == spec_rc_str(a),
                VersionInfo::Development => r is None,
                VersionInfo::Local => r is None,
            },
    {
        match self {
            VersionInfo::Production(base) => Some(base.to_version_string()),
            VersionInfo::Alpha(rc) => Some(rc.to_version_string()),
            VersionInfo::Development => None,
            VersionInfo::Local => None,
        }
    }

    /// Whether this is a `Production` version.
    pub fn is_production(&self) -> (r: bool)
        ensures
            r == (*self matches VersionInfo::Production(_)),
    {
        matches!(self, VersionInfo::Production(_))
    }

    /// Whether this is an `Alpha` version.
    pub fn is_alpha(&self) -> (r: bool)
        ensures
            r == (*self matches VersionInfo::Alpha(_)),
    {
        matches!(self, VersionInfo::Alpha(_))
    }

    /// Canonical descriptive rendering: `Prod: vX.Y.Z`, `Alpha: vX.Y.Z-rc.W`,
    /// `Development`, or `Local`.
    pub fn describe(&self) -> (s: String)
        ensures
            match *self {
                VersionInfo::Production(b) => s@ == "Prod: "@ + spec_base_str(b),
                VersionInfo::Alpha(a) => s@ == "Alpha: "@ + spec_rc_str(a),
                VersionInfo::Development => s@ == "Development"@,
                VersionInfo::Local => s@ == "Local"@,
            },
    {
        match self {
            VersionInfo::Production(base) => {
                let mut out = String::from_str("Prod: ");
                out.append(base.to_version_string().as_str());
                out
            },
            VersionInfo::Alpha(rc) => {
                let mut out = String::from_str("Alpha: ");
                out.append(rc.to_version_string().as_str());
                out
            },
            VersionInfo::Development => String::from_str("Development"),
            VersionInfo::Local => String::from_str("Local"),
        }
    }
}

/// The version-kind predicates partition the four kinds: no value is both a
/// production and an alpha version, and exactly the two numbered kinds carry
/// a version text.
pub proof fn lemma_version_kinds_disjoint(v: VersionInfo)
    ensures
        !((v matches VersionInfo::Production(_)) && (v matches VersionInfo::Alpha(_))),
        ((v matches VersionInfo::Production(_)) || (v matches VersionInfo::Alpha(_)))
            <==> !(v is Development || v is Local),
{
}

} // verus!
