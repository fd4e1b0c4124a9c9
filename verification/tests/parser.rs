//! Tests for the version-text parser and the rendering accessors.

use gitflow_version::parse_semver;
use gitflow_version::GitflowError;
use gitflow_version::SemverBase;
use gitflow_version::SemverRC;
use gitflow_version::VersionInfo;

#[test]
fn parse_release_1() {
    assert_eq!(
        parse_semver("v0.1.0").unwrap(),
        VersionInfo::Production(SemverBase {
            major: 0,
            minor: 1,
            patch: 0,
        })
    );
}

#[test]
fn parse_release_2() {
    assert_eq!(
        parse_semver("v3.2.1").unwrap(),
        VersionInfo::Production(SemverBase {
            major: 3,
            minor: 2,
            patch: 1,
        })
    );
}

#[test]
fn parse_alpha_1() {
    assert_eq!(
        parse_semver("v1.2.3-rc.9").unwrap(),
        VersionInfo::Alpha(SemverRC {
            base: SemverBase {
                major: 1,
                minor: 2,
                patch: 3,
            },
            rc: 9,
        })
    );
}

#[test]
fn parse_alpha_2() {
    assert_eq!(
        parse_semver("v1.13.4-rc.1").unwrap(),
        VersionInfo::Alpha(SemverRC {
            base: SemverBase {
                major: 1,
                minor: 13,
                patch: 4,
            },
            rc: 1,
        })
    );
}

#[test]
fn parse_bad_1() {
    assert!(parse_semver("O1").is_err());
}

#[test]
fn parse_bad_2() {
    assert!(parse_semver("").is_err());
}

#[test]
fn parse_bad_3() {
    assert!(parse_semver("A").is_err());
}

#[test]
fn parse_bad_4() {
    assert!(parse_semver("1.1").is_err());
}

#[test]
fn parse_rejects_missing_prefix() {
    assert_eq!(parse_semver("1.2.3"), Err(GitflowError::MissingPrefix));
    assert_eq!(parse_semver(""), Err(GitflowError::MissingPrefix));
    assert_eq!(parse_semver("x1.2.3"), Err(GitflowError::MissingPrefix));
}

#[test]
fn parse_rejects_malformed_versions() {
    assert_eq!(parse_semver("vA.B.C"), Err(GitflowError::MalformedVersion));
    assert_eq!(parse_semver("v"), Err(GitflowError::MalformedVersion));
    assert_eq!(parse_semver("v1.2"), Err(GitflowError::MalformedVersion));
    assert_eq!(parse_semver("v1.2.3.4"), Err(GitflowError::MalformedVersion));
    assert_eq!(parse_semver("v01.2.3"), Err(GitflowError::MalformedVersion));
    assert_eq!(parse_semver("v1.2.3-"), Err(GitflowError::MalformedVersion));
    assert_eq!(parse_semver("v1.2.3-rc..1"), Err(GitflowError::MalformedVersion));
    assert_eq!(parse_semver("v1.2.3-rc.07"), Err(GitflowError::MalformedVersion));
    assert_eq!(parse_semver("v1.0.0+"), Err(GitflowError::MalformedVersion));
}

#[test]
fn parse_rejects_build_metadata() {
    assert_eq!(
        parse_semver("v1.0.0+build5"),
        Err(GitflowError::BuildMetadataNotAllowed)
    );
    assert_eq!(
        parse_semver("v1.0.0-rc.1+build5"),
        Err(GitflowError::BuildMetadataNotAllowed)
    );
}

#[test]
fn parse_rejects_out_of_range_components() {
    assert_eq!(parse_semver("v256.0.0"), Err(GitflowError::ComponentOutOfRange));
    assert_eq!(parse_semver("v0.256.0"), Err(GitflowError::ComponentOutOfRange));
    assert_eq!(parse_semver("v0.0.999"), Err(GitflowError::ComponentOutOfRange));
    assert_eq!(
        parse_semver("v18446744073709551617.0.0"),
        Err(GitflowError::ComponentOutOfRange)
    );
    assert_eq!(
        parse_semver("v0.1.0").unwrap(),
        VersionInfo::Production(SemverBase {
            major: 0,
            minor: 1,
            patch: 0,
        })
    );
}

#[test]
fn parse_rejects_unsupported_prerelease() {
    assert_eq!(
        parse_semver("v1.0.0-beta.1"),
        Err(GitflowError::UnsupportedPrerelease(String::from("beta")))
    );
    assert_eq!(
        parse_semver("v1.0.0-alpha"),
        Err(GitflowError::UnsupportedPrerelease(String::from("alpha")))
    );
}

#[test]
fn parse_rejects_missing_or_invalid_rc() {
    assert_eq!(parse_semver("v1.0.0-rc"), Err(GitflowError::MissingOrInvalidRc));
    assert_eq!(parse_semver("v1.0.0-rc.x"), Err(GitflowError::MissingOrInvalidRc));
    assert_eq!(parse_semver("v1.0.0-rc.1x"), Err(GitflowError::MissingOrInvalidRc));
    assert_eq!(parse_semver("v1.0.0-rc.999"), Err(GitflowError::MissingOrInvalidRc));
}

#[test]
fn parse_ignores_prerelease_segments_past_rc() {
    assert_eq!(
        parse_semver("v1.0.0-rc.2.nightly").unwrap(),
        VersionInfo::Alpha(SemverRC {
            base: SemverBase {
                major: 1,
                minor: 0,
                patch: 0,
            },
            rc: 2,
        })
    );
}

#[test]
fn production_round_trip() {
    for text in ["v0.1.0", "v3.2.1", "v255.255.255", "v0.0.0", "v12.0.7"] {
        let parsed = parse_semver(text).unwrap();
        assert!(parsed.is_production());
        assert_eq!(parsed.get_semver(), Some(String::from(text)));
    }
}

#[test]
fn alpha_round_trip() {
    for text in ["v1.2.3-rc.9", "v1.13.4-rc.1", "v255.255.255-rc.255", "v0.0.0-rc.1"] {
        let parsed = parse_semver(text).unwrap();
        assert!(parsed.is_alpha());
        assert_eq!(parsed.get_semver(), Some(String::from(text)));
    }
}

#[test]
fn get_semver_absent_for_plain_kinds() {
    assert_eq!(VersionInfo::Development.get_semver(), None);
    assert_eq!(VersionInfo::Local.get_semver(), None);
    assert!(!VersionInfo::Development.is_production());
    assert!(!VersionInfo::Development.is_alpha());
    assert!(!VersionInfo::Local.is_production());
    assert!(!VersionInfo::Local.is_alpha());
}

#[test]
fn kind_predicates_match_one_variant_each() {
    let prod = VersionInfo::Production(SemverBase {
        major: 1,
        minor: 2,
        patch: 3,
    });
    let alpha = VersionInfo::Alpha(SemverRC {
        base: SemverBase {
            major: 1,
            minor: 2,
            patch: 3,
        },
        rc: 4,
    });
    assert!(prod.is_production() && !prod.is_alpha());
    assert!(alpha.is_alpha() && !alpha.is_production());
}

#[test]
fn describe_renders_each_kind() {
    let prod = VersionInfo::Production(SemverBase {
        major: 1,
        minor: 2,
        patch: 3,
    });
    let alpha = VersionInfo::Alpha(SemverRC {
        base: SemverBase {
            major: 1,
            minor: 2,
            patch: 3,
        },
        rc: 4,
    });
    assert_eq!(prod.describe(), "Prod: v1.2.3");
    assert_eq!(alpha.describe(), "Alpha: v1.2.3-rc.4");
    assert_eq!(VersionInfo::Development.describe(), "Development");
    assert_eq!(VersionInfo::Local.describe(), "Local");
}
