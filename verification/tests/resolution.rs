//! Tests for branch classification, version resolution, the build-number
//! counter, and the orchestrator.

use gitflow_version::get_info;
use gitflow_version::resolve_version;
use gitflow_version::select_head_branch;
use gitflow_version::BranchDescriptor;
use gitflow_version::BranchKind;
use gitflow_version::CommitGraph;
use gitflow_version::GitflowError;
use gitflow_version::SemverBase;
use gitflow_version::SemverRC;
use gitflow_version::VersionInfo;
use gitflow_version::classify_branch;

fn tags(texts: &[&str]) -> Vec<String> {
    texts.iter().map(|t| String::from(*t)).collect()
}

#[test]
fn classify_recognises_the_four_kinds() {
    assert_eq!(classify_branch("develop"), BranchKind::Develop);
    assert_eq!(classify_branch("master"), BranchKind::Mainline);
    assert_eq!(classify_branch("main"), BranchKind::Mainline);
    assert_eq!(classify_branch("v1.2.3"), BranchKind::Release);
    assert_eq!(classify_branch("v001.02.3"), BranchKind::Release);
    assert_eq!(classify_branch("feature/login"), BranchKind::Feature);
    assert_eq!(classify_branch("v1.2"), BranchKind::Feature);
    assert_eq!(classify_branch("v1.2.3-rc.1"), BranchKind::Feature);
    assert_eq!(classify_branch("developer"), BranchKind::Feature);
    assert_eq!(classify_branch(""), BranchKind::Feature);
}

#[test]
fn develop_resolves_to_development_whatever_the_tags() {
    assert_eq!(
        resolve_version("develop", &tags(&[])),
        Ok(VersionInfo::Development)
    );
    assert_eq!(
        resolve_version("develop", &tags(&["v1.2.3", "v9.9.9-rc.9", "junk"])),
        Ok(VersionInfo::Development)
    );
}

#[test]
fn feature_branches_resolve_to_local_whatever_the_tags() {
    assert_eq!(
        resolve_version("feature/shiny", &tags(&["v1.2.3"])),
        Ok(VersionInfo::Local)
    );
    assert_eq!(resolve_version("hotfix", &tags(&[])), Ok(VersionInfo::Local));
}

#[test]
fn mainline_takes_the_highest_release_tag() {
    assert_eq!(
        resolve_version("master", &tags(&["v0.9.9", "v1.2.3", "v1.2.2", "junk"])),
        Ok(VersionInfo::Production(SemverBase {
            major: 1,
            minor: 2,
            patch: 3,
        }))
    );
    assert_eq!(
        resolve_version("main", &tags(&["v2.0.0", "v10.0.0"])),
        Ok(VersionInfo::Production(SemverBase {
            major: 10,
            minor: 0,
            patch: 0,
        }))
    );
}

#[test]
fn mainline_without_release_tags_fails() {
    assert_eq!(
        resolve_version("master", &tags(&[])),
        Err(GitflowError::NoReleaseAncestor)
    );
    assert_eq!(
        resolve_version("master", &tags(&["v1.0.0-rc.1", "junk"])),
        Err(GitflowError::NoReleaseAncestor)
    );
}

#[test]
fn release_branch_starts_at_candidate_one() {
    assert_eq!(
        resolve_version("v1.2.3", &tags(&[])),
        Ok(VersionInfo::Alpha(SemverRC {
            base: SemverBase {
                major: 1,
                minor: 2,
                patch: 3,
            },
            rc: 1,
        }))
    );
}

#[test]
fn release_branch_increments_past_the_highest_candidate() {
    assert_eq!(
        resolve_version("v1.2.3", &tags(&["v1.2.3-rc.1", "v1.2.3-rc.4", "v1.2.3-rc.2"])),
        Ok(VersionInfo::Alpha(SemverRC {
            base: SemverBase {
                major: 1,
                minor: 2,
                patch: 3,
            },
            rc: 5,
        }))
    );
}

#[test]
fn release_branch_ignores_candidates_of_other_bases() {
    assert_eq!(
        resolve_version("v1.2.3", &tags(&["v1.2.4-rc.7", "v0.0.1-rc.9"])),
        Ok(VersionInfo::Alpha(SemverRC {
            base: SemverBase {
                major: 1,
                minor: 2,
                patch: 3,
            },
            rc: 1,
        }))
    );
}

#[test]
fn release_branch_with_leading_zeros_keeps_the_value() {
    assert_eq!(
        resolve_version("v001.02.3", &tags(&[])),
        Ok(VersionInfo::Alpha(SemverRC {
            base: SemverBase {
                major: 1,
                minor: 2,
                patch: 3,
            },
            rc: 1,
        }))
    );
}

#[test]
fn release_branch_out_of_range_fails() {
    assert_eq!(
        resolve_version("v300.0.0", &tags(&[])),
        Err(GitflowError::ComponentOutOfRange)
    );
    assert_eq!(
        resolve_version("v1.2.3", &tags(&["v1.2.3-rc.255"])),
        Err(GitflowError::ComponentOutOfRange)
    );
}

fn descriptor(name: &str, is_head: bool) -> BranchDescriptor {
    BranchDescriptor {
        name: String::from(name),
        is_head,
    }
}

#[test]
fn head_branch_must_be_unique() {
    assert_eq!(
        select_head_branch(&vec![descriptor("develop", false)]),
        Err(GitflowError::NoBranchAtHead)
    );
    assert_eq!(
        select_head_branch(&vec![
            descriptor("develop", true),
            descriptor("master", true),
        ]),
        Err(GitflowError::AmbiguousBranch)
    );
    assert_eq!(
        select_head_branch(&vec![
            descriptor("spare", false),
            descriptor("develop", true),
        ]),
        Ok(String::from("develop"))
    );
}

fn linear_graph(depth: usize) -> CommitGraph {
    let mut parents: Vec<Vec<usize>> = vec![Vec::new()];
    for i in 1..=depth {
        parents.push(vec![i - 1]);
    }
    CommitGraph { parents }
}

#[test]
fn build_number_counts_linear_depth() {
    let g = linear_graph(5);
    assert_eq!(g.build_number(5), 5);
    assert_eq!(g.build_number(0), 0);
    assert_eq!(g.build_number(1), 1);
}

#[test]
fn build_number_counts_each_merge_path() {
    // A diamond: both paths from the tip reach the root, and each path is
    // counted on its own.
    let g = CommitGraph {
        parents: vec![Vec::new(), vec![0], vec![0], vec![1, 2]],
    };
    assert_eq!(g.build_number(3), 4);
}

#[test]
fn get_info_resolves_a_snapshot() {
    let info = get_info(
        &vec![0xab, 0x01, 0xfe],
        &vec![descriptor("main", false), descriptor("v1.2.3", true)],
        &tags(&["v1.2.3-rc.1"]),
        &linear_graph(4),
        4,
    )
    .unwrap();
    assert_eq!(info.branch_name, "v1.2.3");
    assert_eq!(
        info.version,
        VersionInfo::Alpha(SemverRC {
            base: SemverBase {
                major: 1,
                minor: 2,
                patch: 3,
            },
            rc: 2,
        })
    );
    assert_eq!(info.commit_hash, "ab01fe");
    assert_eq!(info.build_number, 4);
}

#[test]
fn get_info_propagates_gate_and_resolver_errors() {
    let g = linear_graph(1);
    assert_eq!(
        get_info(&vec![0x00], &vec![], &tags(&[]), &g, 1),
        Err(GitflowError::NoBranchAtHead)
    );
    assert_eq!(
        get_info(
            &vec![0x00],
            &vec![descriptor("master", true)],
            &tags(&[]),
            &g,
            1
        ),
        Err(GitflowError::NoReleaseAncestor)
    );
}

#[test]
fn get_info_refuses_a_malformed_graph() {
    // Commit 0 naming itself as a parent is not in topological order.
    let g = CommitGraph {
        parents: vec![vec![0]],
    };
    assert_eq!(
        get_info(
            &vec![0x00],
            &vec![descriptor("develop", true)],
            &tags(&[]),
            &g,
            0
        ),
        Err(GitflowError::InvalidRepository)
    );
    let ok = linear_graph(0);
    assert_eq!(
        get_info(
            &vec![0x00],
            &vec![descriptor("develop", true)],
            &tags(&[]),
            &ok,
            7
        ),
        Err(GitflowError::InvalidRepository)
    );
}
