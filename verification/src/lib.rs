//! Build-time version resolution for gitflow-managed repositories.
//!
//! The library derives a structured semantic version from the state of a
//! repository: the branch checked out, the tags reachable from the head
//! commit, and the depth of the commit's ancestry.  It is organised as four
//! verified components:
//!
//! * a strict parser from tag-style text (`vX.Y.Z` or `vX.Y.Z-rc.W`) to a
//!   structured [`version::VersionInfo`],
//! * a resolver that classifies a branch name into one of four version kinds,
//! * a counter that measures ancestry depth of a commit in a parent graph,
//! * an orchestrator that composes the three over data read from a repository.
//!
//! Repository access itself (opening a repository, enumerating branches,
//! walking commits) is left to callers, which hand the library plain values.

pub mod chars;
pub mod graph;
pub mod info;
pub mod laws;
pub mod parse;
pub mod resolver;
pub mod version;

pub use version::GitflowError;
pub use version::GitflowInfo;
pub use version::SemverBase;
pub use version::SemverRC;
pub use version::VersionInfo;
pub use graph::CommitGraph;
pub use info::get_info;
pub use info::select_head_branch;
pub use info::BranchDescriptor;
pub use parse::parse_semver;
pub use resolver::classify_branch;
pub use resolver::resolve_version;
pub use resolver::BranchKind;
