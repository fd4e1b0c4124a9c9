//! The resolution orchestrator: validates the branch-tip uniqueness gate,
//! resolves the version kind, counts the build number, and assembles the
//! snapshot record.  Callers hand over plain values read from a repository:
//! the head commit's identifier bytes, the branch descriptors, the reachable
//! tag texts, and the ancestry graph.

use vstd::prelude::*;

use crate::graph::CommitGraph;
use crate::graph::clamp_u64;
use crate::graph::graph_wf;
use crate::graph::spec_build_number;
use crate::resolver::resolve_version;
use crate::resolver::spec_resolve;
use crate::version::GitflowError;
use crate::version::GitflowInfo;

verus! {

/// One branch as reported by the repository: its name, and whether its tip
/// is the head commit.
pub struct BranchDescriptor {
    pub name: String,
    pub is_head: bool,
}

/// How many branch tips point at the head commit.
pub open spec fn head_count(s: Seq<BranchDescriptor>) -> nat
    decreases s.len(),
{
    if s.len() == 0 {
        0
    } else {
        head_count(s.drop_last()) + if s.last().is_head {
            1nat
        } else {
            0nat
        }
    }
}

/// The character for one hexadecimal digit value, lowercase.
pub open spec fn spec_hex_char(d: nat) -> char {
    if d == 0 {
        '0'
    } else if d == 1 {
        '1'
    } else if d == 2 {
        '2'
    } else if d == 3 {
        '3'
    } else if d == 4 {
        '4'
    } else if d == 5 {
        '5'
    } else if d == 6 {
        '6'
    } else if d == 7 {
        '7'
    } else if d == 8 {
        '8'
    } else if d == 9 {
        '9'
    } else if d == 10 {
        'a'
    } else if d == 11 {
        'b'
    } else if d == 12 {
        'c'
    } else if d == 13 {
        'd'
    } else if d == 14 {
        'e'
    } else {
        'f'
    }
}

/// Lowercase hexadecimal text of a byte string: two digits per byte, high
/// nibble first.
pub open spec fn spec_hex(bytes: Seq<u8>) -> Seq<char>
    decreases bytes.len(),
{
    if bytes.len() == 0 {
        Seq::<char>::empty()
    } else {
        seq![
            spec_hex_char((bytes.first() / 16) as nat),
            spec_hex_char((bytes.first() % 16) as nat),
        ] + spec_hex(bytes.drop_first())
    }
}

/// Relies on `hex::encode`: lowercase hexadecimal, exactly two digits per
/// byte, high nibble first.
#[verifier::external_body]
fn hex_encode(bytes: &Vec<u8>) -> (r: String)
    ensures
        r@ == spec_hex(bytes@),
{
    hex::encode(bytes)
}

/// The branch-tip uniqueness gate: of the handed-over branches, exactly one
/// must point at the head commit.  Returns that branch's name; zero branches
/// fail with `NoBranchAtHead`, several with `AmbiguousBranch`.
pub fn select_head_branch(branches: &Vec<BranchDescriptor>) -> (r: Result<String, GitflowError>)
    ensures
        match r {
            Ok(name) => head_count(branches@) == 1 && exists|k: int|
                0 <= k < branches@.len() && (#[trigger] branches@[k]).is_head && name@
                    == branches@[k].name@,
            Err(GitflowError::NoBranchAtHead) => head_count(branches@) == 0,
            Err(GitflowError::AmbiguousBranch) => head_count(branches@) >= 2,
            Err(_) => false,
        },
{
    let ghost bs = branches@;
    proof {
        assert(bs.take(0) =~= Seq::<BranchDescriptor>::empty());
    }
    let mut count: usize = 0;
    let mut found: usize = 0;
    let mut i: usize = 0;
    while i < branches.len()
        invariant
            0 <= i <= bs.len(),
            bs == branches@,
            count as nat == head_count(bs.take(i as int)),
            count <= i,
            count >= 1 ==> found < i && bs[found as int].is_head,
        decreases bs.len() - i,
    {
        proof {
            assert(bs.take(i + 1).drop_last() =~= bs.take(i as int));
            assert(bs.take(i + 1).last() == bs[i as int]);
        }
        if branches[i].is_head {
            if count == 0 {
                found = i;
            }
            count += 1;
        }
        i += 1;
    }
    proof {
        assert(bs.take(bs.len() as int) =~= bs);
    }
    if count == 0 {
        return Err(GitflowError::NoBranchAtHead);
    }
    if count > 1 {
        return Err(GitflowError::AmbiguousBranch);
    }
    Ok(branches[found].name.clone())
}

/// Whether the orchestrator's result is the one the handed-over repository
/// state calls for.
pub open spec fn get_info_matches(
    r: Result<GitflowInfo, GitflowError>,
    commit_id: Seq<u8>,
    branches: Seq<BranchDescriptor>,
    tags: Seq<Seq<char>>,
    g: Seq<Seq<usize>>,
    head: int,
) -> bool {
    if !(graph_wf(g) && 0 <= head < g.len()) {
        r == Err::<GitflowInfo, GitflowError>(GitflowError::InvalidRepository)
    } else if head_count(branches) == 0 {
        r == Err::<GitflowInfo, GitflowError>(GitflowError::NoBranchAtHead)
    } else if head_count(branches) >= 2 {
        r == Err::<GitflowInfo, GitflowError>(GitflowError::AmbiguousBranch)
    } else {
        exists|k: int|
            0 <= k < branches.len() && (#[trigger] branches[k]).is_head && match spec_resolve(
                branches[k].name@,
                tags,
            ) {
                Err(e) => r == Err::<GitflowInfo, GitflowError>(e),
                Ok(v) => r matches Ok(info) && info.branch_name@ == branches[k].name@
                    && info.version == v && info.commit_hash@ == spec_hex(commit_id)
                    && info.build_number as nat == clamp_u64(spec_build_number(g, head)),
            }
    }
}

/// Resolves a repository snapshot into a [`GitflowInfo`].
///
/// `commit_id` holds the head commit's identifier bytes, `branches` every
/// branch with its head flag, `tags` the tag texts reachable from the head,
/// and `graph`/`head` the ancestry.  The graph must be in topological order
/// and `head` in range, or the snapshot is refused as `InvalidRepository`;
/// the branch gate and the resolver errors propagate unchanged.
pub fn get_info(
    commit_id: &Vec<u8>,
    branches: &Vec<BranchDescriptor>,
    tags: &Vec<String>,
    graph: &CommitGraph,
    head: usize,
) -> (r: Result<GitflowInfo, GitflowError>)
    ensures
        get_info_matches(
            r,
            commit_id@,
            branches@,
            tags.deep_view(),
            graph.parents.deep_view(),
            head as int,
        ),
{
    if !graph.is_well_formed() || head >= graph.parents.len() {
        return Err(GitflowError::InvalidRepository);
    }
    let branch_name = match select_head_branch(branches) {
        Err(e) => { return Err(e) },
        Ok(name) => name,
    };
    let version = match resolve_version(branch_name.as_str(), tags) {
        Err(e) => { return Err(e) },
        Ok(v) => v,
    };
    let commit_hash = hex_encode(commit_id);
    let build_number = graph.build_number(head);
    Ok(GitflowInfo { branch_name, version, commit_hash, build_number })
}

} // verus!
