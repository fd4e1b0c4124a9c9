//! The build-number counter over an explicit commit graph.
//!
//! A repository's ancestry is handed over as a parent table: commit `i`'s
//! parents are `parents[i]`, each strictly smaller than `i` (commits listed
//! in topological order, oldest first).  The build number of a commit sums,
//! over every parent edge, one plus the parent's own build number — with no
//! deduplication of commits reachable along several paths.  That double
//! counting is deliberate: it keeps the definition a simple recursion, and
//! downstream consumers rely on the exact semantic as an ordering key.  For
//! a strictly linear history of depth `N` the count is exactly `N`.

use vstd::prelude::*;

verus! {

/// A commit ancestry graph in topological order: entry `i` lists the parent
/// indices of commit `i`, each strictly smaller than `i`.
pub struct CommitGraph {
    pub parents: Vec<Vec<usize>>,
}

/// Well-formedness of a parent table: every parent index precedes its child.
pub open spec fn graph_wf(g: Seq<Seq<usize>>) -> bool {
    forall|i: int, k: int|
        0 <= i < g.len() && 0 <= k < g[i].len() ==> (#[trigger] g[i][k]) < i
}

/// The build number of commit `i`: over every parent edge, one plus the
/// parent's build number, summed with no deduplication.
pub open spec fn spec_build_number(g: Seq<Seq<usize>>, i: int) -> nat
    decreases i, g[i].len(), 1int,
{
    spec_parent_sum(g, i, 0)
}

/// The part of `spec_build_number(g, i)` contributed by parents `k` onward.
/// Parent indices that do not precede `i` contribute only their edge, so the
/// recursion is total; well-formed graphs never hit that case.
pub open spec fn spec_parent_sum(g: Seq<Seq<usize>>, i: int, k: int) -> nat
    decreases i, g[i].len() - k, 0int,
{
    if 0 <= i < g.len() && 0 <= k < g[i].len() {
        let p = g[i][k] as int;
        (if 0 <= p < i {
            1 + spec_build_number(g, p)
        } else {
            1
        }) + spec_parent_sum(g, i, k + 1)
    } else {
        0
    }
}

/// `n` clamped to the `u64` range.
pub open spec fn clamp_u64(n: nat) -> nat {
    if n <= u64::MAX {
        n
    } else {
        u64::MAX as nat
    }
}

/// Saturating addition on `u64`.
fn sat_add(a: u64, b: u64) -> (r: u64)
    ensures
        r as nat == clamp_u64(a as nat + b as nat),
{
    if a <= u64::MAX - b {
        a + b
    } else {
        u64::MAX
    }
}

impl CommitGraph {
    /// Whether the parent table is in topological order.
    pub fn is_well_formed(&self) -> (b: bool)
        ensures
            b == graph_wf(self.parents.deep_view()),
    {
        let ghost gv = self.parents.deep_view();
        let mut i: usize = 0;
        while i < self.parents.len()
            invariant
                0 <= i <= self.parents@.len(),
                gv == self.parents.deep_view(),
                gv.len() == self.parents@.len(),
                forall|q: int| 0 <= q < gv.len() ==> gv[q] == self.parents@[q]@,
                forall|q: int, k: int|
                    0 <= q < i && 0 <= k < gv[q].len() ==> (#[trigger] gv[q][k]) < q,
            decreases self.parents@.len() - i,
        {
            let row = &self.parents[i];
            let mut k: usize = 0;
            while k < row.len()
                invariant
                    0 <= k <= row@.len(),
                    row@ == self.parents@[i as int]@,
                    i < self.parents@.len(),
                    gv == self.parents.deep_view(),
                    gv.len() == self.parents@.len(),
                    forall|q: int| 0 <= q < gv.len() ==> gv[q] == self.parents@[q]@,
                    forall|kk: int| 0 <= kk < k ==> (#[trigger] gv[i as int][kk]) < i,
                decreases row@.len() - k,
            {
                if row[k] >= i {
                    proof {
                        assert(gv[i as int][k as int] == row@[k as int]);
                    }
                    return false;
                }
                k += 1;
            }
            i += 1;
        }
        true
    }

    /// The build number of commit `head`, clamped to the `u64` range:
    /// exactly `spec_build_number` whenever that fits.
    pub fn build_number(&self, head: usize) -> (r: u64)
        requires
            graph_wf(self.parents.deep_view()),
            head < self.parents@.len(),
        ensures
            r as nat == clamp_u64(spec_build_number(self.parents.deep_view(), head as int)),
        decreases head,
    {
        let ghost gv = self.parents.deep_view();
        let ghost bnum = spec_build_number(gv, head as int);
        let row = &self.parents[head];
        let mut total: u64 = 0;
        let mut k: usize = 0;
        while k < row.len()
            invariant
                0 <= k <= row@.len(),
                row@ == self.parents@[head as int]@,
                head < self.parents@.len(),
                gv == self.parents.deep_view(),
                gv.len() == self.parents@.len(),
                forall|q: int| 0 <= q < gv.len() ==> gv[q] == self.parents@[q]@,
                graph_wf(gv),
                bnum == spec_build_number(gv, head as int),
                spec_parent_sum(gv, head as int, k as int) <= bnum,
                total as nat == clamp_u64(
                    (bnum - spec_parent_sum(gv, head as int, k as int)) as nat,
                ),
            decreases row@.len() - k,
        {
            proof {
                assert(gv[head as int] == row@);
                lemma_parent_sum_step(gv, head as int, k as int);
            }
            let p = row[k];
            let c = self.build_number(p);
            total = sat_add(total, c);
            total = sat_add(total, 1);
            k += 1;
        }
        proof {
            assert(gv[head as int] == row@);
            assert(spec_parent_sum(gv, head as int, row@.len() as int) == 0);
        }
        total
    }
}

/// Unfolds one step of the parent sum.
proof fn lemma_parent_sum_step(g: Seq<Seq<usize>>, i: int, k: int)
    requires
        graph_wf(g),
        0 <= i < g.len(),
        0 <= k < g[i].len(),
    ensures
        spec_parent_sum(g, i, k) == 1 + spec_build_number(g, g[i][k] as int) + spec_parent_sum(
            g,
            i,
            k + 1,
        ),
{
    assert(g[i][k] < i);
}

/// For a strictly linear history (commit `i`'s one parent is `i - 1`, the
/// root has none), the build number of commit `n` is exactly `n`: the depth
/// of the commit in the chain.
pub proof fn lemma_linear_history_depth(g: Seq<Seq<usize>>, n: int)
    requires
        graph_wf(g),
        0 <= n < g.len(),
        g[0].len() == 0,
        forall|i: int| 1 <= i < g.len() ==> (#[trigger] g[i]).len() == 1 && g[i][0] as int == i - 1,
    ensures
        spec_build_number(g, n) == n,
    decreases n,
{
    if n == 0 {
        assert(spec_parent_sum(g, 0, 0) == 0);
    } else {
        lemma_linear_history_depth(g, n - 1);
        assert(g[n][0] as int == n - 1);
        lemma_parent_sum_step(g, n, 0);
        assert(spec_parent_sum(g, n, 1) == 0);
    }
}

} // verus!
