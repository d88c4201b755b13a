//! The strategy capability and the sandboxed strategy workspace.

pub mod context;

use crate::strategy::context::{StrategyContext, StrategyError};
use crate::utils::str_eq;
use vstd::prelude::*;

verus! {

/// A trading strategy, called once per bar during a backtest. The
/// engine passes the account; the strategy observes it and may call
/// the account's public operations.
///
/// Implementations outside this crate are not verified; the contract
/// below holds of every implementation that touches the account only
/// through its public operations.
pub trait Strategy {
    fn tick(&mut self, context: &mut StrategyContext) -> (r: Result<(), StrategyError>)
        requires
            old(context).wf(),
        ensures
            final(context).wf(),
    ;
}

/// A strategy that never trades.
pub struct HoldStrategy;

impl Strategy for HoldStrategy {
    fn tick(&mut self, context: &mut StrategyContext) -> (r: Result<(), StrategyError>) {
        Ok(())
    }
}

/// The sandboxed workspace that holds strategy source packages.
#[derive(Debug, Clone)]
pub struct StrategyManager {
    pub workspace_dir: String,
}

impl StrategyManager {
    /// A manager rooted at the given workspace directory.
    pub fn new(workspace_dir: String) -> (r: StrategyManager)
        ensures
            r.workspace_dir@ == workspace_dir@,
    {
        StrategyManager { workspace_dir }
    }
}

/// Hyphens of a package name become underscores in its artifact's
/// file stem.
pub open spec fn spec_artifact_stem(name: Seq<char>) -> Seq<char> {
    name.map_values(|c: char| if c == '-' { '_' } else { c })
}

/// The file stem of a strategy's compiled artifact.
pub fn strategy_artifact_stem(name: &str) -> (r: String)
    ensures
        r@ == spec_artifact_stem(name@),
{
    let n = name.unicode_len();
    let mut out = String::new();
    let mut start: usize = 0;
    let mut i: usize = 0;
    while i < n
        invariant
            start <= i <= n,
            n == name@.len(),
            out@ =~= spec_artifact_stem(name@.subrange(0, start as int)),
            forall|j: int| start <= j < i ==> name@[j] != '-',
        decreases n - i,
    {
        let c = name.get_char(i);
        if c == '-' {
            let seg = name.substring_char(start, i);
            out.append(seg);
            out.append("_");
            proof {
                reveal_strlit("_");
                assert(out@ =~= spec_artifact_stem(name@.subrange(0, i + 1)));
            }
            start = i + 1;
        }
        i = i + 1;
    }
    let seg = name.substring_char(start, n);
    out.append(seg);
    proof {
        assert(out@ =~= spec_artifact_stem(name@));
    }
    out
}

/// Whether a package name is absent from a workspace member list.
pub fn can_add_member(members: &Vec<String>, name: &str) -> (r: bool)
    ensures
        r == !(exists|i: int| 0 <= i < members@.len() && members@[i]@ == name@),
{
    let mut i: usize = 0;
    while i < members.len()
        invariant
            i <= members@.len(),
            forall|j: int| 0 <= j < i ==> members@[j]@ != name@,
        decreases members@.len() - i,
    {
        if str_eq(members[i].as_str(), name) {
            return false;
        }
        i = i + 1;
    }
    true
}

} // verus!
