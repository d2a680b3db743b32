//! Harness workspace root discovery and where the state database lives.
use vstd::prelude::*;

use crate::paths::{join_path, joined};

verus! {

/// Name of the harness config file that marks a workspace root.
pub const CONFIG_FILENAME: &'static str = "do-harness.toml";

/// Name of the agent contract file used as a secondary root marker.
pub const AGENTS_FILENAME: &'static str = "AGENTS.md";

/// Name of the local state directory inside a workspace root.
pub const STATE_DIR: &'static str = ".do-harness";

/// Relative path of the invariant seed file inside a workspace root.
pub const INVARIANTS_RELATIVE_PATH: &'static str = "plans/invariants.json";

/// Which root markers a directory carries.
#[derive(Debug, Clone, Copy, PartialEq, Eq, Structural)]
pub struct RootMarkers {
    /// `do-harness.toml` exists.
    pub config: bool,
    /// `AGENTS.md` exists.
    pub agents: bool,
    /// `.do-harness/` exists.
    pub state_dir: bool,
    /// `plans/invariants.json` exists.
    pub invariants: bool,
}

/// A directory is a root when it carries `do-harness.toml`, or `AGENTS.md`
/// together with `.do-harness/` or `plans/invariants.json`.
pub open spec fn marks_root(m: RootMarkers) -> bool {
    m.config || (m.agents && (m.state_dir || m.invariants))
}

/// Whether a directory with these markers is a harness root.
pub fn is_harness_root(m: RootMarkers) -> (b: bool)
    ensures
        b == marks_root(m),
{
    if m.config {
        return true;
    }
    m.agents && (m.state_dir || m.invariants)
}

/// One ancestor of the start directory and the markers it carries.
pub struct RootProbe {
    pub dir: String,
    pub markers: RootMarkers,
}

/// No harness root marker was found.
#[derive(Debug, Clone, Copy, PartialEq, Eq, Structural)]
pub struct RootNotFound;

/// The root among `ancestors` (the start directory first, then each parent):
/// the first that carries a root marker.
pub fn find_harness_root(ancestors: &[RootProbe]) -> (r: Result<String, RootNotFound>)
    ensures
        match r {
            Ok(d) => exists|i: int|
                0 <= i < ancestors.len() && marks_root(#[trigger] ancestors@[i].markers) && d@ == ancestors@[i].dir@
                    && forall|j: int| 0 <= j < i ==> !marks_root(ancestors@[j].markers),
            Err(_) => forall|j: int| 0 <= j < ancestors.len() ==> !marks_root(#[trigger] ancestors@[j].markers),
        },
{
    let mut i: usize = 0;
    while i < ancestors.len()
        invariant
            i <= ancestors.len(),
            forall|j: int| 0 <= j < i ==> !marks_root(#[trigger] ancestors@[j].markers),
        decreases ancestors.len() - i,
    {
        if is_harness_root(ancestors[i].markers) {
            return Ok(ancestors[i].dir.clone());
        }
        i = i + 1;
    }
    Err(RootNotFound)
}

/// Path of the agent-state database under `root`:
/// `<root>/.do-harness/agent_state.db`.
pub fn db_path(root: &str) -> (p: String)
    ensures
        p@ == joined(joined(root@, ".do-harness"@), "agent_state.db"@),
{
    let dir = join_path(root, STATE_DIR);
    join_path(dir.as_str(), "agent_state.db")
}

} // verus!
