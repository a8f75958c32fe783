//! Subcommands of the `cvg` command line, as plain values: the
//! command line parser builds them, the library reads them.
use vstd::prelude::*;
use crate::plan::PlanTransitionTarget;

verus! {

/// Audit subcommands.
#[derive(Debug, Clone)]
pub enum AuditCommand {
    /// Recompute and verify the hash chain.
    Verify {
        /// Lower bound (inclusive) on `seq`.
        from: Option<i64>,
        /// Upper bound (inclusive) on `seq`.
        to: Option<i64>,
    },
}

/// Bus subcommands.
#[derive(Debug, Clone)]
pub enum BusCommand {
    /// Print messages on a plan, oldest first.
    Tail {
        /// Plan id; the most recent open plan when omitted.
        plan: Option<String>,
        /// Project filter when no plan id is given.
        project: String,
        /// Optional topic filter. If omitted, every topic is shown.
        topic: Option<String>,
        /// Only return messages with `seq > since` (exclusive).
        since: i64,
        /// Cap on the number of messages returned (1..=100).
        limit: i64,
    },
    /// Print every topic that has at least one message on a plan.
    Topics {
        plan: Option<String>,
        project: String,
    },
    /// Publish a JSON payload to a topic.
    Post {
        /// Topic to publish on.
        topic: String,
        /// JSON payload.
        payload: String,
        /// Optional sender (agent id).
        sender: Option<String>,
        plan: Option<String>,
        project: String,
    },
}

/// Capability subcommands.
#[derive(Debug, Clone)]
pub enum CapabilityCommand {
    /// List local capability registry rows.
    List,
    /// Install a signed local capability `.tar.gz` package.
    InstallFile {
        /// Path to the local capability package.
        package: String,
        /// Detached Ed25519 signature as hex.
        signature: String,
        /// Trusted key as key_id:hex_public_key. Repeat to pin more roots.
        trusted_keys: Vec<String>,
    },
    /// Disable an installed capability.
    Disable {
        /// Capability name.
        name: String,
    },
    /// Remove a disabled capability from disk and registry.
    Remove {
        /// Capability name.
        name: String,
    },
    /// Verify a detached Ed25519 capability package signature.
    VerifySignature {
        /// Capability name.
        name: String,
        /// Capability version.
        version: String,
        /// Package checksum in sha256:<hex> form.
        checksum: String,
        /// Path to manifest JSON.
        manifest: String,
        /// Detached Ed25519 signature as hex.
        signature: String,
        /// Trusted key as key_id:hex_public_key. Repeat to pin more roots.
        trusted_keys: Vec<String>,
    },
}

/// Coherence subcommands.
#[derive(Debug, Clone)]
pub enum CoherenceCommand {
    /// Verify ADR frontmatter against the index and the workspace.
    Check {
        /// Repo root (defaults to cwd).
        root: String,
    },
}

/// CRDT subcommands.
#[derive(Debug, Clone)]
pub enum CrdtCommand {
    /// List unresolved CRDT conflicts.
    Conflicts,
}

/// Docs subcommands.
#[derive(Debug, Clone)]
pub enum DocsCommand {
    /// Rewrite (or check) every `<!-- BEGIN AUTO:... -->` block.
    Regenerate {
        /// Repo root.
        root: String,
        /// Print what would change but do not write.
        check: bool,
    },
}

/// Evidence subcommands.
#[derive(Debug, Clone)]
pub enum EvidenceCommand {
    /// Attach evidence to a task.
    Add {
        /// Task id.
        task_id: String,
        /// Evidence kind (`code`, `test`, `lint`, ...).
        kind: String,
        /// JSON payload.
        payload: String,
        /// Optional process exit code.
        exit_code: Option<i64>,
    },
    /// List evidence rows for a task.
    List {
        /// Task id.
        task_id: String,
    },
}

/// Graph subcommands.
#[derive(Debug, Clone)]
pub enum GraphCommand {
    /// Walk the workspace and refresh the graph in the daemon's SQLite.
    Build {
        /// Repo root (defaults to daemon's cwd).
        manifest_dir: Option<String>,
        /// Re-parse every file even if mtime unchanged.
        force: bool,
    },
    /// Print the current node + edge counts.
    Stats,
    /// Emit a context-pack scoped to one task.
    ForTask {
        /// Task id.
        task_id: String,
        /// Cap on matched-node count.
        node_limit: Option<usize>,
        /// Cap on the file-union token estimate.
        token_budget: Option<u64>,
        /// Primary crate scope, e.g. `convergio-graph`.
        crate_name: Option<String>,
        /// Comma-separated related crates.
        related_crates: Option<String>,
        /// Comma-separated required ADR ids or paths.
        adr_required: Option<String>,
        /// Comma-separated required documentation paths.
        docs_required: Option<String>,
        /// Named validation profile for the specialized agent.
        validation_profile: Option<String>,
    },
    /// Compare ADR claims (touches_crates) against the git history.
    Drift {
        /// Git ref to diff against (default `origin/main`).
        since: Option<String>,
        /// Optional ADR id to scope the declared set.
        adr: Option<String>,
        /// Repo root (defaults to daemon's cwd).
        repo_root: Option<String>,
    },
    /// Run community detection over the named crate's file graph.
    Cluster {
        /// Crate to inspect (e.g. `convergio-durability`).
        crate_name: String,
        /// Optional LOC budget per community.
        target_loc: Option<u64>,
    },
}

/// MCP diagnostic subcommands.
#[derive(Debug, Clone)]
pub enum McpCommand {
    /// Print recent MCP bridge log lines.
    Tail {
        /// Number of recent lines to print.
        lines: usize,
    },
}

/// Plan subcommands.
#[derive(Debug, Clone)]
pub enum PlanCommand {
    /// Create a new plan.
    Create {
        /// Plan title.
        title: String,
        /// Optional description.
        description: Option<String>,
        /// Optional project or repository this plan belongs to.
        project: Option<String>,
    },
    /// List plans.
    List {
        /// Max rows to return.
        limit: i64,
    },
    /// Get a plan by id.
    Get {
        /// UUID of the plan.
        id: String,
    },
    /// Rename a plan in place. Writes one `plan.renamed` audit row.
    Rename {
        /// UUID of the plan.
        id: String,
        /// New title (non-empty).
        title: String,
        /// Agent id to record on the audit row (optional).
        agent_id: Option<String>,
    },
    /// Move a plan to a new lifecycle status.
    Transition {
        /// UUID of the plan.
        id: String,
        /// Target status.
        target: PlanTransitionTarget,
    },
    /// Surface pending/failed tasks not touched for N days.
    Triage {
        /// UUID of the plan.
        id: String,
        /// Number of days without an update before a task is considered stale.
        stale_days: i64,
        /// Close all listed stale tasks after operator confirmation.
        auto_close: bool,
    },
}

/// Pr subcommands.
#[derive(Debug, Clone)]
pub enum PrCommand {
    /// Show open PRs, the file-conflict matrix, and a suggested merge order.
    Stack,
}

/// User-level service subcommands.
#[derive(Debug, Clone)]
pub enum ServiceCommand {
    /// Write the user service file.
    Install {
        /// Overwrite an existing service file.
        force: bool,
    },
    /// Start or reload the user service.
    Start,
    /// Stop the user service.
    Stop,
    /// Show whether the service manager reports it as loaded.
    Status,
    /// Stop and remove the user service file.
    Uninstall,
}

/// Session subcommands.
#[derive(Debug, Clone)]
pub enum SessionCommand {
    /// Print a cold-start brief for the session.
    Resume {
        /// Plan id; the most recently updated open plan when omitted.
        plan_id: Option<String>,
        /// Project filter when no plan id is given.
        project: String,
        /// Number of next-priority pending tasks to surface.
        next_limit: usize,
        /// Optional task id whose context precedes the brief.
        task_id: Option<String>,
    },
    /// Run the end-of-session safety net (PRD-001 Artefact 4).
    PreStop {
        /// Stable agent id (matches what was registered).
        agent_id: String,
        /// Detach despite findings.
        force: bool,
    },
}

} // verus!
