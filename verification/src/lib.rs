//! Centralizes duplicated dependency declarations of a multi-package
//! workspace into a single shared declaration, and rewrites each member
//! manifest to reference it.
//!
//! The crate is organized around two stages:
//!
//! - aggregation: every dependency entry of every manifest is classified
//!   (already shared, shareable, or unsupported) and the shareable ones are
//!   merged per package name into a minimal set of mutually incompatible
//!   source declarations;
//! - patching: for each package name with exactly one surviving declaration,
//!   a canonical shared entry is planned for the workspace manifest and each
//!   member entry is replaced by a reference to it, preserving the entry's
//!   comments and whitespace.
//!
//! File reading and writing, workspace discovery and document parsing are
//! collaborators around this crate; the types here model exactly what the
//! algorithms read of them.

pub mod aggregate;
pub mod classify;
pub mod dedup;
pub mod metadata;
pub mod patch;
pub mod render;
pub mod source;
pub mod version;

pub use source::DependencySource;
pub use source::SharedDependency;
pub use version::Comparator;
pub use version::ReqOp;
pub use version::VersionReq;

use vstd::prelude::*;

verus! {

/// Configuration of one run.
#[derive(Debug)]
pub struct AutoInheritConf {
    /// Render an inherited dependency as `package.workspace = true` where
    /// nothing else is carried over.
    pub prefer_simple_dotted: bool,
    /// Package names of workspace members to exclude: they are neither read
    /// nor rewritten.
    pub exclude_members: Vec<String>,
    /// Path of the workspace manifest, overriding discovery.
    pub manifest_path: Option<String>,
}

impl Default for AutoInheritConf {
    /// The default run keeps the detailed rendering, excludes nobody and
    /// lets the workspace be discovered.
    fn default() -> (r: AutoInheritConf)
        ensures
            !r.prefer_simple_dotted,
            r.exclude_members@.len() == 0,
            r.manifest_path is None,
    {
        AutoInheritConf { prefer_simple_dotted: false, exclude_members: Vec::new(), manifest_path: None }
    }
}

/// The one subcommand this tool answers to when invoked through Cargo.
#[derive(Debug)]
pub enum CargoInvocation {
    /// Centralize all dependencies as shared workspace dependencies.
    AutoInherit(AutoInheritConf),
}

/// The combined list of excluded member names: those of the configuration,
/// then those of the workspace metadata.
pub fn combine_excludes(conf: &Vec<String>, metadata: &Vec<String>) -> (r: Vec<String>)
    ensures
        r@.map_values(|s: String| s@) == conf@.map_values(|s: String| s@) + metadata@.map_values(
            |s: String| s@,
        ),
{
    let mut r: Vec<String> = Vec::new();
    let n1 = conf.len();
    for i in 0..n1
        invariant
            n1 == conf.len(),
            r@.len() == i,
            forall|k: int| 0 <= k < i ==> r@[k]@ == conf@[k]@,
    {
        r.push(conf[i].clone());
    }
    let n2 = metadata.len();
    for i in 0..n2
        invariant
            n2 == metadata.len(),
            n1 == conf.len(),
            r@.len() == n1 + i,
            forall|k: int| 0 <= k < n1 ==> r@[k]@ == conf@[k]@,
            forall|k: int| n1 <= k < n1 + i ==> r@[k]@ == metadata@[k - n1]@,
    {
        r.push(metadata[i].clone());
    }
    proof {
        assert(r@.map_values(|s: String| s@) =~= conf@.map_values(|s: String| s@)
            + metadata@.map_values(|s: String| s@));
    }
    r
}

} // verus!
