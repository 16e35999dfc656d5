//! Where a dependency comes from: a version requirement, a git reference or
//! a local path, together with whether default features are enabled.

use vstd::prelude::*;
use crate::version::CompView;
use crate::version::VersionReq;
use crate::version::req_eq;

verus! {

/// The origin of one dependency declaration. Equality is structural and
/// exact: the same variant with the same fields. A `Git` source may carry
/// any combination of branch, tag and rev; no exclusivity is enforced.
#[derive(Clone, Debug)]
pub enum DependencySource {
    Version(VersionReq),
    Git {
        git: String,
        branch: Option<String>,
        tag: Option<String>,
        rev: Option<String>,
        version: Option<VersionReq>,
    },
    Path { path: String, version: Option<VersionReq> },
}

/// Mathematical value of a dependency source.
pub ghost enum SourceView {
    Version(Seq<CompView>),
    Git {
        git: Seq<char>,
        branch: Option<Seq<char>>,
        tag: Option<Seq<char>>,
        rev: Option<Seq<char>>,
        version: Option<Seq<CompView>>,
    },
    Path { path: Seq<char>, version: Option<Seq<CompView>> },
}

pub open spec fn opt_view<T: View>(o: Option<T>) -> Option<T::V> {
    match o {
        Some(v) => Some(v@),
        None => None,
    }
}

impl View for DependencySource {
    type V = SourceView;

    open spec fn view(&self) -> SourceView {
        match self {
            DependencySource::Version(req) => SourceView::Version(req@),
            DependencySource::Git { git, branch, tag, rev, version } => SourceView::Git {
                git: git@,
                branch: opt_view(*branch),
                tag: opt_view(*tag),
                rev: opt_view(*rev),
                version: opt_view(*version),
            },
            DependencySource::Path { path, version } => SourceView::Path {
                path: path@,
                version: opt_view(*version),
            },
        }
    }
}

/// One observed or proposed shared declaration: a source and whether default
/// features are enabled.
#[derive(Clone, Debug)]
pub struct SharedDependency {
    pub default_features: bool,
    pub source: DependencySource,
}

/// Mathematical value of a shared declaration.
pub ghost struct SharedDepView {
    pub default_features: bool,
    pub source: SourceView,
}

impl View for SharedDependency {
    type V = SharedDepView;

    open spec fn view(&self) -> SharedDepView {
        SharedDepView { default_features: self.default_features, source: self.source@ }
    }
}

pub fn opt_string_eq(a: &Option<String>, b: &Option<String>) -> (r: bool)
    ensures
        r == (opt_view(*a) == opt_view(*b)),
{
    match (a, b) {
        (Some(x), Some(y)) => *x == *y,
        (None, None) => true,
        _ => false,
    }
}

pub fn opt_req_eq(a: &Option<VersionReq>, b: &Option<VersionReq>) -> (r: bool)
    ensures
        r == (opt_view(*a) == opt_view(*b)),
{
    match (a, b) {
        (Some(x), Some(y)) => req_eq(x, y),
        (None, None) => true,
        _ => false,
    }
}

pub fn clone_opt_string(o: &Option<String>) -> (r: Option<String>)
    ensures
        opt_view(r) == opt_view(*o),
{
    match o {
        Some(s) => Some(s.clone()),
        None => None,
    }
}

pub fn clone_opt_req(o: &Option<VersionReq>) -> (r: Option<VersionReq>)
    ensures
        opt_view(r) == opt_view(*o),
{
    match o {
        Some(q) => Some(crate::version::clone_req(q)),
        None => None,
    }
}

/// Copies a dependency source, keeping its mathematical value.
pub fn clone_source(s: &DependencySource) -> (r: DependencySource)
    ensures
        r@ == s@,
{
    match s {
        DependencySource::Version(req) => DependencySource::Version(
            crate::version::clone_req(req),
        ),
        DependencySource::Git { git, branch, tag, rev, version } => DependencySource::Git {
            git: git.clone(),
            branch: clone_opt_string(branch),
            tag: clone_opt_string(tag),
            rev: clone_opt_string(rev),
            version: clone_opt_req(version),
        },
        DependencySource::Path { path, version } => DependencySource::Path {
            path: path.clone(),
            version: clone_opt_req(version),
        },
    }
}

/// Copies a shared declaration, keeping its mathematical value.
pub fn clone_shared(d: &SharedDependency) -> (r: SharedDependency)
    ensures
        r@ == d@,
{
    SharedDependency { default_features: d.default_features, source: clone_source(&d.source) }
}

/// Structural equality of two dependency sources.
pub fn source_eq(a: &DependencySource, b: &DependencySource) -> (r: bool)
    ensures
        r == (a@ == b@),
{
    match (a, b) {
        (DependencySource::Version(ra), DependencySource::Version(rb)) => req_eq(ra, rb),
        (
            DependencySource::Git { git: ga, branch: ba, tag: ta, rev: va, version: ra },
            DependencySource::Git { git: gb, branch: bb, tag: tb, rev: vb, version: rb },
        ) => {
            let r = *ga == *gb && opt_string_eq(ba, bb) && opt_string_eq(ta, tb)
                && opt_string_eq(va, vb) && opt_req_eq(ra, rb);
            proof {
                if r {
                    assert(a@ == b@);
                }
            }
            r
        },
        (
            DependencySource::Path { path: pa, version: ra },
            DependencySource::Path { path: pb, version: rb },
        ) => {
            let r = *pa == *pb && opt_req_eq(ra, rb);
            proof {
                if r {
                    assert(a@ == b@);
                }
            }
            r
        },
        _ => false,
    }
}

} // verus!
