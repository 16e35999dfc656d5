//! Classification of raw manifest dependency entries.
//!
//! A raw entry is either a bare requirement string, an entry that already
//! references the shared workspace declaration, or a detailed table. The
//! classifier maps each entry to one of: already inherited, shareable (with
//! its source model), or unsupported and to be skipped.

use vstd::prelude::*;
use crate::source::DependencySource;
use crate::source::SharedDepView;
use crate::source::SharedDependency;
use crate::source::SourceView;
use crate::version::CompView;
use crate::version::Comparator;
use crate::version::ReqOp;
use crate::version::VersionReq;

verus! {

/// View of an optional string.
pub open spec fn opt_str_view(o: Option<String>) -> Option<Seq<char>> {
    match o {
        Some(s) => Some(s@),
        None => None,
    }
}

/// View of an optional list of strings.
pub open spec fn opt_strs_view(o: Option<Vec<String>>) -> Option<Seq<Seq<char>>> {
    match o {
        Some(v) => Some(v@.map_values(|s: String| s@)),
        None => None,
    }
}

/// A detailed dependency table, with the fields the classifier and the
/// patcher read. Absent fields are `None`.
#[derive(Clone, Debug)]
pub struct DetailedDependency {
    pub version: Option<String>,
    pub registry: Option<String>,
    pub registry_index: Option<String>,
    pub path: Option<String>,
    pub git: Option<String>,
    pub branch: Option<String>,
    pub tag: Option<String>,
    pub rev: Option<String>,
    pub features: Option<Vec<String>>,
    pub optional: Option<bool>,
    pub default_features: Option<bool>,
    pub package: Option<String>,
}

/// Mathematical value of a detailed dependency table.
pub ghost struct DetailedView {
    pub version: Option<Seq<char>>,
    pub registry: Option<Seq<char>>,
    pub registry_index: Option<Seq<char>>,
    pub path: Option<Seq<char>>,
    pub git: Option<Seq<char>>,
    pub branch: Option<Seq<char>>,
    pub tag: Option<Seq<char>>,
    pub rev: Option<Seq<char>>,
    pub features: Option<Seq<Seq<char>>>,
    pub optional: Option<bool>,
    pub default_features: Option<bool>,
    pub package: Option<Seq<char>>,
}

impl View for DetailedDependency {
    type V = DetailedView;

    open spec fn view(&self) -> DetailedView {
        DetailedView {
            version: opt_str_view(self.version),
            registry: opt_str_view(self.registry),
            registry_index: opt_str_view(self.registry_index),
            path: opt_str_view(self.path),
            git: opt_str_view(self.git),
            branch: opt_str_view(self.branch),
            tag: opt_str_view(self.tag),
            rev: opt_str_view(self.rev),
            features: opt_strs_view(self.features),
            optional: self.optional,
            default_features: self.default_features,
            package: opt_str_view(self.package),
        }
    }
}

/// An entry that already references the shared workspace declaration,
/// optionally restating features or optionality.
#[derive(Clone, Debug)]
pub struct InheritedDetail {
    pub features: Option<Vec<String>>,
    pub optional: Option<bool>,
}

/// Mathematical value of an inherited entry.
pub ghost struct InheritedView {
    pub features: Option<Seq<Seq<char>>>,
    pub optional: Option<bool>,
}

impl View for InheritedDetail {
    type V = InheritedView;

    open spec fn view(&self) -> InheritedView {
        InheritedView { features: opt_strs_view(self.features), optional: self.optional }
    }
}

/// One raw dependency entry as a manifest declares it.
#[derive(Clone, Debug)]
pub enum RawDependency {
    /// A bare requirement string, e.g. `serde = "1.0"`.
    Simple(String),
    /// An entry already referencing the shared workspace declaration.
    Inherited(InheritedDetail),
    /// A detailed table.
    Detailed(DetailedDependency),
}

/// Mathematical value of a raw dependency entry.
pub ghost enum RawDepView {
    Simple(Seq<char>),
    Inherited(InheritedView),
    Detailed(DetailedView),
}

impl View for RawDependency {
    type V = RawDepView;

    open spec fn view(&self) -> RawDepView {
        match self {
            RawDependency::Simple(s) => RawDepView::Simple(s@),
            RawDependency::Inherited(i) => RawDepView::Inherited(i@),
            RawDependency::Detailed(d) => RawDepView::Detailed(d@),
        }
    }
}

/// The requirement that a requirement string denotes, or `None` when the
/// string is malformed. What a given string parses to depends on the string
/// alone.
pub uninterp spec fn parsed_req(s: Seq<char>) -> Option<Seq<CompView>>;

#[verifier::external_type_specification]
#[verifier::external_body]
pub struct ExSemverOp(semver::Op);

/// Relies on `semver::Op`: maps each of its eight documented operators to
/// the corresponding operator of this crate's model.
#[verifier::external_body]
fn comp_op(op: &semver::Op) -> (r: Option<ReqOp>) {
    match op {
        semver::Op::Exact => Some(ReqOp::Exact),
        semver::Op::Greater => Some(ReqOp::Greater),
        semver::Op::GreaterEq => Some(ReqOp::GreaterEq),
        semver::Op::Less => Some(ReqOp::Less),
        semver::Op::LessEq => Some(ReqOp::LessEq),
        semver::Op::Tilde => Some(ReqOp::Tilde),
        semver::Op::Caret => Some(ReqOp::Caret),
        semver::Op::Wildcard => Some(ReqOp::Wildcard),
        _ => None,
    }
}

/// Relies on `semver::VersionReq::parse`: a requirement string parses to the
/// comparators that semver's grammar gives it, a function of the string
/// alone; `*` parses to the empty comparator list.
#[verifier::external_body]
pub fn parse_req(s: &str) -> (r: Option<VersionReq>)
    ensures
        match r {
            Some(req) => parsed_req(s@) == Some(req@),
            None => parsed_req(s@) is None,
        },
{
    let parsed = semver::VersionReq::parse(s).ok()?;
    let mut comparators: Vec<Comparator> = Vec::new();
    for c in &parsed.comparators {
        comparators.push(Comparator {
            op: comp_op(&c.op)?,
            major: c.major,
            minor: c.minor,
            patch: c.patch,
            pre: c.pre.as_str().to_string(),
        });
    }
    Some(VersionReq { comparators })
}

/// Outcome of classifying one raw entry.
#[derive(Debug)]
pub enum SourceType {
    /// The entry can be centralized, with this shared declaration.
    Shareable(SharedDependency),
    /// The entry already references the shared workspace declaration.
    Inherited,
    /// The entry uses an unsupported source and disqualifies its package.
    MustBeSkipped,
}

/// Mathematical value of a classification outcome.
pub ghost enum SourceTypeView {
    Shareable(SharedDepView),
    Inherited,
    MustBeSkipped,
}

impl View for SourceType {
    type V = SourceTypeView;

    open spec fn view(&self) -> SourceTypeView {
        match self {
            SourceType::Shareable(d) => SourceTypeView::Shareable(d@),
            SourceType::Inherited => SourceTypeView::Inherited,
            SourceType::MustBeSkipped => SourceTypeView::MustBeSkipped,
        }
    }
}

/// A requirement string inside a manifest that does not parse; carries the
/// offending string. This aborts the whole run: a malformed requirement is a
/// pre-existing manifest defect outside this tool's remit.
#[derive(Debug)]
pub struct RequirementError {
    pub raw: String,
}

/// Classification of one raw entry, `None` when a requirement string in it
/// is malformed:
///
/// - a bare string is a version source with default features enabled;
/// - an inherited entry contributes nothing;
/// - a detailed table with a custom registry is unsupported, whatever else it
///   sets; otherwise `path` takes precedence, then `git` (carrying branch,
///   tag and rev verbatim), then `version`; a table with none of the three is
///   unsupported;
/// - `default-features` defaults to enabled when unspecified.
pub open spec fn classify_s(dep: RawDepView) -> Option<SourceTypeView> {
    match dep {
        RawDepView::Simple(v) => match parsed_req(v) {
            Some(r) => Some(
                SourceTypeView::Shareable(
                    SharedDepView { default_features: true, source: SourceView::Version(r) },
                ),
            ),
            None => None,
        },
        RawDepView::Inherited(_) => Some(SourceTypeView::Inherited),
        RawDepView::Detailed(d) => {
            if d.registry is Some || d.registry_index is Some {
                Some(SourceTypeView::MustBeSkipped)
            } else if d.path is Some {
                match parsed_opt_req(d.version) {
                    Some(v) => Some(
                        SourceTypeView::Shareable(
                            SharedDepView {
                                default_features: defaulted(d.default_features),
                                source: SourceView::Path { path: d.path->Some_0, version: v },
                            },
                        ),
                    ),
                    None => None,
                }
            } else if d.git is Some {
                match parsed_opt_req(d.version) {
                    Some(v) => Some(
                        SourceTypeView::Shareable(
                            SharedDepView {
                                default_features: defaulted(d.default_features),
                                source: SourceView::Git {
                                    git: d.git->Some_0,
                                    branch: d.branch,
                                    tag: d.tag,
                                    rev: d.rev,
                                    version: v,
                                },
                            },
                        ),
                    ),
                    None => None,
                }
            } else if d.version is Some {
                match parsed_req(d.version->Some_0) {
                    Some(r) => Some(
                        SourceTypeView::Shareable(
                            SharedDepView {
                                default_features: defaulted(d.default_features),
                                source: SourceView::Version(r),
                            },
                        ),
                    ),
                    None => None,
                }
            } else {
                Some(SourceTypeView::MustBeSkipped)
            }
        },
    }
}

/// An unspecified default-features flag means enabled.
pub open spec fn defaulted(o: Option<bool>) -> bool {
    match o {
        Some(b) => b,
        None => true,
    }
}

/// An absent requirement string stays absent; a present one must parse.
/// `None` means the present string was malformed.
pub open spec fn parsed_opt_req(o: Option<Seq<char>>) -> Option<Option<Seq<CompView>>> {
    match o {
        None => Some(None),
        Some(s) => match parsed_req(s) {
            Some(r) => Some(Some(r)),
            None => None,
        },
    }
}

fn parse_opt_req(o: &Option<String>) -> (r: Result<Option<VersionReq>, RequirementError>)
    ensures
        match r {
            Ok(v) => parsed_opt_req(opt_str_view(*o)) == Some(crate::source::opt_view(v)),
            Err(e) => parsed_opt_req(opt_str_view(*o)) is None && (o matches Some(raw)
                && e.raw@ == raw@),
        },
{
    match o {
        None => Ok(None),
        Some(s) => match parse_req(s.as_str()) {
            Some(req) => Ok(Some(req)),
            None => Err(RequirementError { raw: s.clone() }),
        },
    }
}

/// Classifies one raw manifest entry, per `classify_s`. Fails exactly when a
/// requirement string in the entry is malformed, carrying that string.
pub fn dep2shared_dep(dep: &RawDependency) -> (r: Result<SourceType, RequirementError>)
    ensures
        match r {
            Ok(st) => classify_s(dep@) == Some(st@),
            Err(_) => classify_s(dep@) is None,
        },
{
    match dep {
        RawDependency::Simple(version) => match parse_req(version.as_str()) {
            Some(req) => Ok(
                SourceType::Shareable(
                    SharedDependency {
                        default_features: true,
                        source: DependencySource::Version(req),
                    },
                ),
            ),
            None => Err(RequirementError { raw: version.clone() }),
        },
        RawDependency::Inherited(_) => Ok(SourceType::Inherited),
        RawDependency::Detailed(d) => {
            if d.registry.is_some() || d.registry_index.is_some() {
                return Ok(SourceType::MustBeSkipped);
            }
            if let Some(path) = &d.path {
                let version = match parse_opt_req(&d.version) {
                    Ok(v) => v,
                    Err(e) => {
                        return Err(e);
                    },
                };
                return Ok(
                    SourceType::Shareable(
                        SharedDependency {
                            default_features: default_features_flag(&d.default_features),
                            source: DependencySource::Path { path: path.clone(), version },
                        },
                    ),
                );
            }
            if let Some(git) = &d.git {
                let version = match parse_opt_req(&d.version) {
                    Ok(v) => v,
                    Err(e) => {
                        return Err(e);
                    },
                };
                return Ok(
                    SourceType::Shareable(
                        SharedDependency {
                            default_features: default_features_flag(&d.default_features),
                            source: DependencySource::Git {
                                git: git.clone(),
                                branch: crate::source::clone_opt_string(&d.branch),
                                tag: crate::source::clone_opt_string(&d.tag),
                                rev: crate::source::clone_opt_string(&d.rev),
                                version,
                            },
                        },
                    ),
                );
            }
            if let Some(version) = &d.version {
                return match parse_req(version.as_str()) {
                    Some(req) => Ok(
                        SourceType::Shareable(
                            SharedDependency {
                                default_features: default_features_flag(&d.default_features),
                                source: DependencySource::Version(req),
                            },
                        ),
                    ),
                    None => Err(RequirementError { raw: version.clone() }),
                };
            }
            Ok(SourceType::MustBeSkipped)
        },
    }
}

fn default_features_flag(o: &Option<bool>) -> (r: bool)
    ensures
        r == defaulted(*o),
{
    match o {
        Some(b) => *b,
        None => true,
    }
}

} // verus!
