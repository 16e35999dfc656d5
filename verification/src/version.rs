//! Model of semantic-version requirements.
//!
//! A requirement is a conjunction of comparators, each an operator applied to
//! a partial version. The model mirrors what the merge algorithm reads of a
//! requirement: its comparators' operators, numbers and pre-release tags.
//! An empty comparator list is the unconstrained wildcard requirement `*`.

use vstd::prelude::*;

verus! {

/// Comparison operator of one comparator in a version requirement.
#[derive(Clone, Copy, PartialEq, Eq, Structural, Debug)]
pub enum ReqOp {
    Exact,
    Greater,
    GreaterEq,
    Less,
    LessEq,
    Tilde,
    Caret,
    Wildcard,
}

/// One comparator of a version requirement: an operator and a partial
/// version. `patch` is only meaningful when `minor` is present, and a
/// non-empty `pre` only when `patch` is present.
#[derive(Clone, Debug)]
pub struct Comparator {
    pub op: ReqOp,
    pub major: u64,
    pub minor: Option<u64>,
    pub patch: Option<u64>,
    /// Pre-release qualifier; empty when there is none.
    pub pre: String,
}

/// Mathematical value of one comparator.
pub ghost struct CompView {
    pub op: ReqOp,
    pub major: u64,
    pub minor: Option<u64>,
    pub patch: Option<u64>,
    pub pre: Seq<char>,
}

impl View for Comparator {
    type V = CompView;

    open spec fn view(&self) -> CompView {
        CompView {
            op: self.op,
            major: self.major,
            minor: self.minor,
            patch: self.patch,
            pre: self.pre@,
        }
    }
}

/// A version requirement: the conjunction of its comparators. An empty list
/// is the unconstrained wildcard requirement `*`.
#[derive(Clone, Debug)]
pub struct VersionReq {
    pub comparators: Vec<Comparator>,
}

impl View for VersionReq {
    type V = Seq<CompView>;

    open spec fn view(&self) -> Seq<CompView> {
        self.comparators@.map_values(|c: Comparator| c@)
    }
}

impl VersionReq {
    /// The unconstrained wildcard requirement `*`.
    pub fn star() -> (r: VersionReq)
        ensures
            r@ =~= Seq::<CompView>::empty(),
    {
        VersionReq { comparators: Vec::new() }
    }

    /// Whether this is the unconstrained wildcard requirement.
    pub fn is_star(&self) -> (r: bool)
        ensures
            r == (self@.len() == 0),
    {
        self.comparators.len() == 0
    }
}

pub fn opt_u64_eq(a: &Option<u64>, b: &Option<u64>) -> (r: bool)
    ensures
        r == (a == b),
{
    match (a, b) {
        (Some(x), Some(y)) => *x == *y,
        (None, None) => true,
        _ => false,
    }
}

pub fn comp_eq(a: &Comparator, b: &Comparator) -> (r: bool)
    ensures
        r == (a@ == b@),
{
    let r = a.op == b.op && a.major == b.major && opt_u64_eq(&a.minor, &b.minor)
        && opt_u64_eq(&a.patch, &b.patch) && a.pre == b.pre;
    proof {
        if r {
            assert(a@ == b@);
        }
    }
    r
}

/// Structural equality of two requirements: the same comparators in the same
/// order.
pub fn req_eq(a: &VersionReq, b: &VersionReq) -> (r: bool)
    ensures
        r == (a@ == b@),
{
    if a.comparators.len() != b.comparators.len() {
        assert(a@.len() != b@.len());
        return false;
    }
    let n = a.comparators.len();
    for i in 0..n
        invariant
            n == a.comparators.len() == b.comparators.len(),
            forall|k: int| 0 <= k < i ==> a@[k] == b@[k],
    {
        if !comp_eq(&a.comparators[i], &b.comparators[i]) {
            assert(a@[i as int] != b@[i as int]);
            return false;
        }
    }
    proof {
        assert(a@ =~= b@);
    }
    true
}

/// Copies a comparator, keeping its mathematical value.
pub fn clone_comp(c: &Comparator) -> (r: Comparator)
    ensures
        r@ == c@,
{
    Comparator {
        op: c.op,
        major: c.major,
        minor: c.minor,
        patch: c.patch,
        pre: c.pre.clone(),
    }
}

/// Copies a requirement, keeping its mathematical value.
pub fn clone_req(r: &VersionReq) -> (c: VersionReq)
    ensures
        c@ == r@,
{
    let mut comparators: Vec<Comparator> = Vec::new();
    let n = r.comparators.len();
    for i in 0..n
        invariant
            n == r.comparators.len(),
            comparators@.len() == i,
            forall|k: int| 0 <= k < i ==> comparators@[k]@ == r.comparators@[k]@,
    {
        comparators.push(clone_comp(&r.comparators[i]));
    }
    let c = VersionReq { comparators };
    proof {
        assert forall|k: int| 0 <= k < c@.len() implies c@[k] == r@[k] by {
            assert(c@[k] == c.comparators@[k]@);
            assert(r@[k] == r.comparators@[k]@);
        }
        assert(c@ =~= r@);
    }
    c
}

/// A requirement is a *simple caret* when it has exactly one comparator, that
/// comparator's operator is the compatible-range (caret) operator, and it
/// carries no pre-release qualifier.
pub open spec fn simple_caret_s(r: Seq<CompView>) -> Option<CompView> {
    if r.len() == 1 && r[0].op == ReqOp::Caret && r[0].pre.len() == 0 {
        Some(r[0])
    } else {
        None
    }
}

/// Returns the single comparator of a simple caret requirement, or `None`
/// when the requirement has any other shape.
pub fn as_simple_caret(req: &VersionReq) -> (r: Option<&Comparator>)
    ensures
        match r {
            Some(c) => simple_caret_s(req@) == Some(c@),
            None => simple_caret_s(req@) is None,
        },
{
    if req.comparators.len() != 1 {
        return None;
    }
    let c = &req.comparators[0];
    if c.op != ReqOp::Caret {
        return None;
    }
    if !c.pre.as_str().is_empty() {
        return None;
    }
    Some(c)
}

} // verus!
