//! Merging of version requirements and the minimal version set.
//!
//! For a given package name, `MinimalVersionSet` keeps track of the source
//! declarations that have been seen, actively minimizing how many are kept:
//!
//! - if the same source appears more than once, only one instance is kept;
//! - if it appears with default features enabled in one place and disabled in
//!   another, the kept instance has them disabled;
//! - two version requirements are merged into one whenever their union can be
//!   expressed as a single requirement (`try_merge`).

use vstd::prelude::*;
use crate::source::DependencySource;
use crate::source::SharedDepView;
use crate::source::SharedDependency;
use crate::source::SourceView;
use crate::source::clone_source;
use crate::source::source_eq;
use crate::version::CompView;
use crate::version::Comparator;
use crate::version::ReqOp;
use crate::version::VersionReq;
use crate::version::as_simple_caret;
use crate::version::clone_req;
use crate::version::opt_u64_eq;
use crate::version::req_eq;
use crate::version::simple_caret_s;

verus! {

/// `a <= b` in the order that places an absent number below every present
/// one.
pub open spec fn opt_u64_le_s(a: Option<u64>, b: Option<u64>) -> bool {
    match (a, b) {
        (None, _) => true,
        (Some(_), None) => false,
        (Some(x), Some(y)) => x <= y,
    }
}

/// `a < b` in the same order.
pub open spec fn opt_u64_lt_s(a: Option<u64>, b: Option<u64>) -> bool {
    opt_u64_le_s(a, b) && a != b
}

/// The greater of two optional numbers; on a tie, the second.
pub open spec fn opt_u64_max_s(a: Option<u64>, b: Option<u64>) -> Option<u64> {
    if opt_u64_le_s(a, b) {
        b
    } else {
        a
    }
}

pub fn opt_u64_lt(a: &Option<u64>, b: &Option<u64>) -> (r: bool)
    ensures
        r == opt_u64_lt_s(*a, *b),
{
    match (a, b) {
        (None, Some(_)) => true,
        (Some(x), Some(y)) => *x < *y,
        _ => false,
    }
}

pub fn opt_u64_max(a: &Option<u64>, b: &Option<u64>) -> (r: Option<u64>)
    ensures
        r == opt_u64_max_s(*a, *b),
{
    match (a, b) {
        (None, _) => *b,
        (Some(_), None) => *a,
        (Some(x), Some(y)) => if *x <= *y {
            *b
        } else {
            *a
        },
    }
}

/// A caret comparator with the given numbers and no pre-release qualifier.
pub open spec fn caret_of(major: u64, minor: Option<u64>, patch: Option<u64>) -> CompView {
    CompView { op: ReqOp::Caret, major: major, minor: minor, patch: patch, pre: Seq::empty() }
}

/// The merge of two simple caret comparators, when their union is itself a
/// caret range:
///
/// - different majors never merge;
/// - under major 0 the minor is the compatibility boundary: different minors
///   never merge, nor does minor 0 (there the patch is the boundary);
///   otherwise the patches are joined by their maximum;
/// - under a positive major, the comparator with the strictly greater minor
///   wins verbatim; equal minors join their patches by the maximum.
pub open spec fn merge_carets_s(a: CompView, b: CompView) -> Option<Seq<CompView>> {
    if a.major != b.major {
        None
    } else if a.major == 0 {
        if a.minor != b.minor {
            None
        } else if a.minor == Some(0u64) {
            None
        } else {
            Some(seq![caret_of(b.major, b.minor, opt_u64_max_s(a.patch, b.patch))])
        }
    } else {
        if opt_u64_lt_s(a.minor, b.minor) {
            Some(seq![caret_of(b.major, b.minor, b.patch)])
        } else if opt_u64_lt_s(b.minor, a.minor) {
            Some(seq![caret_of(a.major, a.minor, a.patch)])
        } else {
            Some(seq![caret_of(a.major, a.minor, opt_u64_max_s(a.patch, b.patch))])
        }
    }
}

/// The merge of two version requirements, when their union can be expressed
/// as a single requirement:
///
/// - identical requirements merge to themselves;
/// - an unconstrained wildcard is absorbed by the other requirement;
/// - two simple carets merge by `merge_carets_s`;
/// - anything else does not merge.
pub open spec fn try_merge_s(a: Seq<CompView>, b: Seq<CompView>) -> Option<Seq<CompView>> {
    if a == b {
        Some(a)
    } else if a.len() == 0 {
        Some(b)
    } else if b.len() == 0 {
        Some(a)
    } else {
        match (simple_caret_s(a), simple_caret_s(b)) {
            (Some(ca), Some(cb)) => merge_carets_s(ca, cb),
            _ => None,
        }
    }
}

fn req_single(c: Comparator) -> (r: VersionReq)
    ensures
        r@ =~= seq![c@],
{
    let ghost cv = c@;
    let mut comparators: Vec<Comparator> = Vec::new();
    comparators.push(c);
    let r = VersionReq { comparators };
    proof {
        assert(r@ =~= seq![cv]);
    }
    r
}

/// Tries to merge two version requirements into a single one, per
/// `try_merge_s`.
pub fn try_merge(first: &VersionReq, second: &VersionReq) -> (r: Option<VersionReq>)
    ensures
        match r {
            Some(m) => try_merge_s(first@, second@) == Some(m@),
            None => try_merge_s(first@, second@) is None,
        },
{
    if req_eq(first, second) {
        return Some(clone_req(first));
    }
    if first.is_star() && !second.is_star() {
        return Some(clone_req(second));
    }
    if !first.is_star() && second.is_star() {
        return Some(clone_req(first));
    }
    proof {
        if first@.len() == 0 && second@.len() == 0 {
            assert(first@ =~= second@);
        }
    }
    let ca = match as_simple_caret(first) {
        Some(c) => c,
        None => {
            return None;
        },
    };
    let cb = match as_simple_caret(second) {
        Some(c) => c,
        None => {
            return None;
        },
    };
    if ca.major != cb.major {
        return None;
    }
    if ca.major == 0 {
        if !opt_u64_eq(&ca.minor, &cb.minor) {
            return None;
        }
        if match ca.minor {
            Some(m) => m == 0,
            None => false,
        } {
            return None;
        }
        let comparator = Comparator {
            op: ReqOp::Caret,
            major: cb.major,
            minor: cb.minor,
            patch: opt_u64_max(&ca.patch, &cb.patch),
            pre: String::new(),
        };
        return Some(req_single(comparator));
    }
    let comparator = if opt_u64_lt(&ca.minor, &cb.minor) {
        Comparator {
            op: ReqOp::Caret,
            major: cb.major,
            minor: cb.minor,
            patch: cb.patch,
            pre: String::new(),
        }
    } else if opt_u64_lt(&cb.minor, &ca.minor) {
        Comparator {
            op: ReqOp::Caret,
            major: ca.major,
            minor: ca.minor,
            patch: ca.patch,
            pre: String::new(),
        }
    } else {
        Comparator {
            op: ReqOp::Caret,
            major: ca.major,
            minor: ca.minor,
            patch: opt_u64_max(&ca.patch, &cb.patch),
            pre: String::new(),
        }
    };
    Some(req_single(comparator))
}

/// Whether two sources are version requirements that `try_merge_s` combines.
pub open spec fn version_mergeable(a: SourceView, b: SourceView) -> bool {
    match (a, b) {
        (SourceView::Version(ra), SourceView::Version(rb)) => try_merge_s(ra, rb) is Some,
        _ => false,
    }
}

/// The merged requirement of two mergeable version sources.
pub open spec fn merged_req(a: SourceView, b: SourceView) -> Seq<CompView>
    recommends
        version_mergeable(a, b),
{
    try_merge_s(a->Version_0, b->Version_0)->Some_0
}

/// Two sources can be combined into one entry: they are equal, or they are
/// mergeable version requirements.
pub open spec fn combinable(a: SourceView, b: SourceView) -> bool {
    a == b || version_mergeable(a, b)
}

/// Index of the first entry whose source equals `src`, or -1.
pub open spec fn find_eq(s: Seq<(SourceView, bool)>, src: SourceView) -> int
    decreases s.len(),
{
    if s.len() == 0 {
        -1
    } else if s[0].0 == src {
        0
    } else if find_eq(s.skip(1), src) < 0 {
        -1
    } else {
        1 + find_eq(s.skip(1), src)
    }
}

/// Index of the first entry whose source is mergeable with `src`, or -1.
pub open spec fn find_mg(s: Seq<(SourceView, bool)>, src: SourceView) -> int
    decreases s.len(),
{
    if s.len() == 0 {
        -1
    } else if version_mergeable(src, s[0].0) {
        0
    } else if find_mg(s.skip(1), src) < 0 {
        -1
    } else {
        1 + find_mg(s.skip(1), src)
    }
}

pub proof fn lemma_find_eq(s: Seq<(SourceView, bool)>, src: SourceView)
    ensures
        find_eq(s, src) == -1 ==> forall|k: int| 0 <= k < s.len() ==> s[k].0 != src,
        find_eq(s, src) != -1 ==> 0 <= find_eq(s, src) < s.len() && s[find_eq(s, src)].0 == src
            && forall|k: int| 0 <= k < find_eq(s, src) ==> s[k].0 != src,
    decreases s.len(),
{
    if s.len() == 0 {
    } else if s[0].0 == src {
    } else {
        lemma_find_eq(s.skip(1), src);
        let f1 = find_eq(s.skip(1), src);
        if f1 < 0 {
            assert forall|k: int| 0 <= k < s.len() implies s[k].0 != src by {
                if k > 0 {
                    assert(s.skip(1)[k - 1] == s[k]);
                }
            }
        } else {
            assert(s.skip(1)[f1] == s[f1 + 1]);
            assert forall|k: int| 0 <= k < f1 + 1 implies s[k].0 != src by {
                if k > 0 {
                    assert(s.skip(1)[k - 1] == s[k]);
                }
            }
        }
    }
}

pub proof fn lemma_find_eq_is(s: Seq<(SourceView, bool)>, src: SourceView, i: int)
    requires
        0 <= i < s.len(),
        s[i].0 == src,
        forall|k: int| 0 <= k < i ==> s[k].0 != src,
    ensures
        find_eq(s, src) == i,
    decreases s.len(),
{
    if i == 0 {
    } else {
        assert(s.skip(1)[i - 1] == s[i]);
        assert forall|k: int| 0 <= k < i - 1 implies s.skip(1)[k].0 != src by {
            assert(s.skip(1)[k] == s[k + 1]);
        }
        lemma_find_eq_is(s.skip(1), src, i - 1);
    }
}

pub proof fn lemma_find_mg(s: Seq<(SourceView, bool)>, src: SourceView)
    ensures
        find_mg(s, src) == -1 ==> forall|k: int|
            0 <= k < s.len() ==> !version_mergeable(src, s[k].0),
        find_mg(s, src) != -1 ==> 0 <= find_mg(s, src) < s.len() && version_mergeable(
            src,
            s[find_mg(s, src)].0,
        ) && forall|k: int| 0 <= k < find_mg(s, src) ==> !version_mergeable(src, s[k].0),
    decreases s.len(),
{
    if s.len() == 0 {
    } else if version_mergeable(src, s[0].0) {
    } else {
        lemma_find_mg(s.skip(1), src);
        let f1 = find_mg(s.skip(1), src);
        if f1 < 0 {
            assert forall|k: int| 0 <= k < s.len() implies !version_mergeable(src, s[k].0) by {
                if k > 0 {
                    assert(s.skip(1)[k - 1] == s[k]);
                }
            }
        } else {
            assert(s.skip(1)[f1] == s[f1 + 1]);
            assert forall|k: int| 0 <= k < f1 + 1 implies !version_mergeable(src, s[k].0) by {
                if k > 0 {
                    assert(s.skip(1)[k - 1] == s[k]);
                }
            }
        }
    }
}

pub proof fn lemma_find_mg_is(s: Seq<(SourceView, bool)>, src: SourceView, j: int)
    requires
        0 <= j < s.len(),
        version_mergeable(src, s[j].0),
        forall|k: int| 0 <= k < j ==> !version_mergeable(src, s[k].0),
    ensures
        find_mg(s, src) == j,
    decreases s.len(),
{
    if j == 0 {
    } else {
        assert(s.skip(1)[j - 1] == s[j]);
        assert forall|k: int| 0 <= k < j - 1 implies !version_mergeable(src, s.skip(1)[k].0) by {
            assert(s.skip(1)[k] == s[k + 1]);
        }
        lemma_find_mg_is(s.skip(1), src, j - 1);
    }
}

/// What one insertion does to the kept entries: the first entry with an equal
/// source absorbs the new flag; otherwise the first entry with a mergeable
/// version requirement is replaced by the merged requirement; otherwise the
/// new declaration is appended. A merged or absorbed entry enables default
/// features only if both contributing entries did.
pub open spec fn insert_s(s: Seq<(SourceView, bool)>, dep: SharedDepView) -> Seq<
    (SourceView, bool),
> {
    let i = find_eq(s, dep.source);
    let j = find_mg(s, dep.source);
    if i >= 0 {
        s.update(i, (s[i].0, s[i].1 && dep.default_features))
    } else if j >= 0 {
        s.update(
            j,
            (
                SourceView::Version(merged_req(dep.source, s[j].0)),
                s[j].1 && dep.default_features,
            ),
        )
    } else {
        s.push((dep.source, dep.default_features))
    }
}

/// Whether two requirements merge does not depend on their order.
pub proof fn lemma_try_merge_sym(a: Seq<CompView>, b: Seq<CompView>)
    ensures
        (try_merge_s(a, b) is Some) == (try_merge_s(b, a) is Some),
{
    if a == b {
    } else if a.len() == 0 || b.len() == 0 {
    } else {
        match (simple_caret_s(a), simple_caret_s(b)) {
            (Some(ca), Some(cb)) => {
                assert((merge_carets_s(ca, cb) is Some) == (merge_carets_s(cb, ca) is Some));
            },
            _ => {},
        }
    }
}

/// After a successful merge of `r` with `b`, the merged requirement is still
/// incompatible with every requirement `q` that `b` was incompatible with.
pub proof fn lemma_merged_separate(r: Seq<CompView>, b: Seq<CompView>, q: Seq<CompView>)
    requires
        try_merge_s(r, b) is Some,
        try_merge_s(b, q) is None,
        b != q,
    ensures
        try_merge_s(try_merge_s(r, b)->Some_0, q) is None,
        try_merge_s(q, try_merge_s(r, b)->Some_0) is None,
        try_merge_s(r, b)->Some_0 != q,
{
    let m = try_merge_s(r, b)->Some_0;
    if q.len() == 0 {
        if b.len() == 0 {
            assert(b =~= q);
        }
        assert(false);
    }
    if r == b || r.len() == 0 {
        assert(m == b);
        lemma_try_merge_sym(b, q);
    } else if b.len() == 0 {
        assert(false);
    } else {
        let ca = simple_caret_s(r)->Some_0;
        let cb = simple_caret_s(b)->Some_0;
        assert(simple_caret_s(r) is Some && simple_caret_s(b) is Some);
        assert(try_merge_s(r, b) == merge_carets_s(ca, cb));
        assert(m.len() == 1 && m[0].op == ReqOp::Caret && m[0].pre.len() == 0);
        let cm = m[0];
        assert(simple_caret_s(m) == Some(cm));
        assert(cm.major == cb.major);
        if cb.major == 0 {
            assert(cm.minor == cb.minor && cb.minor != Some(0u64));
        }
        if m == q {
            if b == m {
                assert(false);
            }
            assert(try_merge_s(b, m) == merge_carets_s(cb, cm));
            assert(merge_carets_s(cb, cm) is Some);
            assert(false);
        }
        match simple_caret_s(q) {
            None => {
                assert(try_merge_s(m, q) is None);
                lemma_try_merge_sym(m, q);
            },
            Some(cq) => {
                assert(merge_carets_s(cb, cq) is None);
                if cq.major != cb.major {
                    assert(cq.major != cm.major);
                } else {
                    assert(cb.major == 0);
                    if cb.minor == cq.minor {
                        assert(cb.minor == Some(0u64));
                        assert(false);
                    }
                    assert(cq.minor != cm.minor);
                }
                assert(merge_carets_s(cm, cq) is None);
                assert(try_merge_s(m, q) is None);
                lemma_try_merge_sym(m, q);
            },
        }
    }
}

/// Pairwise incompatibility: no two kept entries could be combined into one.
pub open spec fn minimal_inv(s: Seq<(SourceView, bool)>) -> bool {
    forall|i: int, j: int|
        0 <= i < s.len() && 0 <= j < s.len() && i != j ==> !combinable(s[i].0, s[j].0)
}

proof fn lemma_insert_merge_inv(s: Seq<(SourceView, bool)>, dep: SharedDepView, j: int)
    requires
        minimal_inv(s),
        0 <= j < s.len(),
        version_mergeable(dep.source, s[j].0),
    ensures
        minimal_inv(
            s.update(
                j,
                (
                    SourceView::Version(merged_req(dep.source, s[j].0)),
                    s[j].1 && dep.default_features,
                ),
            ),
        ),
{
    let m = merged_req(dep.source, s[j].0);
    let t = s.update(
        j,
        (SourceView::Version(m), s[j].1 && dep.default_features),
    );
    let r = dep.source->Version_0;
    let b = s[j].0->Version_0;
    assert forall|x: int, y: int|
        0 <= x < t.len() && 0 <= y < t.len() && x != y implies !combinable(t[x].0, t[y].0) by {
        if x == j || y == j {
            let k = if x == j {
                y
            } else {
                x
            };
            assert(!combinable(s[j].0, s[k].0));
            match s[k].0 {
                SourceView::Version(q) => {
                    lemma_merged_separate(r, b, q);
                },
                _ => {},
            }
        } else {
            assert(!combinable(s[x].0, s[y].0));
        }
    }
}

/// For a given package, the set of source declarations that have been seen,
/// kept minimal: inserting a declaration equal to a kept one only narrows its
/// default-features flag, a version requirement mergeable with a kept one
/// replaces it by the merged requirement, and anything else is appended. At
/// all times no two kept entries could be combined into one, subject to the
/// limitation that merging is attempted only between the inserted declaration
/// and the kept ones, never among the kept ones.
#[derive(Debug)]
pub struct MinimalVersionSet {
    seen: Vec<(DependencySource, bool)>,
}

impl View for MinimalVersionSet {
    type V = Seq<(SourceView, bool)>;

    closed spec fn view(&self) -> Seq<(SourceView, bool)> {
        self.seen@.map_values(|p: (DependencySource, bool)| (p.0@, p.1))
    }
}

impl MinimalVersionSet {
    /// Well-formedness: the kept entries are pairwise incompatible.
    pub open spec fn inv(&self) -> bool {
        minimal_inv(self@)
    }

    pub fn new() -> (r: MinimalVersionSet)
        ensures
            r@ =~= Seq::<(SourceView, bool)>::empty(),
            r.inv(),
    {
        MinimalVersionSet { seen: Vec::new() }
    }

    /// Number of currently irreducible entries.
    pub fn len(&self) -> (n: usize)
        ensures
            n == self@.len(),
    {
        self.seen.len()
    }

    /// Inserts one observed declaration, merging it with a kept entry when
    /// possible, per `insert_s`.
    pub fn insert(&mut self, dep: SharedDependency)
        requires
            old(self).inv(),
        ensures
            final(self)@ == insert_s(old(self)@, dep@),
            final(self).inv(),
    {
        let ghost s0 = self@;
        let n = self.seen.len();
        assert(s0.len() == n);
        let mut eq_idx: Option<usize> = None;
        for i in 0..n
            invariant
                self@ == s0,
                n == self.seen.len(),
                s0.len() == n,
                match eq_idx {
                    None => forall|k: int| 0 <= k < i ==> s0[k].0 != dep.source@,
                    Some(x) => x < i && s0[x as int].0 == dep.source@ && forall|k: int|
                        0 <= k < x ==> s0[k].0 != dep.source@,
                },
        {
            assert(s0[i as int] == (self.seen@[i as int].0@, self.seen@[i as int].1));
            if eq_idx.is_none() && source_eq(&self.seen[i].0, &dep.source) {
                eq_idx = Some(i);
            }
        }
        if let Some(i) = eq_idx {
            let df = self.seen[i].1 && dep.default_features;
            let src = clone_source(&self.seen[i].0);
            self.seen.set(i, (src, df));
            proof {
                lemma_find_eq_is(s0, dep.source@, i as int);
                assert(self@ =~= s0.update(
                    i as int,
                    (s0[i as int].0, s0[i as int].1 && dep.default_features),
                ));
                assert forall|x: int, y: int|
                    0 <= x < self@.len() && 0 <= y < self@.len() && x != y implies !combinable(
                    self@[x].0,
                    self@[y].0,
                ) by {
                    assert(!combinable(s0[x].0, s0[y].0));
                }
            }
            return ;
        }
        proof {
            lemma_find_eq(s0, dep.source@);
            if find_eq(s0, dep.source@) != -1 {
                assert(false);
            }
        }
        let mut mg: Option<(usize, VersionReq)> = None;
        if let DependencySource::Version(dep_req) = &dep.source {
            for j in 0..n
                invariant
                    self@ == s0,
                    n == self.seen.len(),
                    s0.len() == n,
                    dep.source@ is Version,
                    dep.source@->Version_0 == dep_req@,
                    match mg {
                        None => forall|k: int|
                            0 <= k < j ==> !version_mergeable(dep.source@, s0[k].0),
                        Some(p) => p.0 < j && version_mergeable(dep.source@, s0[p.0 as int].0)
                            && p.1@ == merged_req(dep.source@, s0[p.0 as int].0) && forall|k: int|
                            0 <= k < p.0 ==> !version_mergeable(dep.source@, s0[k].0),
                    },
            {
                assert(s0[j as int] == (self.seen@[j as int].0@, self.seen@[j as int].1));
                if mg.is_none() {
                    let merged_opt = match &self.seen[j].0 {
                        DependencySource::Version(other) => try_merge(dep_req, other),
                        _ => None,
                    };
                    if let Some(merged) = merged_opt {
                        mg = Some((j, merged));
                    }
                }
            }
        } else {
            proof {
                assert(forall|k: int|
                    0 <= k < n ==> !version_mergeable(dep.source@, s0[k].0));
            }
        }
        if let Some((j, merged)) = mg {
            let df = self.seen[j].1 && dep.default_features;
            self.seen.set(j, (DependencySource::Version(merged), df));
            proof {
                lemma_find_mg_is(s0, dep.source@, j as int);
                lemma_insert_merge_inv(s0, dep@, j as int);
                assert(self@ =~= s0.update(
                    j as int,
                    (
                        SourceView::Version(merged_req(dep.source@, s0[j as int].0)),
                        s0[j as int].1 && dep.default_features,
                    ),
                ));
            }
            return ;
        }
        proof {
            lemma_find_mg(s0, dep.source@);
            if find_mg(s0, dep.source@) != -1 {
                assert(version_mergeable(dep.source@, s0[find_mg(s0, dep.source@)].0));
                assert(false);
            }
        }
        let ghost dv = dep@;
        self.seen.push((dep.source, dep.default_features));
        proof {
            assert(self@ =~= s0.push((dv.source, dv.default_features)));
            assert forall|x: int, y: int|
                0 <= x < self@.len() && 0 <= y < self@.len() && x != y implies !combinable(
                self@[x].0,
                self@[y].0,
            ) by {
                if x < s0.len() && y < s0.len() {
                    assert(!combinable(s0[x].0, s0[y].0));
                } else {
                    let k = if x < s0.len() {
                        x
                    } else {
                        y
                    };
                    assert(s0[k].0 != dv.source);
                    assert(!version_mergeable(dv.source, s0[k].0));
                    match (s0[k].0, dv.source) {
                        (SourceView::Version(qa), SourceView::Version(qb)) => {
                            lemma_try_merge_sym(qa, qb);
                        },
                        _ => {},
                    }
                }
            }
        }
    }

    /// Consumes the set into its shared-declaration members, in kept order.
    pub fn into_iter(self) -> (r: Vec<SharedDependency>)
        ensures
            r@.map_values(|d: SharedDependency| d@) =~= self@.map_values(
                |p: (SourceView, bool)| SharedDepView { default_features: p.1, source: p.0 },
            ),
    {
        let mut out: Vec<SharedDependency> = Vec::new();
        let n = self.seen.len();
        for i in 0..n
            invariant
                n == self.seen.len(),
                out@.len() == i,
                forall|k: int|
                    0 <= k < i ==> out@[k]@ == (SharedDepView {
                        default_features: self.seen@[k].1,
                        source: self.seen@[k].0@,
                    }),
        {
            let df = self.seen[i].1;
            out.push(SharedDependency { default_features: df, source: clone_source(&self.seen[i].0) });
        }
        proof {
            let lhs = out@.map_values(|d: SharedDependency| d@);
            let rhs = self@.map_values(
                |p: (SourceView, bool)| SharedDepView { default_features: p.1, source: p.0 },
            );
            assert forall|k: int| 0 <= k < n implies #[trigger] lhs[k] == rhs[k] by {
                assert(self@[k] == (self.seen@[k].0@, self.seen@[k].1));
                assert(lhs[k] == out@[k]@);
                assert(rhs[k] == SharedDepView {
                    default_features: self@[k].1,
                    source: self@[k].0,
                });
            }
            assert(lhs =~= rhs);
        }
        out
    }
}

/// Law: inserting the same declaration twice into an empty set collapses the
/// exact duplicate — one entry survives, carrying that declaration.
pub proof fn lemma_exact_duplicate_collapse(dep: SharedDepView)
    ensures
        ({
            let once = insert_s(Seq::empty(), dep);
            let twice = insert_s(once, dep);
            twice.len() == 1 && twice[0] == (dep.source, dep.default_features)
        }),
{
}

/// Law: inserting the same source with default features enabled in one place
/// and disabled in another leaves exactly one entry, and its default-features
/// flag is enabled only if all contributing entries enabled it.
pub proof fn lemma_default_feature_dominance(src: SourceView, df1: bool, df2: bool)
    ensures
        ({
            let once = insert_s(
                Seq::empty(),
                SharedDepView { default_features: df1, source: src },
            );
            let twice = insert_s(once, SharedDepView { default_features: df2, source: src });
            twice.len() == 1 && twice[0].0 == src && twice[0].1 == (df1 && df2)
        }),
{
}

/// Law: an unconstrained wildcard requirement is absorbed by any other
/// version requirement, in either insertion order; the surviving entry is the
/// non-wildcard requirement.
pub proof fn lemma_wildcard_absorption(r: Seq<CompView>, df1: bool, df2: bool)
    requires
        r.len() != 0,
    ensures
        ({
            let star = SharedDepView {
                default_features: df1,
                source: SourceView::Version(Seq::empty()),
            };
            let v = SharedDepView { default_features: df2, source: SourceView::Version(r) };
            let star_first = insert_s(insert_s(Seq::empty(), star), v);
            let star_second = insert_s(insert_s(Seq::empty(), v), star);
            star_first.len() == 1 && star_first[0] == (SourceView::Version(r), df1 && df2)
                && star_second.len() == 1 && star_second[0] == (
                SourceView::Version(r),
                df2 && df1,
            )
        }),
{
    reveal_with_fuel(find_eq, 3);
    reveal_with_fuel(find_mg, 3);
    assert(Seq::<CompView>::empty().len() == 0);
}

/// Law: below major version 1, the minor version is the compatibility
/// boundary (and below 0.1, the patch): two simple caret requirements with
/// major 0 that differ in minor, or share a zero minor without being equal,
/// are never merged — both entries survive.
pub proof fn lemma_pre_one_refusal(a: CompView, b: CompView, df1: bool, df2: bool)
    requires
        a.op == ReqOp::Caret && a.pre.len() == 0 && a.major == 0,
        b.op == ReqOp::Caret && b.pre.len() == 0 && b.major == 0,
        a != b,
        a.minor != b.minor || a.minor == Some(0u64),
    ensures
        ({
            let d1 = SharedDepView { default_features: df1, source: SourceView::Version(seq![a]) };
            let d2 = SharedDepView { default_features: df2, source: SourceView::Version(seq![b]) };
            insert_s(insert_s(Seq::empty(), d1), d2).len() == 2
        }),
{
    reveal_with_fuel(find_eq, 3);
    reveal_with_fuel(find_mg, 3);
    if seq![a] == seq![b] {
        assert(seq![a][0] == seq![b][0]);
        assert(false);
    }
}


/// Law: two simple caret requirements with the same major version of at
/// least 1 always merge; within one major, a caret range with the higher
/// minor already covers the lower one.
pub proof fn lemma_caret_merge_same_major(a: CompView, b: CompView)
    requires
        a.op == ReqOp::Caret && a.pre.len() == 0,
        b.op == ReqOp::Caret && b.pre.len() == 0,
        a.major == b.major,
        a.major != 0,
    ensures
        try_merge_s(seq![a], seq![b]) is Some,
{
    assert(simple_caret_s(seq![a]) == Some(a));
    assert(simple_caret_s(seq![b]) == Some(b));
}

} // verus!

