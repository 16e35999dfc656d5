//! Per-package aggregation of classified entries, and decision resolution.
//!
//! Every package name carries an action: still a candidate for
//! centralization (with the minimal set of sources seen so far), or
//! permanently disqualified. Disqualification is sticky: once a name is
//! skipped it never reverts, whatever is seen later.

use vstd::prelude::*;
use crate::classify::RawDepView;
use crate::classify::RawDependency;
use crate::classify::RequirementError;
use crate::classify::SourceType;
use crate::classify::SourceTypeView;
use crate::classify::classify_s;
use crate::classify::dep2shared_dep;
use crate::dedup::MinimalVersionSet;
use crate::dedup::insert_s;
use crate::dedup::minimal_inv;
use crate::source::SharedDepView;
use crate::source::SharedDependency;
use crate::source::SourceView;

verus! {

/// What aggregation knows about one package name.
#[derive(Debug)]
pub enum Action {
    /// Still a candidate: the minimal set of source declarations seen.
    TryInherit(MinimalVersionSet),
    /// Permanently disqualified.
    Skip,
}

/// Mathematical value of an action.
pub ghost enum ActionView {
    TryInherit(Seq<(SourceView, bool)>),
    Skip,
}

impl View for Action {
    type V = ActionView;

    open spec fn view(&self) -> ActionView {
        match self {
            Action::TryInherit(s) => ActionView::TryInherit(s@),
            Action::Skip => ActionView::Skip,
        }
    }
}

impl Default for Action {
    /// A fresh name starts as a candidate with no sources seen.
    fn default() -> (r: Action)
        ensures
            r@ == ActionView::TryInherit(Seq::<(SourceView, bool)>::empty()),
    {
        Action::TryInherit(MinimalVersionSet::new())
    }
}

pub open spec fn action_inv(a: ActionView) -> bool {
    match a {
        ActionView::TryInherit(s) => minimal_inv(s),
        ActionView::Skip => true,
    }
}

/// Index of the first entry for `name`, or -1.
pub open spec fn find_name<A>(m: Seq<(Seq<char>, A)>, name: Seq<char>) -> int
    decreases m.len(),
{
    if m.len() == 0 {
        -1
    } else if m[0].0 == name {
        0
    } else if find_name(m.skip(1), name) < 0 {
        -1
    } else {
        1 + find_name(m.skip(1), name)
    }
}

pub proof fn lemma_find_name<A>(m: Seq<(Seq<char>, A)>, name: Seq<char>)
    ensures
        find_name(m, name) == -1 ==> forall|k: int| 0 <= k < m.len() ==> m[k].0 != name,
        find_name(m, name) != -1 ==> 0 <= find_name(m, name) < m.len() && m[find_name(
            m,
            name,
        )].0 == name && forall|k: int| 0 <= k < find_name(m, name) ==> m[k].0 != name,
    decreases m.len(),
{
    if m.len() == 0 {
    } else if m[0].0 == name {
    } else {
        lemma_find_name(m.skip(1), name);
        let f1 = find_name(m.skip(1), name);
        if f1 < 0 {
            assert forall|k: int| 0 <= k < m.len() implies m[k].0 != name by {
                if k > 0 {
                    assert(m.skip(1)[k - 1] == m[k]);
                }
            }
        } else {
            assert(m.skip(1)[f1] == m[f1 + 1]);
            assert forall|k: int| 0 <= k < f1 + 1 implies m[k].0 != name by {
                if k > 0 {
                    assert(m.skip(1)[k - 1] == m[k]);
                }
            }
        }
    }
}

pub proof fn lemma_find_name_is<A>(m: Seq<(Seq<char>, A)>, name: Seq<char>, i: int)
    requires
        0 <= i < m.len(),
        m[i].0 == name,
        forall|k: int| 0 <= k < i ==> m[k].0 != name,
    ensures
        find_name(m, name) == i,
    decreases m.len(),
{
    if i == 0 {
    } else {
        assert(m.skip(1)[i - 1] == m[i]);
        assert forall|k: int| 0 <= k < i - 1 implies m.skip(1)[k].0 != name by {
            assert(m.skip(1)[k] == m[k + 1]);
        }
        lemma_find_name_is(m.skip(1), name, i - 1);
    }
}

/// What one classified entry does to the per-name actions:
///
/// - an inherited entry contributes nothing;
/// - an unsupported entry sets the name's action to `Skip`, whatever it was;
/// - a shareable entry is inserted into the name's candidate set; a name
///   already skipped ignores it (skip wins), a fresh name starts a set.
pub open spec fn apply_entry(
    m: Seq<(Seq<char>, ActionView)>,
    name: Seq<char>,
    st: SourceTypeView,
) -> Seq<(Seq<char>, ActionView)> {
    let i = find_name(m, name);
    match st {
        SourceTypeView::Inherited => m,
        SourceTypeView::MustBeSkipped => if i >= 0 {
            m.update(i, (name, ActionView::Skip))
        } else {
            m.push((name, ActionView::Skip))
        },
        SourceTypeView::Shareable(dep) => if i >= 0 {
            match m[i].1 {
                ActionView::Skip => m,
                ActionView::TryInherit(s) => m.update(
                    i,
                    (name, ActionView::TryInherit(insert_s(s, dep))),
                ),
            }
        } else {
            m.push((name, ActionView::TryInherit(insert_s(Seq::empty(), dep))))
        },
    }
}

/// What a whole dependency table does to the per-name actions, entry by
/// entry in order; `None` when some entry fails classification (the run
/// aborts there).
pub open spec fn apply_deps(
    m: Seq<(Seq<char>, ActionView)>,
    deps: Seq<(Seq<char>, RawDepView)>,
) -> Option<Seq<(Seq<char>, ActionView)>>
    decreases deps.len(),
{
    if deps.len() == 0 {
        Some(m)
    } else {
        match classify_s(deps[0].1) {
            None => None,
            Some(st) => apply_deps(apply_entry(m, deps[0].0, st), deps.skip(1)),
        }
    }
}

/// View of a dependency table: each entry's name and raw declaration.
pub open spec fn deps_view(deps: Seq<(String, RawDependency)>) -> Seq<(Seq<char>, RawDepView)> {
    deps.map_values(|p: (String, RawDependency)| (p.0@, p.1@))
}

/// The per-name actions of one aggregation pass, in first-seen order.
#[derive(Debug)]
pub struct PackageActions {
    entries: Vec<(String, Action)>,
}

impl View for PackageActions {
    type V = Seq<(Seq<char>, ActionView)>;

    closed spec fn view(&self) -> Seq<(Seq<char>, ActionView)> {
        self.entries@.map_values(|p: (String, Action)| (p.0@, p.1@))
    }
}

impl PackageActions {
    /// Well-formedness: one entry per name, each candidate set minimal.
    pub open spec fn inv(&self) -> bool {
        (forall|i: int, j: int|
            0 <= i < self@.len() && 0 <= j < self@.len() && i != j ==> self@[i].0 != self@[j].0)
            && (forall|i: int| 0 <= i < self@.len() ==> action_inv(#[trigger] self@[i].1))
    }

    pub fn new() -> (r: PackageActions)
        ensures
            r@ =~= Seq::<(Seq<char>, ActionView)>::empty(),
            r.inv(),
    {
        PackageActions { entries: Vec::new() }
    }

    fn find_idx(&self, name: &String) -> (r: Option<usize>)
        ensures
            match r {
                Some(i) => i < self@.len() && find_name(self@, name@) == i,
                None => find_name(self@, name@) == -1,
            },
    {
        let n = self.entries.len();
        for i in 0..n
            invariant
                n == self.entries.len(),
                self@.len() == n,
                forall|k: int| 0 <= k < i ==> self@[k].0 != name@,
        {
            assert(self@[i as int] == (self.entries@[i as int].0@, self.entries@[i as int].1@));
            if self.entries[i].0 == *name {
                proof {
                    lemma_find_name_is(self@, name@, i as int);
                }
                return Some(i);
            }
        }
        proof {
            lemma_find_name(self@, name@);
            if find_name(self@, name@) != -1 {
                assert(false);
            }
        }
        None
    }

    /// Records one classified entry for `name`, per `apply_entry`.
    pub fn record(&mut self, name: &String, st: SourceType)
        requires
            old(self).inv(),
        ensures
            final(self)@ == apply_entry(old(self)@, name@, st@),
            final(self).inv(),
    {
        let ghost m0 = self@;
        proof {
            lemma_find_name(m0, name@);
        }
        match st {
            SourceType::Inherited => {},
            SourceType::MustBeSkipped => {
                match self.find_idx(name) {
                    Some(i) => {
                        let nm = self.entries[i].0.clone();
                        self.entries.set(i, (nm, Action::Skip));
                        proof {
                            assert(self@ =~= m0.update(
                                find_name(m0, name@),
                                (name@, ActionView::Skip),
                            ));
                            self.lemma_inv_update(m0, find_name(m0, name@), ActionView::Skip);
                        }
                    },
                    None => {
                        self.entries.push((name.clone(), Action::Skip));
                        proof {
                            assert(self@ =~= m0.push((name@, ActionView::Skip)));
                            self.lemma_inv_push(m0, name@, ActionView::Skip);
                        }
                    },
                }
            },
            SourceType::Shareable(dep) => {
                match self.find_idx(name) {
                    Some(i) => {
                        let ghost mi1 = m0[i as int].1;
                        let (nm, act) = self.entries.remove(i);
                        proof {
                            assert(self.entries@ =~= old(self).entries@.remove(i as int));
                        }
                        match act {
                            Action::Skip => {
                                self.entries.insert(i, (nm, Action::Skip));
                                proof {
                                    assert(self@ =~= m0);
                                }
                            },
                            Action::TryInherit(mut set) => {
                                proof {
                                    assert(mi1 == ActionView::TryInherit(set@));
                                    assert(action_inv(mi1));
                                }
                                set.insert(dep);
                                self.entries.insert(i, (nm, Action::TryInherit(set)));
                                proof {
                                    assert(self@ =~= m0.update(
                                        i as int,
                                        (
                                            name@,
                                            ActionView::TryInherit(
                                                insert_s(mi1->TryInherit_0, dep@),
                                            ),
                                        ),
                                    ));
                                    self.lemma_inv_update(
                                        m0,
                                        i as int,
                                        ActionView::TryInherit(insert_s(mi1->TryInherit_0, dep@)),
                                    );
                                }
                            },
                        }
                    },
                    None => {
                        let mut set = MinimalVersionSet::new();
                        set.insert(dep);
                        self.entries.push((name.clone(), Action::TryInherit(set)));
                        proof {
                            assert(self@ =~= m0.push(
                                (
                                    name@,
                                    ActionView::TryInherit(insert_s(Seq::empty(), dep@)),
                                ),
                            ));
                            lemma_find_name(m0, name@);
                            self.lemma_inv_push(
                                m0,
                                name@,
                                ActionView::TryInherit(insert_s(Seq::empty(), dep@)),
                            );
                        }
                    },
                }
            },
        }
    }

    proof fn lemma_inv_update(&self, m0: Seq<(Seq<char>, ActionView)>, i: int, a: ActionView)
        requires
            0 <= i < m0.len(),
            forall|x: int, y: int|
                0 <= x < m0.len() && 0 <= y < m0.len() && x != y ==> m0[x].0 != m0[y].0,
            forall|x: int| 0 <= x < m0.len() ==> action_inv(#[trigger] m0[x].1),
            action_inv(a),
            self@ == m0.update(i, (m0[i].0, a)),
        ensures
            self.inv(),
    {
    }

    proof fn lemma_inv_push(&self, m0: Seq<(Seq<char>, ActionView)>, name: Seq<char>, a: ActionView)
        requires
            forall|x: int, y: int|
                0 <= x < m0.len() && 0 <= y < m0.len() && x != y ==> m0[x].0 != m0[y].0,
            forall|x: int| 0 <= x < m0.len() ==> action_inv(#[trigger] m0[x].1),
            action_inv(a),
            forall|k: int| 0 <= k < m0.len() ==> m0[k].0 != name,
            self@ == m0.push((name, a)),
        ensures
            self.inv(),
    {
    }
}

/// Feeds every entry of one dependency table to the classifier and records
/// the outcomes, per `apply_deps`. Fails exactly where classification fails;
/// the recorded actions are then unspecified and the run aborts.
pub fn process_deps(
    deps: &Vec<(String, RawDependency)>,
    package_name2specs: &mut PackageActions,
) -> (r: Result<(), RequirementError>)
    requires
        old(package_name2specs).inv(),
    ensures
        final(package_name2specs).inv(),
        match r {
            Ok(u) => apply_deps(old(package_name2specs)@, deps_view(deps@)) == Some(
                final(package_name2specs)@,
            ),
            Err(_) => apply_deps(old(package_name2specs)@, deps_view(deps@)) is None,
        },
{
    let ghost dv = deps_view(deps@);
    proof {
        assert(dv.skip(0) =~= dv);
    }
    let n = deps.len();
    for i in 0..n
        invariant
            n == deps.len(),
            dv == deps_view(deps@),
            dv.len() == n,
            package_name2specs.inv(),
            apply_deps(old(package_name2specs)@, dv) == apply_deps(
                package_name2specs@,
                dv.skip(i as int),
            ),
    {
        assert(dv[i as int] == (deps@[i as int].0@, deps@[i as int].1@));
        let st = match dep2shared_dep(&deps[i].1) {
            Ok(st) => st,
            Err(e) => {
                proof {
                    assert(apply_deps(package_name2specs@, dv.skip(i as int)) is None);
                }
                return Err(e);
            },
        };
        let ghost before = package_name2specs@;
        package_name2specs.record(&deps[i].0, st);
        proof {
            assert(dv.skip(i as int).skip(1) =~= dv.skip(i as int + 1));
            assert(apply_deps(before, dv.skip(i as int)) == apply_deps(
                package_name2specs@,
                dv.skip(i as int + 1),
            ));
        }
    }
    proof {
        assert(dv.skip(n as int) =~= Seq::<(Seq<char>, RawDepView)>::empty());
    }
    Ok(())
}


/// Why a package name could not be centralized.
#[derive(Debug)]
pub enum SkipReason {
    /// Some entry used an unsupported source kind.
    UnsupportedSource,
    /// Irreducibly many source declarations survive; all are listed.
    MultipleSources(Vec<SharedDependency>),
}

/// Mathematical value of a skip reason.
pub ghost enum SkipReasonView {
    UnsupportedSource,
    MultipleSources(Seq<SharedDepView>),
}

impl View for SkipReason {
    type V = SkipReasonView;

    open spec fn view(&self) -> SkipReasonView {
        match self {
            SkipReason::UnsupportedSource => SkipReasonView::UnsupportedSource,
            SkipReason::MultipleSources(v) => SkipReasonView::MultipleSources(
                v@.map_values(|d: SharedDependency| d@),
            ),
        }
    }
}

/// The shared declaration a kept entry stands for.
pub open spec fn to_shared(p: (SourceView, bool)) -> SharedDepView {
    SharedDepView { default_features: p.1, source: p.0 }
}

/// The shared declarations that a kept-entry list stands for.
pub open spec fn shared_list(s: Seq<(SourceView, bool)>) -> Seq<SharedDepView> {
    s.map_values(|p: (SourceView, bool)| to_shared(p))
}

pub open spec fn cents_view(v: Seq<(String, SharedDependency)>) -> Seq<(Seq<char>, SharedDepView)> {
    v.map_values(|p: (String, SharedDependency)| (p.0@, p.1@))
}

pub open spec fn diags_view(v: Seq<(String, SkipReason)>) -> Seq<(Seq<char>, SkipReasonView)> {
    v.map_values(|p: (String, SkipReason)| (p.0@, p.1@))
}

/// Resolution of the aggregated actions, walking the names in first-seen
/// order with the decisions and diagnostics collected so far:
///
/// - a skipped name gets an unsupported-source diagnostic;
/// - a candidate with more than one surviving source gets a diagnostic
///   listing them all;
/// - a candidate with exactly one surviving source is centralized to it;
/// - a name with no surviving entries needs no action.
pub open spec fn resolve_acc(
    m: Seq<(Seq<char>, ActionView)>,
    cents: Seq<(Seq<char>, SharedDepView)>,
    diags: Seq<(Seq<char>, SkipReasonView)>,
) -> (Seq<(Seq<char>, SharedDepView)>, Seq<(Seq<char>, SkipReasonView)>)
    decreases m.len(),
{
    if m.len() == 0 {
        (cents, diags)
    } else {
        match m[0].1 {
            ActionView::Skip => resolve_acc(
                m.skip(1),
                cents,
                diags.push((m[0].0, SkipReasonView::UnsupportedSource)),
            ),
            ActionView::TryInherit(s) => if s.len() > 1 {
                resolve_acc(
                    m.skip(1),
                    cents,
                    diags.push((m[0].0, SkipReasonView::MultipleSources(shared_list(s)))),
                )
            } else if s.len() == 1 {
                resolve_acc(m.skip(1), cents.push((m[0].0, to_shared(s[0]))), diags)
            } else {
                resolve_acc(m.skip(1), cents, diags)
            },
        }
    }
}

/// The decisions and diagnostics that the aggregated actions resolve to.
pub open spec fn resolve_s(m: Seq<(Seq<char>, ActionView)>) -> (
    Seq<(Seq<char>, SharedDepView)>,
    Seq<(Seq<char>, SkipReasonView)>,
) {
    resolve_acc(m, Seq::empty(), Seq::empty())
}

impl PackageActions {
    /// Resolves the aggregated actions into centralization decisions and
    /// skip diagnostics, per `resolve_s`.
    pub fn resolve(self) -> (r: (Vec<(String, SharedDependency)>, Vec<(String, SkipReason)>))
        ensures
            ({
                let rr = resolve_s(self@);
                cents_view(r.0@) == rr.0 && diags_view(r.1@) == rr.1
            }),
    {
        let ghost m0 = self@;
        let mut entries = self.entries;
        let mut cents: Vec<(String, SharedDependency)> = Vec::new();
        let mut diags: Vec<(String, SkipReason)> = Vec::new();
        proof {
            assert(entries@.map_values(|p: (String, Action)| (p.0@, p.1@)) == m0);
            assert(cents_view(cents@) =~= Seq::<(Seq<char>, SharedDepView)>::empty());
            assert(diags_view(diags@) =~= Seq::<(Seq<char>, SkipReasonView)>::empty());
        }
        while entries.len() > 0
            invariant
                resolve_acc(
                    entries@.map_values(|p: (String, Action)| (p.0@, p.1@)),
                    cents_view(cents@),
                    diags_view(diags@),
                ) == resolve_s(m0),
            decreases entries.len(),
        {
            let ghost ev = entries@.map_values(|p: (String, Action)| (p.0@, p.1@));
            let ghost c0 = cents_view(cents@);
            let ghost d0 = diags_view(diags@);
            let (name, action) = entries.remove(0);
            let ghost nv = name@;
            proof {
                assert(entries@.map_values(|p: (String, Action)| (p.0@, p.1@)) =~= ev.skip(1));
            }
            match action {
                Action::Skip => {
                    diags.push((name, SkipReason::UnsupportedSource));
                    proof {
                        assert(diags_view(diags@) =~= d0.push(
                            (nv, SkipReasonView::UnsupportedSource),
                        ));
                    }
                },
                Action::TryInherit(set) => {
                    let ghost sv = set@;
                    let len = set.len();
                    if len > 1 {
                        let sources = set.into_iter();
                        proof {
                            assert(sources@.map_values(|x: SharedDependency| x@)
                                =~= shared_list(sv));
                        }
                        diags.push((name, SkipReason::MultipleSources(sources)));
                        proof {
                            assert(diags_view(diags@) =~= d0.push(
                                (nv, SkipReasonView::MultipleSources(shared_list(sv))),
                            ));
                        }
                    } else if len == 1 {
                        let mut v = set.into_iter();
                        let ghost vv = v@;
                        let d = v.remove(0);
                        proof {
                            assert(vv.map_values(|x: SharedDependency| x@)[0] == d@);
                            assert(d@ == to_shared(sv[0]));
                        }
                        cents.push((name, d));
                        proof {
                            assert(cents_view(cents@) =~= c0.push((nv, to_shared(sv[0]))));
                        }
                    }
                },
            }
        }
        proof {
            assert(entries@.map_values(|p: (String, Action)| (p.0@, p.1@)) =~= Seq::<
                (Seq<char>, ActionView),
            >::empty());
        }
        (cents, diags)
    }
}


/// The action currently recorded for a name, if any.
pub open spec fn action_of(m: Seq<(Seq<char>, ActionView)>, name: Seq<char>) -> Option<ActionView> {
    if find_name(m, name) >= 0 {
        Some(m[find_name(m, name)].1)
    } else {
        None
    }
}

proof fn lemma_apply_entry_keeps_skip(
    m: Seq<(Seq<char>, ActionView)>,
    ename: Seq<char>,
    st: SourceTypeView,
    name: Seq<char>,
)
    requires
        action_of(m, name) == Some(ActionView::Skip),
    ensures
        action_of(apply_entry(m, ename, st), name) == Some(ActionView::Skip),
{
    lemma_find_name(m, name);
    lemma_find_name(m, ename);
    let i = find_name(m, name);
    let j = find_name(m, ename);
    let m2 = apply_entry(m, ename, st);
    match st {
        SourceTypeView::Inherited => {},
        SourceTypeView::MustBeSkipped => {
            if j >= 0 {
                assert(m2 == m.update(j, (ename, ActionView::Skip)));
                assert(m2[i].0 == name);
                assert forall|k: int| 0 <= k < i implies m2[k].0 != name by {
                    assert(m2[k].0 == m[k].0);
                }
                lemma_find_name_is(m2, name, i);
                if i == j {
                } else {
                    assert(m2[i].1 == m[i].1);
                }
            } else {
                assert(m2 == m.push((ename, ActionView::Skip)));
                lemma_find_name_is(m2, name, i);
            }
        },
        SourceTypeView::Shareable(dep) => {
            if j >= 0 {
                match m[j].1 {
                    ActionView::Skip => {},
                    ActionView::TryInherit(s) => {
                        assert(i != j);
                        assert(m2[i] == m[i]);
                        assert forall|k: int| 0 <= k < i implies m2[k].0 != name by {
                            assert(m2[k].0 == m[k].0);
                        }
                        lemma_find_name_is(m2, name, i);
                    },
                }
            } else {
                lemma_find_name_is(m2, name, i);
            }
        },
    }
}

/// Law: skipping is sticky. Once a package name's action is `Skip`, feeding
/// any further entries — shareable or not, for this name or others — leaves
/// it `Skip`; it never reverts to a centralization candidate.
pub proof fn lemma_sticky_skip(
    m: Seq<(Seq<char>, ActionView)>,
    deps: Seq<(Seq<char>, RawDepView)>,
    name: Seq<char>,
)
    requires
        action_of(m, name) == Some(ActionView::Skip),
        apply_deps(m, deps) is Some,
    ensures
        action_of(apply_deps(m, deps)->Some_0, name) == Some(ActionView::Skip),
    decreases deps.len(),
{
    if deps.len() == 0 {
    } else {
        let st = classify_s(deps[0].1)->Some_0;
        lemma_apply_entry_keeps_skip(m, deps[0].0, st, name);
        lemma_sticky_skip(apply_entry(m, deps[0].0, st), deps.skip(1), name);
    }
}

/// Law: a name whose entries leave more than one surviving source resolves
/// to a skip diagnostic that lists every surviving source; it is never
/// centralized. In particular two irreconcilable version requirements, seen
/// in either order for a fresh name, are both reported.
pub proof fn lemma_conflict_reported(d1: SharedDepView, d2: SharedDepView, name: Seq<char>)
    requires
        !crate::dedup::combinable(d1.source, d2.source),
        !crate::dedup::combinable(d2.source, d1.source),
    ensures
        ({
            let m = apply_entry(
                apply_entry(Seq::empty(), name, SourceTypeView::Shareable(d1)),
                name,
                SourceTypeView::Shareable(d2),
            );
            let rr = resolve_s(m);
            rr.0.len() == 0 && rr.1 =~= seq![
                (name, SkipReasonView::MultipleSources(seq![d1, d2])),
            ]
        }),
{
    reveal_with_fuel(find_name, 3);
    reveal_with_fuel(resolve_acc, 3);
    reveal_with_fuel(crate::dedup::find_eq, 3);
    reveal_with_fuel(crate::dedup::find_mg, 3);
    let m1 = apply_entry(Seq::empty(), name, SourceTypeView::Shareable(d1));
    let s1 = insert_s(Seq::empty(), d1);
    assert(m1 == Seq::<(Seq<char>, ActionView)>::empty().push(
        (name, ActionView::TryInherit(s1)),
    ));
    assert(m1[0].0 == name);
    let m = apply_entry(m1, name, SourceTypeView::Shareable(d2));
    let s2 = insert_s(s1, d2);
    assert(s1 =~= seq![(d1.source, d1.default_features)]);
    assert(s2 =~= seq![(d1.source, d1.default_features), (d2.source, d2.default_features)]);
    assert(m == m1.update(0, (name, ActionView::TryInherit(s2))));
    let rr = resolve_s(m);
    assert(m.skip(1) =~= Seq::<(Seq<char>, ActionView)>::empty());
    assert(shared_list(s2) =~= seq![d1, d2]);
    assert(s2.len() == 2);
    assert(rr == resolve_acc(
        m.skip(1),
        Seq::<(Seq<char>, SharedDepView)>::empty(),
        Seq::<(Seq<char>, SkipReasonView)>::empty().push(
            (name, SkipReasonView::MultipleSources(shared_list(s2))),
        ),
    ));
    assert(rr.1 =~= seq![(name, SkipReasonView::MultipleSources(seq![d1, d2]))]);
}


/// The three dependency tables of one manifest, as read; an absent table is
/// `None`.
pub struct ManifestDeps {
    pub dependencies: Option<Vec<(String, RawDependency)>>,
    pub dev_dependencies: Option<Vec<(String, RawDependency)>>,
    pub build_dependencies: Option<Vec<(String, RawDependency)>>,
}

/// Mathematical value of one manifest's tables.
pub ghost struct ManifestDepsView {
    pub dependencies: Option<Seq<(Seq<char>, RawDepView)>>,
    pub dev_dependencies: Option<Seq<(Seq<char>, RawDepView)>>,
    pub build_dependencies: Option<Seq<(Seq<char>, RawDepView)>>,
}

pub open spec fn opt_deps_view(o: Option<Vec<(String, RawDependency)>>) -> Option<
    Seq<(Seq<char>, RawDepView)>,
> {
    match o {
        Some(d) => Some(deps_view(d@)),
        None => None,
    }
}

impl View for ManifestDeps {
    type V = ManifestDepsView;

    open spec fn view(&self) -> ManifestDepsView {
        ManifestDepsView {
            dependencies: opt_deps_view(self.dependencies),
            dev_dependencies: opt_deps_view(self.dev_dependencies),
            build_dependencies: opt_deps_view(self.build_dependencies),
        }
    }
}

/// What one optional table does to the actions: nothing when absent.
pub open spec fn apply_table(
    m: Seq<(Seq<char>, ActionView)>,
    t: Option<Seq<(Seq<char>, RawDepView)>>,
) -> Option<Seq<(Seq<char>, ActionView)>> {
    match t {
        None => Some(m),
        Some(d) => apply_deps(m, d),
    }
}

/// What one manifest does to the actions: its dependency, dev-dependency and
/// build-dependency tables in turn.
pub open spec fn apply_manifest(
    m: Seq<(Seq<char>, ActionView)>,
    v: ManifestDepsView,
) -> Option<Seq<(Seq<char>, ActionView)>> {
    match apply_table(m, v.dependencies) {
        None => None,
        Some(m1) => match apply_table(m1, v.dev_dependencies) {
            None => None,
            Some(m2) => apply_table(m2, v.build_dependencies),
        },
    }
}

/// What the member manifests do to the actions, in order.
pub open spec fn apply_members(
    m: Seq<(Seq<char>, ActionView)>,
    ms: Seq<ManifestDepsView>,
) -> Option<Seq<(Seq<char>, ActionView)>>
    decreases ms.len(),
{
    if ms.len() == 0 {
        Some(m)
    } else {
        match apply_manifest(m, ms[0]) {
            None => None,
            Some(m1) => apply_members(m1, ms.skip(1)),
        }
    }
}

/// The actions of one whole aggregation pass: the workspace's own shared
/// dependencies first, then every in-scope member manifest; `None` when some
/// entry fails classification.
pub open spec fn aggregate_s(
    ws: Option<Seq<(Seq<char>, RawDepView)>>,
    ms: Seq<ManifestDepsView>,
) -> Option<Seq<(Seq<char>, ActionView)>> {
    match apply_table(Seq::empty(), ws) {
        None => None,
        Some(m) => apply_members(m, ms),
    }
}

fn process_table(
    t: &Option<Vec<(String, RawDependency)>>,
    actions: &mut PackageActions,
) -> (r: Result<(), RequirementError>)
    requires
        old(actions).inv(),
    ensures
        final(actions).inv(),
        match r {
            Ok(u) => apply_table(old(actions)@, opt_deps_view(*t)) == Some(final(actions)@),
            Err(_) => apply_table(old(actions)@, opt_deps_view(*t)) is None,
        },
{
    match t {
        None => Ok(()),
        Some(deps) => process_deps(deps, actions),
    }
}

/// One aggregation pass over the workspace's shared dependencies and every
/// in-scope member manifest, per `aggregate_s`. Fails exactly where some
/// requirement string fails to parse; the run aborts there.
pub fn aggregate_workspace(
    workspace_deps: &Option<Vec<(String, RawDependency)>>,
    members: &Vec<ManifestDeps>,
) -> (r: Result<PackageActions, RequirementError>)
    ensures
        match r {
            Ok(actions) => aggregate_s(
                opt_deps_view(*workspace_deps),
                members@.map_values(|m: ManifestDeps| m@),
            ) == Some(actions@) && actions.inv(),
            Err(_) => aggregate_s(
                opt_deps_view(*workspace_deps),
                members@.map_values(|m: ManifestDeps| m@),
            ) is None,
        },
{
    let ghost mv = members@.map_values(|m: ManifestDeps| m@);
    let mut actions = PackageActions::new();
    let res = process_table(workspace_deps, &mut actions);
    if let Err(e) = res {
        return Err(e);
    }
    proof {
        assert(mv.skip(0) =~= mv);
    }
    let n = members.len();
    let mut i: usize = 0;
    let mut failed: Option<RequirementError> = None;
    while i < n && failed.is_none()
        invariant
            n == members.len(),
            mv == members@.map_values(|m: ManifestDeps| m@),
            mv.len() == n,
            i <= n,
            actions.inv(),
            match failed {
                None => aggregate_s(opt_deps_view(*workspace_deps), mv) == apply_members(
                    actions@,
                    mv.skip(i as int),
                ),
                Some(_) => aggregate_s(opt_deps_view(*workspace_deps), mv) is None,
            },
        decreases n - i,
    {
        assert(mv[i as int] == members@[i as int]@);
        assert(mv.skip(i as int)[0] == mv[i as int]);
        let ghost a0 = actions@;
        let member = &members[i];
        let r1 = process_table(&member.dependencies, &mut actions);
        match r1 {
            Err(e) => {
                failed = Some(e);
            },
            Ok(u) => {
                let r2 = process_table(&member.dev_dependencies, &mut actions);
                match r2 {
                    Err(e) => {
                        failed = Some(e);
                    },
                    Ok(u2) => {
                        let r3 = process_table(&member.build_dependencies, &mut actions);
                        match r3 {
                            Err(e) => {
                                failed = Some(e);
                            },
                            Ok(u3) => {
                                proof {
                                    assert(apply_manifest(a0, mv[i as int]) == Some(actions@));
                                    assert(mv.skip(i as int).skip(1) =~= mv.skip(i as int + 1));
                                }
                            },
                        }
                    },
                }
            },
        }
        proof {
            if failed is Some {
                assert(apply_manifest(a0, mv[i as int]) is None);
            }
        }
        i = i + 1;
    }
    if let Some(e) = failed {
        return Err(e);
    }
    proof {
        assert(mv.skip(n as int) =~= Seq::<ManifestDepsView>::empty());
    }
    Ok(actions)
}

} // verus!
