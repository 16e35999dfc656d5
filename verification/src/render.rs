//! Rendering of version requirements and source descriptions as text.
//!
//! A requirement renders as its comparators joined by `", "`, each as its
//! operator symbol followed by the partial version; the unconstrained
//! requirement renders as `*`. A source description is the human-readable
//! line used in diagnostics.

use vstd::prelude::*;
use crate::source::DependencySource;
use crate::source::SourceView;
use crate::version::CompView;
use crate::version::Comparator;
use crate::version::ReqOp;
use crate::version::VersionReq;

verus! {

/// The decimal digit character for `d`.
pub open spec fn digit_char(d: u64) -> char
    recommends
        d < 10,
{
    if d == 0 {
        '0'
    } else if d == 1 {
        '1'
    } else if d == 2 {
        '2'
    } else if d == 3 {
        '3'
    } else if d == 4 {
        '4'
    } else if d == 5 {
        '5'
    } else if d == 6 {
        '6'
    } else if d == 7 {
        '7'
    } else if d == 8 {
        '8'
    } else {
        '9'
    }
}

/// The decimal rendering of a number, most significant digit first.
pub open spec fn dec_str(n: u64) -> Seq<char>
    decreases n,
{
    if n < 10 {
        seq![digit_char(n)]
    } else {
        dec_str(n / 10).push(digit_char(n % 10))
    }
}

/// Appends the decimal rendering of `n`.
pub fn push_dec(n: u64, out: &mut String)
    ensures
        final(out)@ == old(out)@ + dec_str(n),
    decreases n,
{
    if n >= 10 {
        push_dec(n / 10, out);
    }
    let d = n % 10;
    let ds: &str = if d == 0 {
        "0"
    } else if d == 1 {
        "1"
    } else if d == 2 {
        "2"
    } else if d == 3 {
        "3"
    } else if d == 4 {
        "4"
    } else if d == 5 {
        "5"
    } else if d == 6 {
        "6"
    } else if d == 7 {
        "7"
    } else if d == 8 {
        "8"
    } else {
        "9"
    };
    proof {
        reveal_strlit("0");
        reveal_strlit("1");
        reveal_strlit("2");
        reveal_strlit("3");
        reveal_strlit("4");
        reveal_strlit("5");
        reveal_strlit("6");
        reveal_strlit("7");
        reveal_strlit("8");
        reveal_strlit("9");
        assert(ds@ =~= seq![digit_char(d)]);
    }
    out.append(ds);
    proof {
        if n >= 10 {
            assert(out@ =~= old(out)@ + dec_str(n));
        } else {
            assert(out@ =~= old(out)@ + dec_str(n));
        }
    }
}

/// The symbol of a comparison operator; a wildcard has none.
pub open spec fn op_str(op: ReqOp) -> Seq<char> {
    match op {
        ReqOp::Exact => seq!['='],
        ReqOp::Greater => seq!['>'],
        ReqOp::GreaterEq => seq!['>', '='],
        ReqOp::Less => seq!['<'],
        ReqOp::LessEq => seq!['<', '='],
        ReqOp::Tilde => seq!['~'],
        ReqOp::Caret => seq!['^'],
        ReqOp::Wildcard => Seq::empty(),
    }
}

/// The rendering of one comparator: operator symbol, then the major number,
/// then the minor and patch numbers where present (a wildcard comparator
/// renders `.*` in place of its first absent number), then `-` and the
/// pre-release tag where one is present.
pub open spec fn comp_str(c: CompView) -> Seq<char> {
    op_str(c.op) + dec_str(c.major) + match c.minor {
        None => if c.op == ReqOp::Wildcard {
            seq!['.', '*']
        } else {
            Seq::empty()
        },
        Some(mi) => seq!['.'] + dec_str(mi) + match c.patch {
            None => if c.op == ReqOp::Wildcard {
                seq!['.', '*']
            } else {
                Seq::empty()
            },
            Some(p) => seq!['.'] + dec_str(p) + if c.pre.len() == 0 {
                Seq::empty()
            } else {
                seq!['-'] + c.pre
            },
        },
    }
}

/// The renderings of the comparators, joined by `", "`.
pub open spec fn comps_str(r: Seq<CompView>) -> Seq<char>
    decreases r.len(),
{
    if r.len() == 0 {
        Seq::empty()
    } else if r.len() == 1 {
        comp_str(r[0])
    } else {
        comp_str(r[0]) + seq![',', ' '] + comps_str(r.skip(1))
    }
}

/// The rendering of a whole requirement; the unconstrained one is `*`.
pub open spec fn req_str(r: Seq<CompView>) -> Seq<char> {
    if r.len() == 0 {
        seq!['*']
    } else {
        comps_str(r)
    }
}

#[verifier::rlimit(60)]
fn push_comp(c: &Comparator, out: &mut String)
    ensures
        final(out)@ == old(out)@ + comp_str(c@),
{
    let ops: &str = match c.op {
        ReqOp::Exact => "=",
        ReqOp::Greater => ">",
        ReqOp::GreaterEq => ">=",
        ReqOp::Less => "<",
        ReqOp::LessEq => "<=",
        ReqOp::Tilde => "~",
        ReqOp::Caret => "^",
        ReqOp::Wildcard => "",
    };
    proof {
        reveal_strlit("=");
        reveal_strlit(">");
        reveal_strlit(">=");
        reveal_strlit("<");
        reveal_strlit("<=");
        reveal_strlit("~");
        reveal_strlit("^");
        reveal_strlit("");
        assert(ops@ =~= op_str(c@.op));
    }
    out.append(ops);
    push_dec(c.major, out);
    if let Some(mi) = c.minor {
        proof {
            reveal_strlit(".");
        }
        out.append(".");
        push_dec(mi, out);
        if let Some(p) = c.patch {
            out.append(".");
            push_dec(p, out);
            if !c.pre.as_str().is_empty() {
                proof {
                    reveal_strlit("-");
                }
                out.append("-");
                out.append(c.pre.as_str());
            }
        } else {
            if c.op == ReqOp::Wildcard {
                proof {
                    reveal_strlit(".*");
                }
                out.append(".*");
            }
        }
    } else {
        if c.op == ReqOp::Wildcard {
            proof {
                reveal_strlit(".*");
            }
            out.append(".*");
        }
    }
    proof {
        assert(out@ =~= old(out)@ + comp_str(c@));
    }
}

/// Renders a requirement, per `req_str`.
pub fn render_req(req: &VersionReq) -> (out: String)
    ensures
        out@ == req_str(req@),
{
    let mut out = String::new();
    let n = req.comparators.len();
    if n == 0 {
        proof {
            reveal_strlit("*");
        }
        out.append("*");
        proof {
            assert(out@ =~= req_str(req@));
        }
        return out;
    }
    for i in 0..n
        invariant
            n == req.comparators.len(),
            n > 0,
            out@ == comps_prefix(req@, i as int),
    {
        if i > 0 {
            proof {
                reveal_strlit(", ");
            }
            out.append(", ");
        }
        push_comp(&req.comparators[i], &mut out);
        proof {
            assert(req@[i as int] == req.comparators@[i as int]@);
            lemma_comps_prefix_step(req@, i as int);
            assert(out@ =~= comps_prefix(req@, i as int + 1));
        }
    }
    proof {
        lemma_comps_prefix_full(req@);
    }
    out
}

/// The rendering of the first `k` comparators, joined by `", "`.
pub open spec fn comps_prefix(r: Seq<CompView>, k: int) -> Seq<char>
    decreases k,
{
    if k <= 0 {
        Seq::empty()
    } else if k == 1 {
        comp_str(r[0])
    } else {
        comps_prefix(r, k - 1) + seq![',', ' '] + comp_str(r[k - 1])
    }
}

proof fn lemma_comps_prefix_step(r: Seq<CompView>, i: int)
    requires
        0 <= i < r.len(),
    ensures
        i == 0 ==> comps_prefix(r, 1) == comp_str(r[0]),
        i > 0 ==> comps_prefix(r, i + 1) == comps_prefix(r, i) + seq![',', ' '] + comp_str(r[i]),
{
}

proof fn lemma_comps_str_prefix(r: Seq<CompView>, k: int)
    requires
        1 <= k <= r.len(),
        r.len() >= 1,
    ensures
        comps_str(r.take(k)) == comps_prefix(r, k),
    decreases k,
{
    if k == 1 {
        assert(r.take(1).len() == 1);
        assert(r.take(1)[0] == r[0]);
        assert(comps_str(r.take(1)) == comp_str(r[0]));
    } else {
        lemma_comps_str_prefix(r, k - 1);
        lemma_comps_join(r.take(k - 1), r[k - 1]);
        assert(r.take(k) =~= r.take(k - 1).push(r[k - 1]));
    }
}

proof fn lemma_comps_join(s: Seq<CompView>, c: CompView)
    requires
        s.len() >= 1,
    ensures
        comps_str(s.push(c)) == comps_str(s) + seq![',', ' '] + comp_str(c),
    decreases s.len(),
{
    let sp = s.push(c);
    if s.len() == 1 {
        assert(sp.len() == 2);
        assert(sp[0] == s[0]);
        assert(sp.skip(1) =~= seq![c]);
        assert(comps_str(sp.skip(1)) == comp_str(c));
        assert(comps_str(sp) =~= comps_str(s) + seq![',', ' '] + comp_str(c));
    } else {
        assert(sp.skip(1) =~= s.skip(1).push(c));
        lemma_comps_join(s.skip(1), c);
        assert(sp[0] == s[0]);
        assert(comps_str(sp) == comp_str(sp[0]) + seq![',', ' '] + comps_str(sp.skip(1)));
        assert(comps_str(sp) =~= comps_str(s) + seq![',', ' '] + comp_str(c));
    }
}

proof fn lemma_comps_prefix_full(r: Seq<CompView>)
    requires
        r.len() >= 1,
    ensures
        comps_prefix(r, r.len() as int) == req_str(r),
{
    lemma_comps_str_prefix(r, r.len() as int);
    assert(r.take(r.len() as int) =~= r);
}


/// The description of an optional trailing field, `", <label>: <text>"`.
pub open spec fn opt_field_str(label: Seq<char>, text: Option<Seq<char>>) -> Seq<char> {
    match text {
        Some(t) => seq![',', ' '] + label + seq![':', ' '] + t,
        None => Seq::empty(),
    }
}

/// The diagnostic line describing a source: its kind, its locator, and its
/// optional fields in declaration order.
pub open spec fn describe_source_s(s: SourceView) -> Seq<char> {
    match s {
        SourceView::Version(r) => "version: "@ + req_str(r),
        SourceView::Git { git, branch, tag, rev, version } => "git: "@ + git + opt_field_str(
            "branch"@,
            branch,
        ) + opt_field_str("tag"@, tag) + opt_field_str("rev"@, rev) + opt_field_str(
            "version"@,
            match version {
                Some(v) => Some(req_str(v)),
                None => None,
            },
        ),
        SourceView::Path { path, version } => "path: "@ + path + opt_field_str(
            "version"@,
            match version {
                Some(v) => Some(req_str(v)),
                None => None,
            },
        ),
    }
}

fn push_opt_field(label: &str, text: Option<&String>, out: &mut String)
    ensures
        final(out)@ == old(out)@ + opt_field_str(
            label@,
            match text {
                Some(t) => Some(t@),
                None => None,
            },
        ),
{
    match text {
        Some(t) => {
            proof {
                reveal_strlit(", ");
                reveal_strlit(": ");
            }
            out.append(", ");
            out.append(label);
            out.append(": ");
            out.append(t.as_str());
            proof {
                assert(out@ =~= old(out)@ + opt_field_str(label@, Some(t@)));
            }
        },
        None => {},
    }
}

fn push_opt_req_field(label: &str, req: &Option<VersionReq>, out: &mut String)
    ensures
        final(out)@ == old(out)@ + opt_field_str(
            label@,
            match req {
                Some(v) => Some(req_str(v@)),
                None => None,
            },
        ),
{
    match req {
        Some(v) => {
            let rendered = render_req(v);
            push_opt_field(label, Some(&rendered), out);
        },
        None => {},
    }
}

/// The human-readable description of a source, per `describe_source_s`; used
/// in the per-package diagnostics.
pub fn describe_source(s: &DependencySource) -> (out: String)
    ensures
        out@ == describe_source_s(s@),
{
    let mut out = String::new();
    match s {
        DependencySource::Version(req) => {
            proof {
                reveal_strlit("version: ");
            }
            out.append("version: ");
            let rendered = render_req(req);
            out.append(rendered.as_str());
            proof {
                assert(out@ =~= describe_source_s(s@));
            }
        },
        DependencySource::Git { git, branch, tag, rev, version } => {
            proof {
                reveal_strlit("git: ");
            }
            out.append("git: ");
            out.append(git.as_str());
            push_opt_field("branch", branch.as_ref(), &mut out);
            push_opt_field("tag", tag.as_ref(), &mut out);
            push_opt_field("rev", rev.as_ref(), &mut out);
            push_opt_req_field("version", version, &mut out);
            proof {
                assert(out@ =~= describe_source_s(s@));
            }
        },
        DependencySource::Path { path, version } => {
            proof {
                reveal_strlit("path: ");
            }
            out.append("path: ");
            out.append(path.as_str());
            push_opt_req_field("version", version, &mut out);
            proof {
                assert(out@ =~= describe_source_s(s@));
            }
        },
    }
    out
}

/// The string with every leading `^` removed.
pub open spec fn trim_carets(s: Seq<char>) -> Seq<char>
    decreases s.len(),
{
    if s.len() > 0 && s[0] == '^' {
        trim_carets(s.skip(1))
    } else {
        s
    }
}

proof fn lemma_trim_carets_at(s: Seq<char>, i: int)
    requires
        0 <= i <= s.len(),
        forall|k: int| 0 <= k < i ==> s[k] == '^',
        i == s.len() || s[i] != '^',
    ensures
        trim_carets(s) == s.skip(i),
    decreases i,
{
    if i == 0 {
        assert(s.skip(0) =~= s);
    } else {
        assert(s[0] == '^');
        assert forall|k: int| 0 <= k < i - 1 implies s.skip(1)[k] == '^' by {
            assert(s.skip(1)[k] == s[k + 1]);
        }
        if i < s.len() {
            assert(s.skip(1)[i - 1] == s[i]);
        }
        lemma_trim_carets_at(s.skip(1), i - 1);
        assert(s.skip(1).skip(i - 1) =~= s.skip(i));
    }
}

/// Removes every leading `^` from a requirement string, per `trim_carets`;
/// manifests write bare versions without the caret.
pub fn trim_leading_carets(s: &String) -> (out: String)
    ensures
        out@ == trim_carets(s@),
{
    let n = s.as_str().unicode_len();
    let mut i: usize = 0;
    while i < n && s.as_str().get_char(i) == '^'
        invariant
            n == s@.len(),
            0 <= i <= n,
            forall|k: int| 0 <= k < i ==> s@[k] == '^',
        decreases n - i,
    {
        i = i + 1;
    }
    let out = s.as_str().substring_char(i, n).to_owned();
    proof {
        lemma_trim_carets_at(s@, i as int);
        assert(s@.subrange(i as int, n as int) =~= s@.skip(i as int));
    }
    out
}

} // verus!
