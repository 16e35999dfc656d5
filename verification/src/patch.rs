//! Format-preserving patch planning.
//!
//! The structured-document model is a collaborator around this crate; what
//! the patcher reads and writes of a dependency table is modeled here as
//! semantic content plus positional formatting metadata. Each table entry
//! carries its key, the key's leading decoration (comments and blank lines),
//! the value's decoration, and its value — either an untouched value read
//! from disk (of which only table-ness matters) or a value this pass wrote.
//! Applying a planned table to the document rewrites exactly the written
//! entries, with the decors recorded here, and leaves the rest untouched.

use vstd::prelude::*;
use crate::aggregate::cents_view;
use crate::aggregate::deps_view;
use crate::aggregate::find_name;
use crate::aggregate::lemma_find_name;
use crate::aggregate::lemma_find_name_is;
use crate::classify::DetailedDependency;
use crate::classify::RawDepView;
use crate::classify::RawDependency;
use crate::classify::opt_str_view;
use crate::classify::opt_strs_view;
use crate::render::render_req;
use crate::render::req_str;
use crate::render::trim_carets;
use crate::render::trim_leading_carets;
use crate::source::DependencySource;
use crate::source::SharedDepView;
use crate::source::SharedDependency;
use crate::source::SourceView;
use crate::source::clone_opt_string;

verus! {

/// Positional formatting metadata of one position: the raw text before and
/// after it. `None` leaves the document model's default formatting.
#[derive(Clone, Debug)]
pub struct DecorData {
    pub prefix: Option<String>,
    pub suffix: Option<String>,
}

/// Mathematical value of a decoration.
pub ghost struct DecorView {
    pub prefix: Option<Seq<char>>,
    pub suffix: Option<Seq<char>>,
}

impl View for DecorData {
    type V = DecorView;

    open spec fn view(&self) -> DecorView {
        DecorView { prefix: opt_str_view(self.prefix), suffix: opt_str_view(self.suffix) }
    }
}

/// The mathematical value of an inline table's key/value list.
pub open spec fn entries_view(v: Seq<(String, TomlScalar)>) -> Seq<(Seq<char>, TomlScalarView)> {
    v.map_values(|p: (String, TomlScalar)| (p.0@, p.1@))
}

/// A scalar value inside a written inline table.
#[derive(Clone, Debug)]
pub enum TomlScalar {
    Text(String),
    Flag(bool),
    TextList(Vec<String>),
}

/// Mathematical value of a scalar.
pub ghost enum TomlScalarView {
    Text(Seq<char>),
    Flag(bool),
    TextList(Seq<Seq<char>>),
}

impl View for TomlScalar {
    type V = TomlScalarView;

    open spec fn view(&self) -> TomlScalarView {
        match self {
            TomlScalar::Text(s) => TomlScalarView::Text(s@),
            TomlScalar::Flag(b) => TomlScalarView::Flag(*b),
            TomlScalar::TextList(v) => TomlScalarView::TextList(
                v@.map_values(|s: String| s@),
            ),
        }
    }
}

/// A value this pass writes: a bare string, or an inline table of scalars,
/// possibly rendered as a dotted key path.
#[derive(Clone, Debug)]
pub enum DepItem {
    Plain(String),
    Inline { entries: Vec<(String, TomlScalar)>, dotted: bool },
}

/// Mathematical value of a written value.
pub ghost enum DepItemView {
    Plain(Seq<char>),
    Inline { entries: Seq<(Seq<char>, TomlScalarView)>, dotted: bool },
}

impl View for DepItem {
    type V = DepItemView;

    open spec fn view(&self) -> DepItemView {
        match self {
            DepItem::Plain(s) => DepItemView::Plain(s@),
            DepItem::Inline { entries, dotted } => DepItemView::Inline {
                entries: entries_view(entries@),
                dotted: *dotted,
            },
        }
    }
}

/// The value of one table entry: untouched as read from disk, or written by
/// this pass.
#[derive(Clone, Debug)]
pub enum TableItem {
    /// Read from disk and left alone; only whether it is a full table
    /// matters, for the leading-space correction on replacement.
    Untouched { is_table: bool },
    /// Written by this pass.
    Written(DepItem),
}

/// Mathematical value of a table-entry value.
pub ghost enum TableItemView {
    Untouched { is_table: bool },
    Written(DepItemView),
}

impl View for TableItem {
    type V = TableItemView;

    open spec fn view(&self) -> TableItemView {
        match self {
            TableItem::Untouched { is_table } => TableItemView::Untouched { is_table: *is_table },
            TableItem::Written(d) => TableItemView::Written(d@),
        }
    }
}

/// Everything one table entry carries besides its key.
#[derive(Clone, Debug)]
pub struct EntryData {
    pub key_decor: DecorData,
    pub value_decor: DecorData,
    pub item: TableItem,
}

/// Mathematical value of an entry.
pub ghost struct EntryView {
    pub key_decor: DecorView,
    pub value_decor: DecorView,
    pub item: TableItemView,
}

impl View for EntryData {
    type V = EntryView;

    open spec fn view(&self) -> EntryView {
        EntryView { key_decor: self.key_decor@, value_decor: self.value_decor@, item: self.item@ }
    }
}

/// One dependency table of a manifest, entries in document order.
#[derive(Debug)]
pub struct DepTable {
    pub entries: Vec<(String, EntryData)>,
}

impl View for DepTable {
    type V = Seq<(Seq<char>, EntryView)>;

    open spec fn view(&self) -> Seq<(Seq<char>, EntryView)> {
        self.entries@.map_values(|p: (String, EntryData)| (p.0@, p.1@))
    }
}

/// Whether an entry's value is a full table.
pub open spec fn is_table_item(it: TableItemView) -> bool {
    match it {
        TableItemView::Untouched { is_table } => is_table,
        TableItemView::Written(_) => false,
    }
}

/// What writing `v` under `key` does to a table, preserving decoration:
///
/// - replacing an existing entry keeps the entry's position, the key's
///   leading decoration and the value's trailing decoration; the value's
///   leading decoration is kept too, except that a full table's is corrected
///   to a single space, since the replacement is never itself a table and a
///   table's newline decoration would misplace it;
/// - a new key is appended with default decoration.
pub open spec fn ipd_s(
    t: Seq<(Seq<char>, EntryView)>,
    key: Seq<char>,
    v: DepItemView,
) -> Seq<(Seq<char>, EntryView)> {
    let i = find_name(t, key);
    if i >= 0 {
        let e = t[i].1;
        let prefix = if is_table_item(e.item) {
            Some(" "@)
        } else {
            e.value_decor.prefix
        };
        t.update(
            i,
            (
                key,
                EntryView {
                    key_decor: e.key_decor,
                    value_decor: DecorView { prefix: prefix, suffix: e.value_decor.suffix },
                    item: TableItemView::Written(v),
                },
            ),
        )
    } else {
        t.push(
            (
                key,
                EntryView {
                    key_decor: DecorView { prefix: None, suffix: None },
                    value_decor: DecorView { prefix: None, suffix: None },
                    item: TableItemView::Written(v),
                },
            ),
        )
    }
}

impl DepTable {
    pub fn new() -> (r: DepTable)
        ensures
            r@ =~= Seq::<(Seq<char>, EntryView)>::empty(),
    {
        DepTable { entries: Vec::new() }
    }

    fn find_idx(&self, name: &String) -> (r: Option<usize>)
        ensures
            match r {
                Some(i) => i < self@.len() && find_name(self@, name@) == i,
                None => find_name(self@, name@) == -1,
            },
    {
        let n = self.entries.len();
        for i in 0..n
            invariant
                n == self.entries.len(),
                self@.len() == n,
                forall|k: int| 0 <= k < i ==> self@[k].0 != name@,
        {
            assert(self@[i as int] == (self.entries@[i as int].0@, self.entries@[i as int].1@));
            if self.entries[i].0 == *name {
                proof {
                    lemma_find_name_is(self@, name@, i as int);
                }
                return Some(i);
            }
        }
        proof {
            lemma_find_name(self@, name@);
            if find_name(self@, name@) != -1 {
                assert(false);
            }
        }
        None
    }

    /// Whether the table already has an entry under `key`.
    pub fn has_key(&self, key: &String) -> (r: bool)
        ensures
            r == (find_name(self@, key@) >= 0),
    {
        self.find_idx(key).is_some()
    }
}

/// Writes `value` under `key`, preserving the decoration of a replaced
/// entry, per `ipd_s`.
pub fn insert_preserving_decor(table: &mut DepTable, key: &String, value: DepItem)
    ensures
        final(table)@ == ipd_s(old(table)@, key@, value@),
{
    let ghost t0 = table@;
    match table.find_idx(key) {
        Some(i) => {
            proof {
                lemma_find_name(t0, key@);
            }
            let (nm, ed) = table.entries.remove(i);
            proof {
                assert(table.entries@ =~= old(table).entries@.remove(i as int));
            }
            let is_table = match &ed.item {
                TableItem::Untouched { is_table } => *is_table,
                TableItem::Written(_) => false,
            };
            let prefix = if is_table {
                proof {
                    reveal_strlit(" ");
                }
                let sp = String::from_str(" ");
                proof {
                    assert(sp@ =~= " "@);
                }
                Some(sp)
            } else {
                ed.value_decor.prefix
            };
            let entry = EntryData {
                key_decor: ed.key_decor,
                value_decor: DecorData { prefix, suffix: ed.value_decor.suffix },
                item: TableItem::Written(value),
            };
            table.entries.insert(i, (nm, entry));
            proof {
                assert(table@ =~= ipd_s(t0, key@, value@));
            }
        },
        None => {
            table.entries.push(
                (
                    key.clone(),
                    EntryData {
                        key_decor: DecorData { prefix: None, suffix: None },
                        value_decor: DecorData { prefix: None, suffix: None },
                        item: TableItem::Written(value),
                    },
                ),
            );
            proof {
                assert(table@ =~= ipd_s(t0, key@, value@));
            }
        },
    }
}


/// A single optional key/value pair of an inline table.
pub open spec fn opt_kv(label: Seq<char>, v: Option<TomlScalarView>) -> Seq<
    (Seq<char>, TomlScalarView),
> {
    match v {
        Some(x) => seq![(label, x)],
        None => Seq::empty(),
    }
}

pub open spec fn str_scalar(o: Option<Seq<char>>) -> Option<TomlScalarView> {
    match o {
        Some(s) => Some(TomlScalarView::Text(s)),
        None => None,
    }
}

pub open spec fn trimmed_scalar(o: Option<Seq<char>>) -> Option<TomlScalarView> {
    match o {
        Some(s) => Some(TomlScalarView::Text(trim_carets(s))),
        None => None,
    }
}

pub open spec fn list_scalar(o: Option<Seq<Seq<char>>>) -> Option<TomlScalarView> {
    match o {
        Some(v) => Some(TomlScalarView::TextList(v)),
        None => None,
    }
}

pub open spec fn flag_scalar(o: Option<bool>) -> Option<TomlScalarView> {
    match o {
        Some(b) => Some(TomlScalarView::Flag(b)),
        None => None,
    }
}

/// The inline-table (or bare-string) value that a raw dependency serializes
/// to when written into the shared-dependencies table:
///
/// - a bare requirement string is written verbatim, minus any leading `^`;
/// - a detailed table writes its present fields in declaration order, the
///   version again minus any leading `^`;
/// - an inherited entry writes its workspace reference.
pub open spec fn dep2item_s(dep: RawDepView) -> DepItemView {
    match dep {
        RawDepView::Simple(v) => DepItemView::Plain(trim_carets(v)),
        RawDepView::Inherited(i) => DepItemView::Inline {
            entries: seq![("workspace"@, TomlScalarView::Flag(true))] + opt_kv(
                "features"@,
                list_scalar(i.features),
            ) + opt_kv("optional"@, flag_scalar(i.optional)),
            dotted: false,
        },
        RawDepView::Detailed(d) => DepItemView::Inline {
            entries: opt_kv("version"@, trimmed_scalar(d.version)) + opt_kv(
                "registry"@,
                str_scalar(d.registry),
            ) + opt_kv("registry-index"@, str_scalar(d.registry_index)) + opt_kv(
                "path"@,
                str_scalar(d.path),
            ) + opt_kv("git"@, str_scalar(d.git)) + opt_kv("branch"@, str_scalar(d.branch))
                + opt_kv("tag"@, str_scalar(d.tag)) + opt_kv("rev"@, str_scalar(d.rev)) + opt_kv(
                "features"@,
                list_scalar(d.features),
            ) + opt_kv("optional"@, flag_scalar(d.optional)) + opt_kv(
                "default-features"@,
                flag_scalar(d.default_features),
            ) + opt_kv("package"@, str_scalar(d.package)),
            dotted: false,
        },
    }
}

fn clone_strings(v: &Vec<String>) -> (r: Vec<String>)
    ensures
        r@.map_values(|s: String| s@) == v@.map_values(|s: String| s@),
{
    let mut r: Vec<String> = Vec::new();
    let n = v.len();
    for i in 0..n
        invariant
            n == v.len(),
            r@.len() == i,
            forall|k: int| 0 <= k < i ==> r@[k]@ == v@[k]@,
    {
        r.push(v[i].clone());
    }
    proof {
        assert(r@.map_values(|s: String| s@) =~= v@.map_values(|s: String| s@));
    }
    r
}

fn push_kv(entries: &mut Vec<(String, TomlScalar)>, key: &str, v: TomlScalar)
    ensures
        entries_view(final(entries)@) == entries_view(old(entries)@).push((key@, v@)),
{
    let ghost vv = v@;
    entries.push((String::from_str(key), v));
    proof {
        assert(entries_view(entries@) =~= entries_view(old(entries)@).push((key@, vv)));
    }
}

proof fn lemma_opt_kv_step(
    prev: Seq<(Seq<char>, TomlScalarView)>,
    cur: Seq<(Seq<char>, TomlScalarView)>,
    label: Seq<char>,
    v: Option<TomlScalarView>,
)
    requires
        match v {
            Some(x) => cur == prev.push((label, x)),
            None => cur == prev,
        },
    ensures
        cur == prev + opt_kv(label, v),
{
    match v {
        Some(x) => {
            assert(prev.push((label, x)) =~= prev + seq![(label, x)]);
        },
        None => {
            assert(prev + Seq::<(Seq<char>, TomlScalarView)>::empty() =~= prev);
        },
    }
}

fn push_opt_text(entries: &mut Vec<(String, TomlScalar)>, label: &str, o: &Option<String>)
    ensures
        entries_view(final(entries)@) == entries_view(old(entries)@) + opt_kv(
            label@,
            str_scalar(opt_str_view(*o)),
        ),
{
    let ghost prev = entries_view(entries@);
    match o {
        Some(s) => {
            push_kv(entries, label, TomlScalar::Text(s.clone()));
        },
        None => {},
    }
    proof {
        lemma_opt_kv_step(prev, entries_view(entries@), label@, str_scalar(opt_str_view(*o)));
    }
}

fn push_opt_trimmed(entries: &mut Vec<(String, TomlScalar)>, label: &str, o: &Option<String>)
    ensures
        entries_view(final(entries)@) == entries_view(old(entries)@) + opt_kv(
            label@,
            trimmed_scalar(opt_str_view(*o)),
        ),
{
    let ghost prev = entries_view(entries@);
    match o {
        Some(s) => {
            push_kv(entries, label, TomlScalar::Text(trim_leading_carets(s)));
        },
        None => {},
    }
    proof {
        lemma_opt_kv_step(prev, entries_view(entries@), label@, trimmed_scalar(opt_str_view(*o)));
    }
}

fn push_opt_flag(entries: &mut Vec<(String, TomlScalar)>, label: &str, o: &Option<bool>)
    ensures
        entries_view(final(entries)@) == entries_view(old(entries)@) + opt_kv(
            label@,
            flag_scalar(*o),
        ),
{
    let ghost prev = entries_view(entries@);
    match o {
        Some(b) => {
            push_kv(entries, label, TomlScalar::Flag(*b));
        },
        None => {},
    }
    proof {
        lemma_opt_kv_step(prev, entries_view(entries@), label@, flag_scalar(*o));
    }
}

fn push_opt_list(entries: &mut Vec<(String, TomlScalar)>, label: &str, o: &Option<Vec<String>>)
    ensures
        entries_view(final(entries)@) == entries_view(old(entries)@) + opt_kv(
            label@,
            list_scalar(opt_strs_view(*o)),
        ),
{
    let ghost prev = entries_view(entries@);
    match o {
        Some(v) => {
            push_kv(entries, label, TomlScalar::TextList(clone_strings(v)));
        },
        None => {},
    }
    proof {
        lemma_opt_kv_step(prev, entries_view(entries@), label@, list_scalar(opt_strs_view(*o)));
    }
}

/// Serializes a raw dependency for the shared-dependencies table, per
/// `dep2item_s`.
pub fn dep2toml_item(dep: &RawDependency) -> (r: DepItem)
    ensures
        r@ == dep2item_s(dep@),
{
    match dep {
        RawDependency::Simple(v) => DepItem::Plain(trim_leading_carets(v)),
        RawDependency::Inherited(i) => {
            let mut entries: Vec<(String, TomlScalar)> = Vec::new();
            proof {
                assert(entries_view(entries@) =~= Seq::<(Seq<char>, TomlScalarView)>::empty());
            }
            push_kv(&mut entries, "workspace", TomlScalar::Flag(true));
            proof {
                assert(entries_view(entries@) =~= seq![
                    ("workspace"@, TomlScalarView::Flag(true)),
                ]);
            }
            push_opt_list(&mut entries, "features", &i.features);
            push_opt_flag(&mut entries, "optional", &i.optional);
            let r = DepItem::Inline { entries, dotted: false };
            proof {
                assert(r@ == dep2item_s(dep@));
            }
            r
        },
        RawDependency::Detailed(d) => detailed2item(d),
    }
}

fn detailed2item(d: &DetailedDependency) -> (r: DepItem)
    ensures
        r@ == dep2item_s(RawDepView::Detailed(d@)),
{
    let mut entries: Vec<(String, TomlScalar)> = Vec::new();
    proof {
        assert(entries_view(entries@) =~= Seq::<(Seq<char>, TomlScalarView)>::empty());
    }
    let ghost e0 = entries_view(entries@);
    push_opt_trimmed(&mut entries, "version", &d.version);
    proof {
        assert(e0 + opt_kv("version"@, trimmed_scalar(d@.version)) =~= opt_kv(
            "version"@,
            trimmed_scalar(d@.version),
        ));
    }
    push_opt_text(&mut entries, "registry", &d.registry);
    push_opt_text(&mut entries, "registry-index", &d.registry_index);
    push_opt_text(&mut entries, "path", &d.path);
    push_opt_text(&mut entries, "git", &d.git);
    push_opt_text(&mut entries, "branch", &d.branch);
    push_opt_text(&mut entries, "tag", &d.tag);
    push_opt_text(&mut entries, "rev", &d.rev);
    push_opt_list(&mut entries, "features", &d.features);
    push_opt_flag(&mut entries, "optional", &d.optional);
    push_opt_flag(&mut entries, "default-features", &d.default_features);
    push_opt_text(&mut entries, "package", &d.package);
    let r = DepItem::Inline { entries, dotted: false };
    proof {
        assert(r@ == dep2item_s(RawDepView::Detailed(d@)));
    }
    r
}


pub open spec fn opt_req_str(o: Option<Seq<crate::version::CompView>>) -> Option<Seq<char>> {
    match o {
        Some(r) => Some(req_str(r)),
        None => None,
    }
}

/// An empty detailed table, every field absent.
pub open spec fn empty_detail() -> crate::classify::DetailedView {
    crate::classify::DetailedView {
        version: None,
        registry: None,
        registry_index: None,
        path: None,
        git: None,
        branch: None,
        tag: None,
        rev: None,
        features: None,
        optional: None,
        default_features: None,
        package: None,
    }
}

/// The raw dependency that a canonical shared declaration serializes to:
/// a bare version string when the source is a version requirement with
/// default features enabled; otherwise a detailed table carrying the
/// source's fields, with `default-features = false` only when disabled.
pub open spec fn shared2dep_s(d: SharedDepView) -> RawDepView {
    match d.source {
        SourceView::Version(v) => if d.default_features {
            RawDepView::Simple(req_str(v))
        } else {
            RawDepView::Detailed(
                crate::classify::DetailedView {
                    version: Some(req_str(v)),
                    default_features: Some(false),
                    ..empty_detail()
                },
            )
        },
        SourceView::Git { git, branch, tag, rev, version } => RawDepView::Detailed(
            crate::classify::DetailedView {
                version: opt_req_str(version),
                git: Some(git),
                branch: branch,
                tag: tag,
                rev: rev,
                default_features: if d.default_features {
                    None
                } else {
                    Some(false)
                },
                ..empty_detail()
            },
        ),
        SourceView::Path { path, version } => RawDepView::Detailed(
            crate::classify::DetailedView {
                version: opt_req_str(version),
                path: Some(path),
                default_features: if d.default_features {
                    None
                } else {
                    Some(false)
                },
                ..empty_detail()
            },
        ),
    }
}

fn render_opt_req(o: &Option<crate::version::VersionReq>) -> (r: Option<String>)
    ensures
        opt_str_view(r) == opt_req_str(crate::source::opt_view(*o)),
{
    match o {
        Some(req) => Some(render_req(req)),
        None => None,
    }
}

fn empty_detailed() -> (r: DetailedDependency)
    ensures
        r@ == empty_detail(),
{
    DetailedDependency {
        version: None,
        registry: None,
        registry_index: None,
        path: None,
        git: None,
        branch: None,
        tag: None,
        rev: None,
        features: None,
        optional: None,
        default_features: None,
        package: None,
    }
}

/// Serializes a canonical shared declaration, per `shared2dep_s`.
pub fn shared2dep(shared_dependency: &SharedDependency) -> (r: RawDependency)
    ensures
        r@ == shared2dep_s(shared_dependency@),
{
    let default_features = shared_dependency.default_features;
    match &shared_dependency.source {
        DependencySource::Version(version) => {
            if default_features {
                RawDependency::Simple(render_req(version))
            } else {
                let mut d = empty_detailed();
                d.version = Some(render_req(version));
                d.default_features = Some(false);
                RawDependency::Detailed(d)
            }
        },
        DependencySource::Git { git, branch, tag, rev, version } => {
            let mut d = empty_detailed();
            d.version = render_opt_req(version);
            d.git = Some(git.clone());
            d.branch = clone_opt_string(branch);
            d.tag = clone_opt_string(tag);
            d.rev = clone_opt_string(rev);
            d.default_features = if default_features {
                None
            } else {
                Some(false)
            };
            RawDependency::Detailed(d)
        },
        DependencySource::Path { path, version } => {
            let mut d = empty_detailed();
            d.version = render_opt_req(version);
            d.path = Some(path.clone());
            d.default_features = if default_features {
                None
            } else {
                Some(false)
            };
            RawDependency::Detailed(d)
        },
    }
}

/// The relative path from `base` to `path`, or `None` when no relative path
/// exists or it is not valid text. The result depends on the two paths
/// alone.
pub uninterp spec fn rel_path_of(path: Seq<char>, base: Seq<char>) -> Option<Seq<char>>;

/// Relies on `pathdiff::diff_paths`: computes the relative path from `base`
/// to `path` lexically, from the two paths alone; `None` also covers a
/// result that is not valid UTF-8.
#[verifier::external_body]
fn path_diff(path: &str, base: &str) -> (r: Option<String>)
    ensures
        match r {
            Some(p) => rel_path_of(path@, base@) == Some(p@),
            None => rel_path_of(path@, base@) is None,
        },
{
    let d = pathdiff::diff_paths(std::path::Path::new(path), std::path::Path::new(base))?;
    Some(d.to_str()?.to_string())
}

/// A path dependency whose location could not be rewritten relative to the
/// workspace root; carries the offending path.
#[derive(Debug)]
pub struct RelativePathError {
    pub path: String,
}

/// The shared declaration with a path source rewritten relative to the
/// workspace root; other sources are unchanged. `None` when no relative
/// path exists.
pub open spec fn relativized(d: SharedDepView, root: Seq<char>) -> Option<SharedDepView> {
    match d.source {
        SourceView::Path { path, version } => match rel_path_of(path, root) {
            Some(p) => Some(
                SharedDepView {
                    default_features: d.default_features,
                    source: SourceView::Path { path: p, version: version },
                },
            ),
            None => None,
        },
        _ => Some(d),
    }
}

/// Rewrites a path source relative to the workspace root, per `relativized`.
pub fn rewrite_dep_path_as_relative(dep: &SharedDependency, workspace_root: &String) -> (r: Result<
    SharedDependency,
    RelativePathError,
>)
    ensures
        match r {
            Ok(d) => relativized(dep@, workspace_root@) == Some(d@),
            Err(_) => relativized(dep@, workspace_root@) is None,
        },
{
    match &dep.source {
        DependencySource::Path { path, version } => match path_diff(
            path.as_str(),
            workspace_root.as_str(),
        ) {
            Some(p) => Ok(
                SharedDependency {
                    default_features: dep.default_features,
                    source: DependencySource::Path {
                        path: p,
                        version: crate::source::clone_opt_req(version),
                    },
                },
            ),
            None => Err(RelativePathError { path: path.clone() }),
        },
        _ => Ok(crate::source::clone_shared(dep)),
    }
}


/// The package name an entry declares for, honoring an alias: the `package`
/// field of a detailed table, else the entry's own key.
pub open spec fn package_name_of(dep: RawDepView, name: Seq<char>) -> Seq<char> {
    match dep {
        RawDepView::Detailed(d) => match d.package {
            Some(p) => p,
            None => name,
        },
        _ => name,
    }
}

fn package_name<'a>(dep: &'a RawDependency, name: &'a String) -> (r: &'a String)
    ensures
        r@ == package_name_of(dep@, name@),
{
    match dep {
        RawDependency::Detailed(d) => match &d.package {
            Some(p) => p,
            None => name,
        },
        _ => name,
    }
}

/// The workspace reference that replaces a member's entry: `workspace =
/// true`, with the entry's own `features` and `optional` carried over
/// verbatim. The reference is rendered as a dotted key path only when so
/// configured and no other field is carried.
pub open spec fn replacement_item(dep: RawDepView, prefer_dotted: bool) -> DepItemView {
    match dep {
        RawDepView::Simple(_) => DepItemView::Inline {
            entries: seq![("workspace"@, TomlScalarView::Flag(true))],
            dotted: prefer_dotted,
        },
        RawDepView::Detailed(d) => {
            let es = seq![("workspace"@, TomlScalarView::Flag(true))] + opt_kv(
                "features"@,
                list_scalar(d.features),
            ) + opt_kv("optional"@, flag_scalar(d.optional));
            DepItemView::Inline { entries: es, dotted: prefer_dotted && es.len() == 1 }
        },
        RawDepView::Inherited(_) => DepItemView::Plain(Seq::empty()),
    }
}

fn build_replacement(dep: &RawDependency, prefer_dotted: bool) -> (r: DepItem)
    requires
        !(dep@ is Inherited),
    ensures
        r@ == replacement_item(dep@, prefer_dotted),
{
    let mut entries: Vec<(String, TomlScalar)> = Vec::new();
    proof {
        assert(entries_view(entries@) =~= Seq::<(Seq<char>, TomlScalarView)>::empty());
    }
    push_kv(&mut entries, "workspace", TomlScalar::Flag(true));
    let ghost e1 = seq![("workspace"@, TomlScalarView::Flag(true))];
    proof {
        assert(entries_view(entries@) =~= e1);
    }
    match dep {
        RawDependency::Simple(_) => {
            let r = DepItem::Inline { entries, dotted: prefer_dotted };
            proof {
                assert(r@ == replacement_item(dep@, prefer_dotted));
            }
            r
        },
        RawDependency::Detailed(d) => {
            push_opt_list(&mut entries, "features", &d.features);
            proof {
                assert(e1 + opt_kv("features"@, list_scalar(d@.features)) == entries_view(
                    entries@,
                ));
            }
            push_opt_flag(&mut entries, "optional", &d.optional);
            let dotted = prefer_dotted && entries.len() == 1;
            let r = DepItem::Inline { entries, dotted };
            proof {
                assert(r@ == replacement_item(dep@, prefer_dotted));
            }
            r
        },
        RawDependency::Inherited(_) => {
            proof {
                assert(false);
            }
            DepItem::Plain(String::new())
        },
    }
}

/// What one member entry does to its table: an entry whose package name has
/// a centralization decision and does not already reference the shared
/// declaration is replaced by the workspace reference, with its decoration
/// preserved; anything else is left alone. The flag says whether a
/// replacement happened.
pub open spec fn member_step(
    t: Seq<(Seq<char>, EntryView)>,
    name: Seq<char>,
    dep: RawDepView,
    specs: Seq<(Seq<char>, SharedDepView)>,
    prefer_dotted: bool,
) -> (Seq<(Seq<char>, EntryView)>, bool) {
    if find_name(specs, package_name_of(dep, name)) >= 0 && !(dep is Inherited) {
        (ipd_s(t, name, replacement_item(dep, prefer_dotted)), true)
    } else {
        (t, false)
    }
}

/// What a whole member dependency table does: every entry in order, per
/// `member_step`; the flag says whether anything was replaced.
pub open spec fn inherit_deps_s(
    t: Seq<(Seq<char>, EntryView)>,
    deps: Seq<(Seq<char>, RawDepView)>,
    specs: Seq<(Seq<char>, SharedDepView)>,
    prefer_dotted: bool,
) -> (Seq<(Seq<char>, EntryView)>, bool)
    decreases deps.len(),
{
    if deps.len() == 0 {
        (t, false)
    } else {
        let (t1, m1) = member_step(t, deps[0].0, deps[0].1, specs, prefer_dotted);
        let (t2, m2) = inherit_deps_s(t1, deps.skip(1), specs, prefer_dotted);
        (t2, m1 || m2)
    }
}

fn is_shared_name(specs: &Vec<(String, SharedDependency)>, name: &String) -> (r: bool)
    ensures
        r == (find_name(cents_view(specs@), name@) >= 0),
{
    let ghost sv = cents_view(specs@);
    let n = specs.len();
    for i in 0..n
        invariant
            n == specs.len(),
            sv == cents_view(specs@),
            sv.len() == n,
            forall|k: int| 0 <= k < i ==> sv[k].0 != name@,
    {
        assert(sv[i as int] == (specs@[i as int].0@, specs@[i as int].1@));
        if specs[i].0 == *name {
            proof {
                lemma_find_name_is(sv, name@, i as int);
            }
            return true;
        }
    }
    proof {
        lemma_find_name(sv, name@);
        if find_name(sv, name@) != -1 {
            assert(false);
        }
    }
    false
}

/// Replaces, in one member dependency table, every entry whose package name
/// was decided for centralization by a reference to the shared declaration,
/// preserving each entry's decoration, per `inherit_deps_s`. Returns whether
/// anything changed; the document is rewritten only if so.
pub fn inherit_deps(
    deps: &Vec<(String, RawDependency)>,
    toml_deps: &mut DepTable,
    package_name2spec: &Vec<(String, SharedDependency)>,
    prefer_simple_dotted: bool,
) -> (was_modified: bool)
    ensures
        ({
            let r = inherit_deps_s(
                old(toml_deps)@,
                deps_view(deps@),
                cents_view(package_name2spec@),
                prefer_simple_dotted,
            );
            final(toml_deps)@ == r.0 && was_modified == r.1
        }),
{
    let ghost dv = deps_view(deps@);
    let ghost sv = cents_view(package_name2spec@);
    let ghost t0 = toml_deps@;
    proof {
        assert(dv.skip(0) =~= dv);
    }
    let mut was_modified = false;
    let n = deps.len();
    for i in 0..n
        invariant
            n == deps.len(),
            dv == deps_view(deps@),
            sv == cents_view(package_name2spec@),
            dv.len() == n,
            inherit_deps_s(t0, dv, sv, prefer_simple_dotted).0 == inherit_deps_s(
                toml_deps@,
                dv.skip(i as int),
                sv,
                prefer_simple_dotted,
            ).0,
            inherit_deps_s(t0, dv, sv, prefer_simple_dotted).1 == (was_modified
                || inherit_deps_s(toml_deps@, dv.skip(i as int), sv, prefer_simple_dotted).1),
    {
        assert(dv[i as int] == (deps@[i as int].0@, deps@[i as int].1@));
        let ghost before = toml_deps@;
        let (name, dep) = (&deps[i].0, &deps[i].1);
        let pkg = package_name(dep, name);
        let is_inherited = match dep {
            RawDependency::Inherited(_) => true,
            _ => false,
        };
        if is_shared_name(package_name2spec, pkg) && !is_inherited {
            let item = build_replacement(dep, prefer_simple_dotted);
            insert_preserving_decor(toml_deps, name, item);
            was_modified = true;
        }
        proof {
            assert(dv.skip(i as int).skip(1) =~= dv.skip(i as int + 1));
            assert(member_step(before, dv[i as int].0, dv[i as int].1, sv, prefer_simple_dotted).0
                == toml_deps@);
        }
    }
    proof {
        assert(dv.skip(n as int) =~= Seq::<(Seq<char>, RawDepView)>::empty());
    }
    was_modified
}

/// What adding the canonical shared entries does to the workspace's
/// shared-dependencies table: a name already present is left untouched
/// (manual edits are authoritative); otherwise its declaration — a path
/// source first rewritten relative to the workspace root — is serialized and
/// appended. `None` when some path cannot be relativized. The flag says
/// whether anything was added.
pub open spec fn add_shared_s(
    t: Seq<(Seq<char>, EntryView)>,
    decided: Seq<(Seq<char>, SharedDepView)>,
    root: Seq<char>,
) -> Option<(Seq<(Seq<char>, EntryView)>, bool)>
    decreases decided.len(),
{
    if decided.len() == 0 {
        Some((t, false))
    } else {
        let name = decided[0].0;
        let d = decided[0].1;
        if find_name(t, name) >= 0 {
            add_shared_s(t, decided.skip(1), root)
        } else {
            match relativized(d, root) {
                Some(d2) => match add_shared_s(
                    ipd_s(t, name, dep2item_s(shared2dep_s(d2))),
                    decided.skip(1),
                    root,
                ) {
                    Some(r) => Some((r.0, true)),
                    None => None,
                },
                None => None,
            }
        }
    }
}

/// Adds a canonical entry to the workspace's shared-dependencies table for
/// every centralization decision whose name is not already present, per
/// `add_shared_s`. Returns whether anything was added; the document is
/// rewritten only if so. Fails exactly when some decided path source cannot
/// be rewritten relative to the workspace root.
pub fn add_shared_deps(
    workspace_deps: &mut DepTable,
    decided: &Vec<(String, SharedDependency)>,
    workspace_root: &String,
) -> (r: Result<bool, RelativePathError>)
    ensures
        match r {
            Ok(was_modified) => add_shared_s(
                old(workspace_deps)@,
                cents_view(decided@),
                workspace_root@,
            ) == Some((final(workspace_deps)@, was_modified)),
            Err(_) => add_shared_s(old(workspace_deps)@, cents_view(decided@), workspace_root@)
                is None,
        },
{
    let ghost dv = cents_view(decided@);
    let ghost t0 = workspace_deps@;
    proof {
        assert(dv.skip(0) =~= dv);
    }
    let mut was_modified = false;
    let mut err_found: Option<RelativePathError> = None;
    let n = decided.len();
    let mut i: usize = 0;
    while i < n && err_found.is_none()
        invariant
            n == decided.len(),
            dv == cents_view(decided@),
            dv.len() == n,
            i <= n,
            match err_found {
                None => ({
                    let whole = add_shared_s(t0, dv, workspace_root@);
                    let rest = add_shared_s(workspace_deps@, dv.skip(i as int), workspace_root@);
                    match rest {
                        Some(r) => whole == Some((r.0, was_modified || r.1)),
                        None => whole is None,
                    }
                }),
                Some(_) => add_shared_s(t0, dv, workspace_root@) is None,
            },
        decreases n - i,
    {
        assert(dv[i as int] == (decided@[i as int].0@, decided@[i as int].1@));
        assert(dv.skip(i as int)[0] == dv[i as int]);
        let (name, shared) = (&decided[i].0, &decided[i].1);
        if !workspace_deps.has_key(name) {
            match rewrite_dep_path_as_relative(shared, workspace_root) {
                Ok(rel) => {
                    let dep = shared2dep(&rel);
                    let item = dep2toml_item(&dep);
                    insert_preserving_decor(workspace_deps, name, item);
                    was_modified = true;
                    proof {
                        assert(dv.skip(i as int).skip(1) =~= dv.skip(i as int + 1));
                    }
                },
                Err(e) => {
                    proof {
                        assert(add_shared_s(workspace_deps@, dv.skip(i as int), workspace_root@)
                            is None);
                    }
                    err_found = Some(e);
                },
            }
        } else {
            proof {
                assert(dv.skip(i as int).skip(1) =~= dv.skip(i as int + 1));
            }
        }
        i = i + 1;
    }
    if let Some(e) = err_found {
        return Err(e);
    }
    proof {
        assert(dv.skip(n as int) =~= Seq::<(Seq<char>, SharedDepView)>::empty());
    }
    Ok(was_modified)
}


proof fn lemma_find_name_same_keys<A, B>(a: Seq<(Seq<char>, A)>, b: Seq<(Seq<char>, B)>, name: Seq<char>)
    requires
        a.len() == b.len(),
        forall|k: int| 0 <= k < a.len() ==> a[k].0 == b[k].0,
    ensures
        find_name(a, name) == find_name(b, name),
    decreases a.len(),
{
    if a.len() == 0 {
    } else {
        assert forall|k: int| 0 <= k < a.len() - 1 implies a.skip(1)[k].0 == b.skip(1)[k].0 by {
            assert(a.skip(1)[k] == a[k + 1]);
            assert(b.skip(1)[k] == b[k + 1]);
        }
        lemma_find_name_same_keys(a.skip(1), b.skip(1), name);
    }
}

/// Writing under a key makes that key present and keeps every present key
/// present; no other key appears.
proof fn lemma_ipd_keys(t: Seq<(Seq<char>, EntryView)>, key: Seq<char>, v: DepItemView, name: Seq<char>)
    ensures
        (find_name(ipd_s(t, key, v), name) >= 0) == (find_name(t, name) >= 0 || name == key),
{
    lemma_find_name(t, key);
    lemma_find_name(t, name);
    let t2 = ipd_s(t, key, v);
    let i = find_name(t, key);
    if i >= 0 {
        assert forall|k: int| 0 <= k < t.len() implies t2[k].0 == t[k].0 by {}
        lemma_find_name_same_keys(t2, t, name);
        if name == key {
            assert(find_name(t, name) >= 0);
        }
    } else {
        if find_name(t, name) >= 0 {
            let f = find_name(t, name);
            assert(t2[f] == t[f]);
            assert forall|k: int| 0 <= k < f implies t2[k].0 != name by {
                assert(t2[k] == t[k]);
            }
            lemma_find_name_is(t2, name, f);
        } else if name == key {
            assert forall|k: int| 0 <= k < t.len() implies t2[k].0 != name by {
                assert(t2[k] == t[k]);
            }
            lemma_find_name_is(t2, name, t.len() as int);
        } else {
            lemma_find_name(t2, name);
            if find_name(t2, name) >= 0 {
                let f2 = find_name(t2, name);
                if f2 < t.len() {
                    assert(t2[f2] == t[f2]);
                    lemma_find_name_is(t, name, f2);
                }
                assert(false);
            }
        }
    }
}

/// Law: formatting preservation. Replacing an existing entry keeps the
/// table's length and every other entry unchanged, keeps the replaced key's
/// leading decoration — its comments and blank lines — and the value's
/// trailing decoration, and keeps the value's leading decoration whenever
/// the replaced value was not a full table.
pub proof fn lemma_formatting_preserved(
    t: Seq<(Seq<char>, EntryView)>,
    key: Seq<char>,
    v: DepItemView,
)
    requires
        find_name(t, key) >= 0,
    ensures
        ({
            let i = find_name(t, key);
            let t2 = ipd_s(t, key, v);
            t2.len() == t.len() && t2[i].1.key_decor == t[i].1.key_decor && t2[i].1.value_decor.suffix
                == t[i].1.value_decor.suffix && (!is_table_item(t[i].1.item)
                ==> t2[i].1.value_decor.prefix == t[i].1.value_decor.prefix) && (is_table_item(
                t[i].1.item,
            ) ==> t2[i].1.value_decor.prefix == Some(" "@)) && t2[i].1.item == TableItemView::Written(
                v,
            ) && forall|k: int| 0 <= k < t.len() && k != i ==> t2[k] == t[k]
        }),
{
    lemma_find_name(t, key);
}

/// After the workspace phase, every decided name is present, and every name
/// that was present stays present.
proof fn lemma_add_shared_names_present(
    t: Seq<(Seq<char>, EntryView)>,
    decided: Seq<(Seq<char>, SharedDepView)>,
    root: Seq<char>,
)
    requires
        add_shared_s(t, decided, root) is Some,
    ensures
        ({
            let t1 = add_shared_s(t, decided, root)->Some_0.0;
            (forall|j: int| 0 <= j < decided.len() ==> find_name(t1, #[trigger] decided[j].0) >= 0)
                && (forall|name: Seq<char>|
                find_name(t, name) >= 0 ==> #[trigger] find_name(t1, name) >= 0)
        }),
    decreases decided.len(),
{
    if decided.len() == 0 {
    } else {
        let name0 = decided[0].0;
        let t1 = add_shared_s(t, decided, root)->Some_0.0;
        if find_name(t, name0) >= 0 {
            lemma_add_shared_names_present(t, decided.skip(1), root);
            assert forall|j: int| 0 <= j < decided.len() implies find_name(
                t1,
                #[trigger] decided[j].0,
            ) >= 0 by {
                if j > 0 {
                    assert(decided.skip(1)[j - 1] == decided[j]);
                }
            }
        } else {
            let d2 = relativized(decided[0].1, root)->Some_0;
            let tn = ipd_s(t, name0, dep2item_s(shared2dep_s(d2)));
            lemma_add_shared_names_present(tn, decided.skip(1), root);
            assert forall|name: Seq<char>|
                find_name(t, name) >= 0 implies #[trigger] find_name(t1, name) >= 0 by {
                lemma_ipd_keys(t, name0, dep2item_s(shared2dep_s(d2)), name);
            }
            assert forall|j: int| 0 <= j < decided.len() implies find_name(
                t1,
                #[trigger] decided[j].0,
            ) >= 0 by {
                if j > 0 {
                    assert(decided.skip(1)[j - 1] == decided[j]);
                } else {
                    lemma_ipd_keys(t, name0, dep2item_s(shared2dep_s(d2)), name0);
                }
            }
        }
    }
}

proof fn lemma_add_shared_all_present(
    t1: Seq<(Seq<char>, EntryView)>,
    decided: Seq<(Seq<char>, SharedDepView)>,
    root: Seq<char>,
)
    requires
        forall|j: int| 0 <= j < decided.len() ==> find_name(t1, #[trigger] decided[j].0) >= 0,
    ensures
        add_shared_s(t1, decided, root) == Some((t1, false)),
    decreases decided.len(),
{
    if decided.len() == 0 {
    } else {
        assert(find_name(t1, decided[0].0) >= 0);
        assert forall|j: int| 0 <= j < decided.len() - 1 implies find_name(
            t1,
            #[trigger] decided.skip(1)[j].0,
        ) >= 0 by {
            assert(decided.skip(1)[j] == decided[j + 1]);
        }
        lemma_add_shared_all_present(t1, decided.skip(1), root);
    }
}

/// Law: the workspace phase is idempotent. Once the canonical shared entries
/// have been added, running the phase again on the same decisions adds
/// nothing and reports no modification, so the manifest is not rewritten.
pub proof fn lemma_workspace_phase_idempotent(
    t: Seq<(Seq<char>, EntryView)>,
    decided: Seq<(Seq<char>, SharedDepView)>,
    root: Seq<char>,
)
    requires
        add_shared_s(t, decided, root) is Some,
    ensures
        ({
            let t1 = add_shared_s(t, decided, root)->Some_0.0;
            add_shared_s(t1, decided, root) == Some((t1, false))
        }),
{
    lemma_add_shared_names_present(t, decided, root);
    lemma_add_shared_all_present(add_shared_s(t, decided, root)->Some_0.0, decided, root);
}

/// Law: the member phase is idempotent. A pass replaces every affected entry
/// by a reference to the shared declaration, and the document model reads
/// such a reference back as an inherited entry; on a table whose affected
/// entries are all inherited — as they are after one pass — a second pass
/// changes nothing and reports no modification, so the manifest is not
/// rewritten.
pub proof fn lemma_member_phase_idempotent(
    t: Seq<(Seq<char>, EntryView)>,
    deps: Seq<(Seq<char>, RawDepView)>,
    specs: Seq<(Seq<char>, SharedDepView)>,
    prefer_dotted: bool,
)
    requires
        forall|k: int|
            0 <= k < deps.len() ==> (find_name(specs, package_name_of(#[trigger] deps[k].1, deps[k].0))
                >= 0 ==> deps[k].1 is Inherited),
    ensures
        inherit_deps_s(t, deps, specs, prefer_dotted) == (t, false),
    decreases deps.len(),
{
    if deps.len() == 0 {
    } else {
        assert(member_step(t, deps[0].0, deps[0].1, specs, prefer_dotted) == (t, false));
        assert forall|k: int|
            0 <= k < deps.len() - 1 implies (find_name(
            specs,
            package_name_of(#[trigger] deps.skip(1)[k].1, deps.skip(1)[k].0),
        ) >= 0 ==> deps.skip(1)[k].1 is Inherited) by {
            assert(deps.skip(1)[k] == deps[k + 1]);
        }
        lemma_member_phase_idempotent(t, deps.skip(1), specs, prefer_dotted);
    }
}

/// A table value that the document model reads back as referencing the
/// shared declaration: an entry this pass wrote always is one (its first
/// key is `workspace = true`), and an untouched entry is whatever it was.
pub open spec fn ws_ref_item(it: TableItemView) -> bool {
    match it {
        TableItemView::Written(DepItemView::Inline { entries, dotted }) => entries.len() >= 1
            && entries[0] == ("workspace"@, TomlScalarView::Flag(true)),
        TableItemView::Written(DepItemView::Plain(_)) => false,
        TableItemView::Untouched { .. } => true,
    }
}

/// Law: every entry the member phase writes is a workspace reference — an
/// inline table whose first key is `workspace = true` — which the document
/// model reads back as an inherited entry on the next pass.
pub proof fn lemma_member_phase_writes_refs(
    t: Seq<(Seq<char>, EntryView)>,
    deps: Seq<(Seq<char>, RawDepView)>,
    specs: Seq<(Seq<char>, SharedDepView)>,
    prefer_dotted: bool,
)
    requires
        forall|k: int| 0 <= k < t.len() ==> ws_ref_item(#[trigger] t[k].1.item),
    ensures
        ({
            let t1 = inherit_deps_s(t, deps, specs, prefer_dotted).0;
            forall|k: int| 0 <= k < t1.len() ==> ws_ref_item(#[trigger] t1[k].1.item)
        }),
    decreases deps.len(),
{
    if deps.len() == 0 {
    } else {
        let (t1, m1) = member_step(t, deps[0].0, deps[0].1, specs, prefer_dotted);
        if m1 {
            let item = replacement_item(deps[0].1, prefer_dotted);
            assert(ws_ref_item(TableItemView::Written(item))) by {
                match deps[0].1 {
                    RawDepView::Detailed(d) => {
                        let es = seq![("workspace"@, TomlScalarView::Flag(true))] + opt_kv(
                            "features"@,
                            list_scalar(d.features),
                        ) + opt_kv("optional"@, flag_scalar(d.optional));
                        assert(es[0] == ("workspace"@, TomlScalarView::Flag(true)));
                    },
                    _ => {},
                }
            }
            assert forall|k: int| 0 <= k < t1.len() implies ws_ref_item(#[trigger] t1[k].1.item) by {
                lemma_find_name(t, deps[0].0);
                if k < t.len() && t1[k] != t[k] {
                } else if k < t.len() {
                    assert(ws_ref_item(t[k].1.item));
                }
            }
        }
        lemma_member_phase_writes_refs(t1, deps.skip(1), specs, prefer_dotted);
    }
}

} // verus!
