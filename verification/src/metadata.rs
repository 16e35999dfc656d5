//! The tool's own configuration read from workspace metadata.
//!
//! A workspace may name members to exclude under the tool's metadata table,
//! as `exclude-members` (or `exclude_members`): an array of member names.
//! Any other shape of that value is an error.

use vstd::prelude::*;
use crate::aggregate::find_name;
use crate::aggregate::lemma_find_name;
use crate::aggregate::lemma_find_name_is;

verus! {

/// One element of a metadata array: a string, or anything else.
#[derive(Clone, Debug)]
pub enum MetaItem {
    Text(String),
    Other,
}

/// Mathematical value of a metadata array element.
pub ghost enum MetaItemView {
    Text(Seq<char>),
    Other,
}

impl View for MetaItem {
    type V = MetaItemView;

    open spec fn view(&self) -> MetaItemView {
        match self {
            MetaItem::Text(s) => MetaItemView::Text(s@),
            MetaItem::Other => MetaItemView::Other,
        }
    }
}

/// One value of the tool's metadata table: a string, an array, or anything
/// else.
#[derive(Clone, Debug)]
pub enum MetaValue {
    Text(String),
    List(Vec<MetaItem>),
    Other,
}

/// Mathematical value of a metadata value.
pub ghost enum MetaValueView {
    Text(Seq<char>),
    List(Seq<MetaItemView>),
    Other,
}

impl View for MetaValue {
    type V = MetaValueView;

    open spec fn view(&self) -> MetaValueView {
        match self {
            MetaValue::Text(s) => MetaValueView::Text(s@),
            MetaValue::List(v) => MetaValueView::List(v@.map_values(|x: MetaItem| x@)),
            MetaValue::Other => MetaValueView::Other,
        }
    }
}

/// View of the tool's metadata table.
pub open spec fn meta_table_view(t: Seq<(String, MetaValue)>) -> Seq<(Seq<char>, MetaValueView)> {
    t.map_values(|p: (String, MetaValue)| (p.0@, p.1@))
}

/// The value naming the excluded members, under either accepted spelling,
/// the hyphenated one first.
pub open spec fn exclude_value(t: Seq<(Seq<char>, MetaValueView)>) -> Option<MetaValueView> {
    if find_name(t, "exclude-members"@) >= 0 {
        Some(t[find_name(t, "exclude-members"@)].1)
    } else if find_name(t, "exclude_members"@) >= 0 {
        Some(t[find_name(t, "exclude_members"@)].1)
    } else {
        None
    }
}

/// The strings of an array, or `None` when some element is not a string.
pub open spec fn strings_of(items: Seq<MetaItemView>) -> Option<Seq<Seq<char>>>
    decreases items.len(),
{
    if items.len() == 0 {
        Some(Seq::empty())
    } else {
        match items[0] {
            MetaItemView::Text(s) => match strings_of(items.skip(1)) {
                Some(rest) => Some(seq![s] + rest),
                None => None,
            },
            MetaItemView::Other => None,
        }
    }
}

/// The excluded member names that a workspace's metadata declares: none when
/// the table or the key is absent, the array's strings when it is an array
/// of strings, and an error (`None`) for any other shape.
pub open spec fn exclude_members_s(t: Option<Seq<(Seq<char>, MetaValueView)>>) -> Option<
    Seq<Seq<char>>,
> {
    match t {
        None => Some(Seq::empty()),
        Some(table) => match exclude_value(table) {
            None => Some(Seq::empty()),
            Some(MetaValueView::List(items)) => strings_of(items),
            Some(_) => None,
        },
    }
}

/// The tool's configuration from workspace metadata.
#[derive(Debug)]
pub struct AutoInheritMetadata {
    pub exclude_members: Vec<String>,
}

/// The value of `exclude` in the tool's metadata table was not an array of
/// strings.
#[derive(Debug)]
pub struct MetadataError {}

fn find_value<'a>(t: &'a Vec<(String, MetaValue)>, key: &String) -> (r: Option<&'a MetaValue>)
    ensures
        match r {
            Some(v) => find_name(meta_table_view(t@), key@) >= 0 && meta_table_view(t@)[find_name(
                meta_table_view(t@),
                key@,
            )].1 == v@,
            None => find_name(meta_table_view(t@), key@) == -1,
        },
{
    let ghost tv = meta_table_view(t@);
    let n = t.len();
    for i in 0..n
        invariant
            n == t.len(),
            tv == meta_table_view(t@),
            tv.len() == n,
            forall|k: int| 0 <= k < i ==> tv[k].0 != key@,
    {
        assert(tv[i as int] == (t@[i as int].0@, t@[i as int].1@));
        if t[i].0 == *key {
            proof {
                lemma_find_name_is(tv, key@, i as int);
            }
            return Some(&t[i].1);
        }
    }
    proof {
        lemma_find_name(tv, key@);
        if find_name(tv, key@) != -1 {
            assert(false);
        }
    }
    None
}

impl AutoInheritMetadata {
    /// Reads the excluded member names from the tool's metadata table, per
    /// `exclude_members_s`. Fails exactly when the value is present but is
    /// not an array of strings.
    pub fn from_workspace(table: &Option<Vec<(String, MetaValue)>>) -> (r: Result<
        AutoInheritMetadata,
        MetadataError,
    >)
        ensures
            match r {
                Ok(m) => exclude_members_s(
                    match table {
                        Some(t) => Some(meta_table_view(t@)),
                        None => None,
                    },
                ) == Some(m.exclude_members@.map_values(|s: String| s@)),
                Err(_) => exclude_members_s(
                    match table {
                        Some(t) => Some(meta_table_view(t@)),
                        None => None,
                    },
                ) is None,
            },
    {
        let t = match table {
            Some(t) => t,
            None => {
                let r = AutoInheritMetadata { exclude_members: Vec::new() };
                proof {
                    assert(r.exclude_members@.map_values(|s: String| s@) =~= Seq::<
                        Seq<char>,
                    >::empty());
                }
                return Ok(r);
            },
        };
        let hyphenated = String::from_str("exclude-members");
        let underscored = String::from_str("exclude_members");
        let value = match find_value(t, &hyphenated) {
            Some(v) => Some(v),
            None => find_value(t, &underscored),
        };
        let value = match value {
            Some(v) => v,
            None => {
                let r = AutoInheritMetadata { exclude_members: Vec::new() };
                proof {
                    assert(r.exclude_members@.map_values(|s: String| s@) =~= Seq::<
                        Seq<char>,
                    >::empty());
                }
                return Ok(r);
            },
        };
        let items = match value {
            MetaValue::List(items) => items,
            _ => {
                return Err(MetadataError {});
            },
        };
        let ghost iv = items@.map_values(|x: MetaItem| x@);
        proof {
            assert(exclude_value(meta_table_view(t@)) == Some(MetaValueView::List(iv)));
        }
        let mut exclude: Vec<String> = Vec::new();
        proof {
            assert(iv.skip(0) =~= iv);
            assert(exclude@.map_values(|s: String| s@) =~= Seq::<Seq<char>>::empty());
            match strings_of(iv) {
                Some(rest) => {
                    assert(Seq::<Seq<char>>::empty() + rest =~= rest);
                },
                None => {},
            }
        }
        let n = items.len();
        let mut i: usize = 0;
        let mut bad = false;
        while i < n && !bad
            invariant
                n == items.len(),
                iv == items@.map_values(|x: MetaItem| x@),
                iv.len() == n,
                exclude_value(meta_table_view(t@)) == Some(MetaValueView::List(iv)),
                i <= n,
                if bad {
                    strings_of(iv) is None
                } else {
                    strings_of(iv) == match strings_of(iv.skip(i as int)) {
                        Some(rest) => Some(exclude@.map_values(|s: String| s@) + rest),
                        None => None::<Seq<Seq<char>>>,
                    }
                },
            decreases n - i,
        {
            assert(iv[i as int] == items@[i as int]@);
            assert(iv.skip(i as int)[0] == iv[i as int]);
            let ghost before = exclude@.map_values(|s: String| s@);
            match &items[i] {
                MetaItem::Text(s) => {
                    exclude.push(s.clone());
                    proof {
                        assert(iv.skip(i as int).skip(1) =~= iv.skip(i as int + 1));
                        assert(exclude@.map_values(|s: String| s@) =~= before + seq![
                            iv[i as int]->Text_0,
                        ]);
                        match strings_of(iv.skip(i as int + 1)) {
                            Some(rest) => {
                                assert(before + (seq![iv[i as int]->Text_0] + rest) =~= exclude@
                                    .map_values(|s: String| s@) + rest);
                            },
                            None => {},
                        }
                    }
                },
                MetaItem::Other => {
                    proof {
                        assert(strings_of(iv.skip(i as int)) is None);
                    }
                    bad = true;
                },
            }
            i = i + 1;
        }
        if bad {
            return Err(MetadataError {});
        }
        proof {
            assert(iv.skip(n as int) =~= Seq::<MetaItemView>::empty());
            assert(exclude@.map_values(|s: String| s@) + Seq::<Seq<char>>::empty() =~= exclude@
                .map_values(|s: String| s@));
        }
        Ok(AutoInheritMetadata { exclude_members: exclude })
    }
}

/// Whether a member name is excluded, by either the configuration or the
/// workspace metadata.
pub fn is_excluded(excludes: &Vec<String>, name: &String) -> (r: bool)
    ensures
        r == excludes@.map_values(|s: String| s@).contains(name@),
{
    let ghost ev = excludes@.map_values(|s: String| s@);
    let n = excludes.len();
    for i in 0..n
        invariant
            n == excludes.len(),
            ev == excludes@.map_values(|s: String| s@),
            ev.len() == n,
            forall|k: int| 0 <= k < i ==> ev[k] != name@,
    {
        assert(ev[i as int] == excludes@[i as int]@);
        if excludes[i] == *name {
            proof {
                assert(ev.contains(name@));
            }
            return true;
        }
    }
    proof {
        if ev.contains(name@) {
            let k = choose|k: int| 0 <= k < ev.len() && ev[k] == name@;
            assert(false);
        }
    }
    false
}

} // verus!
