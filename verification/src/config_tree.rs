//! Configuration documents as plain trees, and the merges the framework
//! makes of them: a sub-App's configuration is its referenced file with the
//! parent's inline `[<name>.*]` keys deep-merged on top, and a run stage's
//! configuration is the global one, without `[run]`, with the stage's
//! override keys deep-merged on top.
//!
//! A float is held by its IEEE-754 bit pattern and a date-time by its text;
//! neither is looked into.

use crate::text::{owned, str_equal};
use vstd::prelude::*;

verus! {

/// One TOML value, as plain data. A table lists its entries in order.
#[derive(Debug)]
pub enum ConfigTree {
    Table(Vec<(String, ConfigTree)>),
    Str(String),
    Int(i64),
    FloatBits(u64),
    Bool(bool),
    Datetime(String),
    Array(Vec<ConfigTree>),
}

/// Mathematical model of a [`ConfigTree`].
pub enum TreeView {
    Table(Seq<(Seq<char>, TreeView)>),
    Str(Seq<char>),
    Int(i64),
    FloatBits(u64),
    Bool(bool),
    Datetime(Seq<char>),
    Array(Seq<TreeView>),
}

/// The model of a tree.
pub open spec fn tree_view(t: ConfigTree) -> TreeView
    decreases t, 0nat,
{
    match t {
        ConfigTree::Table(v) => TreeView::Table(entries_view(v@)),
        ConfigTree::Str(s) => TreeView::Str(s@),
        ConfigTree::Int(i) => TreeView::Int(i),
        ConfigTree::FloatBits(b) => TreeView::FloatBits(b),
        ConfigTree::Bool(b) => TreeView::Bool(b),
        ConfigTree::Datetime(s) => TreeView::Datetime(s@),
        ConfigTree::Array(v) => TreeView::Array(items_view(v@)),
    }
}

/// The model of a table's entries, in order.
pub open spec fn entries_view(s: Seq<(String, ConfigTree)>) -> Seq<(Seq<char>, TreeView)>
    decreases s, s.len(),
{
    if s.len() == 0 {
        Seq::empty()
    } else {
        entries_view(s.drop_last()).push((s.last().0@, tree_view(s.last().1)))
    }
}

/// The model of an array's items, in order.
pub open spec fn items_view(s: Seq<ConfigTree>) -> Seq<TreeView>
    decreases s, s.len(),
{
    if s.len() == 0 {
        Seq::empty()
    } else {
        items_view(s.drop_last()).push(tree_view(s.last()))
    }
}

impl View for ConfigTree {
    type V = TreeView;

    open spec fn view(&self) -> TreeView {
        tree_view(*self)
    }
}


// ─── Lookups ────────────────────────────────────────────────────────────────

/// The first position at or after `i` of an entry named `key`, or -1.
pub open spec fn key_index_from(entries: Seq<(Seq<char>, TreeView)>, key: Seq<char>, i: int) -> int
    decreases entries.len() - i,
{
    if i < 0 || i >= entries.len() {
        -1
    } else if entries[i].0 == key {
        i
    } else {
        key_index_from(entries, key, i + 1)
    }
}

/// The value of the first entry named `key`, if any.
pub open spec fn entry_value(entries: Seq<(Seq<char>, TreeView)>, key: Seq<char>) -> Option<TreeView> {
    let i = key_index_from(entries, key, 0);
    if 0 <= i < entries.len() {
        Some(entries[i].1)
    } else {
        None
    }
}

/// The value under `key` of a table; nothing for another value.
pub open spec fn table_get(t: TreeView, key: Seq<char>) -> Option<TreeView> {
    match t {
        TreeView::Table(e) => entry_value(e, key),
        _ => None,
    }
}

/// The `config_path` string of sub-App `name`: `subapps.<name>.config_path`.
pub open spec fn spec_subapp_path(config: TreeView, name: Seq<char>) -> Option<Seq<char>> {
    match table_get(config, "subapps"@) {
        Some(subapps) => match table_get(subapps, name) {
            Some(entry) => match table_get(entry, "config_path"@) {
                Some(TreeView::Str(p)) => Some(p),
                _ => None,
            },
            None => None,
        },
        None => None,
    }
}

// ─── Deep merge ─────────────────────────────────────────────────────────────

/// `over` merged onto `base`: where both are tables, their entries are
/// merged; otherwise `over` replaces `base`.
pub open spec fn merged(base: TreeView, over: TreeView) -> TreeView
    decreases over, 0nat,
{
    match (base, over) {
        (TreeView::Table(b), TreeView::Table(o)) => TreeView::Table(merge_entries(b, o)),
        _ => over,
    }
}

/// The entries `over` merged, one after the other, onto the entries `base`:
/// an entry whose key `base` holds replaces that entry by the merge of the
/// two values, in place; any other entry is appended.
pub open spec fn merge_entries(base: Seq<(Seq<char>, TreeView)>, over: Seq<(Seq<char>, TreeView)>) -> Seq<
    (Seq<char>, TreeView),
>
    decreases over, over.len(),
{
    if over.len() == 0 {
        base
    } else {
        let acc = merge_entries(base, over.drop_last());
        let k = over.last().0;
        let i = key_index_from(acc, k, 0);
        if 0 <= i < acc.len() {
            acc.update(i, (k, merged(acc[i].1, over.last().1)))
        } else {
            acc.push((k, over.last().1))
        }
    }
}

/// The inline table of sub-App `name`: the parent's `[<name>]` table, if it
/// is one.
pub open spec fn inline_table(config: TreeView, name: Seq<char>) -> Option<TreeView> {
    match table_get(config, name) {
        Some(TreeView::Table(e)) => Some(TreeView::Table(e)),
        _ => None,
    }
}

/// The configuration of sub-App `name`: the loaded file's table (empty when
/// there is none) with the inline table merged on top.
pub open spec fn subapp_merge(config: TreeView, loaded: Option<TreeView>, name: Seq<char>) -> TreeView {
    let base = match loaded {
        Some(t) => t,
        None => TreeView::Table(Seq::empty()),
    };
    match inline_table(config, name) {
        Some(inline) => merged(base, inline),
        None => base,
    }
}

/// `entries` without those named `key`.
pub open spec fn entries_without(entries: Seq<(Seq<char>, TreeView)>, key: Seq<char>) -> Seq<
    (Seq<char>, TreeView),
>
    decreases entries.len(),
{
    if entries.len() == 0 {
        Seq::empty()
    } else if entries.last().0 == key {
        entries_without(entries.drop_last(), key)
    } else {
        entries_without(entries.drop_last(), key).push(entries.last())
    }
}

/// A table without its entries named `key`; another value as it is.
pub open spec fn without_key(t: TreeView, key: Seq<char>) -> TreeView {
    match t {
        TreeView::Table(e) => TreeView::Table(entries_without(e, key)),
        _ => t,
    }
}

// ─── Lemmas on the models ───────────────────────────────────────────────────

/// The model of a list of entries has one entry per entry, in order.
pub proof fn lemma_entries_view(s: Seq<(String, ConfigTree)>)
    ensures
        entries_view(s).len() == s.len(),
        forall|i: int| 0 <= i < s.len() ==> #[trigger] entries_view(s)[i] == (s[i].0@, s[i].1@),
    decreases s.len(),
{
    if s.len() > 0 {
        lemma_entries_view(s.drop_last());
    }
}

/// The model of a list of items has one item per item, in order.
pub proof fn lemma_items_view(s: Seq<ConfigTree>)
    ensures
        items_view(s).len() == s.len(),
        forall|i: int| 0 <= i < s.len() ==> #[trigger] items_view(s)[i] == s[i]@,
    decreases s.len(),
{
    if s.len() > 0 {
        lemma_items_view(s.drop_last());
    }
}

/// Entry lists with the same models, entry by entry, have the same model.
proof fn lemma_entries_view_ext(s: Seq<(String, ConfigTree)>, m: Seq<(Seq<char>, TreeView)>)
    requires
        s.len() == m.len(),
        forall|i: int| 0 <= i < s.len() ==> (s[i].0@, s[i].1@) == #[trigger] m[i],
    ensures
        entries_view(s) == m,
{
    lemma_entries_view(s);
    assert(entries_view(s) =~= m);
}

/// Item lists with the same models, item by item, have the same model.
proof fn lemma_items_view_ext(s: Seq<ConfigTree>, m: Seq<TreeView>)
    requires
        s.len() == m.len(),
        forall|i: int| 0 <= i < s.len() ==> s[i]@ == #[trigger] m[i],
    ensures
        items_view(s) == m,
{
    lemma_items_view(s);
    assert(items_view(s) =~= m);
}

// ─── Executable functions ───────────────────────────────────────────────────

/// A copy of a tree.
#[verifier::loop_isolation(false)]
pub fn copy_tree(t: &ConfigTree) -> (r: ConfigTree)
    ensures
        r@ == t@,
    decreases t,
{
    match t {
        ConfigTree::Table(v) => {
            let mut out: Vec<(String, ConfigTree)> = Vec::new();
            let mut i: usize = 0;
            proof {
                lemma_entries_view(v@);
            }
            while i < v.len()
                invariant
                    0 <= i <= v.len(),
                    out@.len() == i,
                    forall|j: int| 0 <= j < i ==> (#[trigger] out@[j]).0@ == v@[j].0@ && out@[j].1@ == v@[j].1@,
                decreases v.len() - i,
            {
                proof {
                    let ghost vv = (*t)->Table_0;
                    assert(decreases_to!(*t => (*t)->Table_0));
                    assert(decreases_to!(vv => vv@));
                    assert(decreases_to!(vv@ => vv@[i as int]));
                    assert(decreases_to!(vv@[i as int] => vv@[i as int].1));
                    assert(decreases_to!(*t => v@[i as int].1));
                }
                let c = copy_tree(&v[i].1);
                out.push((owned(v[i].0.as_str()), c));
                i += 1;
            }
            proof {
                lemma_entries_view(v@);
                lemma_entries_view_ext(out@, entries_view(v@));
            }
            ConfigTree::Table(out)
        },
        ConfigTree::Str(s) => ConfigTree::Str(owned(s.as_str())),
        ConfigTree::Int(x) => ConfigTree::Int(*x),
        ConfigTree::FloatBits(b) => ConfigTree::FloatBits(*b),
        ConfigTree::Bool(b) => ConfigTree::Bool(*b),
        ConfigTree::Datetime(s) => ConfigTree::Datetime(owned(s.as_str())),
        ConfigTree::Array(v) => {
            let mut out: Vec<ConfigTree> = Vec::new();
            let mut i: usize = 0;
            while i < v.len()
                invariant
                    0 <= i <= v.len(),
                    out@.len() == i,
                    forall|j: int| 0 <= j < i ==> (#[trigger] out@[j])@ == v@[j]@,
                decreases v.len() - i,
            {
                proof {
                    let ghost vv = (*t)->Array_0;
                    assert(decreases_to!(*t => (*t)->Array_0));
                    assert(decreases_to!(vv => vv@));
                    assert(decreases_to!(vv@ => vv@[i as int]));
                    assert(decreases_to!(*t => v@[i as int]));
                }
                let c = copy_tree(&v[i]);
                out.push(c);
                i += 1;
            }
            proof {
                lemma_items_view(v@);
                lemma_items_view_ext(out@, items_view(v@));
            }
            ConfigTree::Array(out)
        },
    }
}

/// The position of the first entry named `key`.
fn find_key(entries: &Vec<(String, ConfigTree)>, key: &str) -> (r: Option<usize>)
    ensures
        match r {
            Some(i) => key_index_from(entries_view(entries@), key@, 0) == i as int && i < entries@.len(),
            None => key_index_from(entries_view(entries@), key@, 0) == -1,
        },
{
    proof {
        lemma_entries_view(entries@);
    }
    let ghost ev = entries_view(entries@);
    let mut i: usize = 0;
    while i < entries.len()
        invariant
            0 <= i <= entries@.len(),
            ev == entries_view(entries@),
            ev.len() == entries@.len(),
            forall|j: int| 0 <= j < entries@.len() ==> #[trigger] ev[j] == (entries@[j].0@, entries@[j].1@),
            key_index_from(ev, key@, 0) == key_index_from(ev, key@, i as int),
        decreases entries.len() - i,
    {
        if str_equal(entries[i].0.as_str(), key) {
            assert(ev[i as int].0 == key@);
            return Some(i);
        }
        assert(ev[i as int].0 != key@);
        i += 1;
    }
    None
}

/// The value under `key` of a table, if any.
pub fn table_get_ref<'a>(t: &'a ConfigTree, key: &str) -> (r: Option<&'a ConfigTree>)
    ensures
        match r {
            Some(v) => table_get(t@, key@) == Some(v@),
            None => table_get(t@, key@) is None,
        },
{
    match t {
        ConfigTree::Table(entries) => {
            proof {
                lemma_entries_view(entries@);
            }
            match find_key(entries, key) {
                Some(i) => Some(&entries[i].1),
                None => None,
            }
        },
        _ => None,
    }
}

/// The `config_path` that the parent's `[subapps.<name>]` table gives the
/// sub-App `name`, if it gives a string.
pub fn subapp_config_path(config: &ConfigTree, name: &str) -> (r: Option<String>)
    ensures
        match r {
            Some(p) => spec_subapp_path(config@, name@) == Some(p@),
            None => spec_subapp_path(config@, name@) is None,
        },
{
    let subapps = match table_get_ref(config, "subapps") {
        Some(s) => s,
        None => return None,
    };
    let entry = match table_get_ref(subapps, name) {
        Some(e) => e,
        None => return None,
    };
    match table_get_ref(entry, "config_path") {
        Some(ConfigTree::Str(p)) => Some(owned(p.as_str())),
        _ => None,
    }
}

/// `over` merged onto `base`, as a new tree.
#[verifier::loop_isolation(false)]
pub fn merged_tree(base: &ConfigTree, over: &ConfigTree) -> (r: ConfigTree)
    ensures
        r@ == merged(base@, over@),
    decreases over,
{
    match (base, over) {
        (ConfigTree::Table(b), ConfigTree::Table(o)) => {
            let copy = copy_tree(base);
            let mut acc: Vec<(String, ConfigTree)> = match copy {
                ConfigTree::Table(entries) => entries,
                _ => Vec::new(),
            };
            proof {
                lemma_entries_view(o@);
                assert(entries_view(o@).take(0) =~= Seq::<(Seq<char>, TreeView)>::empty());
            }
            let ghost bv = entries_view(b@);
            let ghost ov = entries_view(o@);
            let mut j: usize = 0;
            while j < o.len()
                invariant
                    0 <= j <= o@.len(),
                    ov == entries_view(o@),
                    ov.len() == o@.len(),
                    forall|k: int| 0 <= k < o@.len() ==> #[trigger] ov[k] == (o@[k].0@, o@[k].1@),
                    entries_view(acc@) == merge_entries(bv, ov.take(j as int)),
                decreases o.len() - j,
            {
                let ghost before = entries_view(acc@);
                proof {
                    lemma_entries_view(acc@);
                    assert(ov.take(j + 1).drop_last() =~= ov.take(j as int));
                    assert(ov.take(j + 1).last() == ov[j as int]);
                }
                match find_key(&acc, o[j].0.as_str()) {
                    Some(i) => {
                        proof {
                            let ghost oo = (*over)->Table_0;
                            assert(decreases_to!(*over => (*over)->Table_0));
                            assert(decreases_to!(oo => oo@));
                            assert(decreases_to!(oo@ => oo@[j as int]));
                            assert(decreases_to!(oo@[j as int] => oo@[j as int].1));
                            assert(decreases_to!(*over => o@[j as int].1));
                        }
                        let m = merged_tree(&acc[i].1, &o[j].1);
                        let ghost old_acc = acc@;
                        acc.set(i, (owned(o[j].0.as_str()), m));
                        proof {
                            lemma_entries_view(old_acc);
                            lemma_entries_view(acc@);
                            assert(entries_view(acc@) =~= before.update(
                                i as int,
                                (ov[j as int].0, merged(before[i as int].1, ov[j as int].1)),
                            ));
                        }
                    },
                    None => {
                        let c = copy_tree(&o[j].1);
                        let ghost old_acc = acc@;
                        acc.push((owned(o[j].0.as_str()), c));
                        proof {
                            lemma_entries_view(old_acc);
                            lemma_entries_view(acc@);
                            assert(entries_view(acc@) =~= before.push(ov[j as int]));
                        }
                    },
                }
                j += 1;
            }
            proof {
                assert(ov.take(o@.len() as int) =~= ov);
            }
            ConfigTree::Table(acc)
        },
        _ => copy_tree(over),
    }
}

/// Merge `overrides` onto `base` in place: where both hold a table at a key,
/// recurse; otherwise the override replaces the base value.
pub fn deep_merge(base: &mut ConfigTree, overrides: &ConfigTree)
    ensures
        final(base)@ == merged(old(base)@, overrides@),
{
    let m = merged_tree(base, overrides);
    *base = m;
}

/// The configuration of sub-App `name`: the table `loaded` from its
/// `config_path` file (an empty table when there is none), with the parent's
/// inline `[<name>]` table, if it is one, deep-merged on top.
pub fn subapp_table(config: &ConfigTree, loaded: Option<ConfigTree>, name: &str) -> (r: ConfigTree)
    ensures
        r@ == subapp_merge(
            config@,
            match loaded {
                Some(t) => Some(t@),
                None => None,
            },
            name@,
        ),
{
    let base = match loaded {
        Some(t) => t,
        None => {
            let empty = ConfigTree::Table(Vec::new());
            assert(empty@ == TreeView::Table(Seq::empty())) by {
                let e: Seq<(String, ConfigTree)> = Seq::empty();
                assert(entries_view(e) =~= Seq::empty());
            }
            empty
        },
    };
    match table_get_ref(config, name) {
        Some(inline) => match inline {
            ConfigTree::Table(_) => merged_tree(&base, inline),
            _ => base,
        },
        None => base,
    }
}

/// The configuration of a run stage: `config` without its `[run]` entry,
/// with the stage's `overrides` deep-merged on top.
pub fn stage_table(config: &ConfigTree, overrides: &ConfigTree) -> (r: ConfigTree)
    ensures
        r@ == merged(without_key(config@, "run"@), overrides@),
{
    let base = match config {
        ConfigTree::Table(entries) => {
            let mut kept: Vec<(String, ConfigTree)> = Vec::new();
            let ghost ev = entries_view(entries@);
            proof {
                lemma_entries_view(entries@);
                assert(ev.take(0) =~= Seq::<(Seq<char>, TreeView)>::empty());
            }
            let mut i: usize = 0;
            while i < entries.len()
                invariant
                    0 <= i <= entries@.len(),
                    ev == entries_view(entries@),
                    ev.len() == entries@.len(),
                    forall|k: int| 0 <= k < entries@.len() ==> #[trigger] ev[k] == (entries@[k].0@, entries@[k].1@),
                    entries_view(kept@) == entries_without(ev.take(i as int), "run"@),
                decreases entries.len() - i,
            {
                proof {
                    assert(ev.take(i + 1).drop_last() =~= ev.take(i as int));
                    assert(ev.take(i + 1).last() == ev[i as int]);
                    reveal_strlit("run");
                }
                if !str_equal(entries[i].0.as_str(), "run") {
                    let c = copy_tree(&entries[i].1);
                    let ghost old_kept = kept@;
                    kept.push((owned(entries[i].0.as_str()), c));
                    proof {
                        lemma_entries_view(old_kept);
                        lemma_entries_view(kept@);
                        assert(entries_view(kept@) =~= entries_view(old_kept).push(ev[i as int]));
                    }
                }
                i += 1;
            }
            proof {
                assert(ev.take(entries@.len() as int) =~= ev);
            }
            ConfigTree::Table(kept)
        },
        _ => copy_tree(config),
    };
    merged_tree(&base, overrides)
}

} // verus!
