//! Configuration: the settings, their defaults, provider validation, and the
//! merge of global and project configuration files.
use vstd::prelude::*;

use crate::text::{chars_eq, eq_str, from_chars, str_to_string, string_views, strs_to_strings, to_chars};

verus! {

broadcast use vstd::string::group_string_axioms;

pub const DUMBCODER_DIR: &'static str = ".dumbcoder";

pub const CONFIG_FILE: &'static str = "config.toml";

// ── Configuration documents ──

/// A TOML value. Floats are held by their IEEE 754 bits and date-times by
/// their text, so that the library can carry them through a merge.
pub enum TomlValue {
    String(String),
    Integer(i64),
    Float(u64),
    Boolean(bool),
    Datetime(String),
    Array(Vec<TomlValue>),
    Table(Vec<(String, TomlValue)>),
}

/// A TOML value as plain values.
pub enum TomlView {
    String(Seq<char>),
    Integer(i64),
    Float(u64),
    Boolean(bool),
    Datetime(Seq<char>),
    Array(Seq<TomlView>),
    Table(Seq<(Seq<char>, TomlView)>),
}

pub open spec fn tview(t: TomlValue) -> TomlView
    decreases t,
{
    match t {
        TomlValue::String(s) => TomlView::String(s@),
        TomlValue::Integer(i) => TomlView::Integer(i),
        TomlValue::Float(f) => TomlView::Float(f),
        TomlValue::Boolean(b) => TomlView::Boolean(b),
        TomlValue::Datetime(s) => TomlView::Datetime(s@),
        TomlValue::Array(a) => TomlView::Array(
            Seq::new(
                a@.len(),
                |i: int|
                    if 0 <= i < a@.len() {
                        tview(a@[i])
                    } else {
                        TomlView::Boolean(false)
                    },
            ),
        ),
        TomlValue::Table(es) => TomlView::Table(
            Seq::new(
                es@.len(),
                |i: int|
                    (
                        es@[i].0@,
                        if 0 <= i < es@.len() {
                            tview(es@[i].1)
                        } else {
                            TomlView::Boolean(false)
                        },
                    ),
            ),
        ),
    }
}

/// A size of a value, used to measure recursion over nested tables.
pub open spec fn tsize(t: TomlView) -> nat
    decreases t,
{
    match t {
        TomlView::Array(a) => 1 + asize(a),
        TomlView::Table(es) => 1 + esize(es),
        _ => 1,
    }
}

pub open spec fn asize(a: Seq<TomlView>) -> nat
    decreases a,
{
    if a.len() == 0 {
        0
    } else {
        2 + tsize(a[0]) + asize(a.drop_first())
    }
}

pub open spec fn esize(es: Seq<(Seq<char>, TomlView)>) -> nat
    decreases es,
{
    if es.len() == 0 {
        0
    } else {
        2 + tsize(es[0].1) + esize(es.drop_first())
    }
}

pub open spec fn entries_view(es: Seq<(String, TomlValue)>) -> Seq<(Seq<char>, TomlView)> {
    Seq::new(es.len(), |i: int| (es[i].0@, tview(es[i].1)))
}

pub open spec fn array_view(a: Seq<TomlValue>) -> Seq<TomlView> {
    Seq::new(a.len(), |i: int| tview(a[i]))
}

pub proof fn lemma_tview_table(es: Vec<(String, TomlValue)>)
    ensures
        tview(TomlValue::Table(es)) == TomlView::Table(entries_view(es@)),
{
    match tview(TomlValue::Table(es)) {
        TomlView::Table(s1) => {
            assert forall|i: int| 0 <= i < es@.len() implies s1[i] == entries_view(es@)[i] by {}
            assert(s1 =~= entries_view(es@));
        },
        _ => {},
    }
}

pub proof fn lemma_tview_array(a: Vec<TomlValue>)
    ensures
        tview(TomlValue::Array(a)) == TomlView::Array(array_view(a@)),
{
    match tview(TomlValue::Array(a)) {
        TomlView::Array(s1) => {
            assert forall|i: int| 0 <= i < a@.len() implies s1[i] == array_view(a@)[i] by {}
            assert(s1 =~= array_view(a@));
        },
        _ => {},
    }
}

proof fn lemma_esize_elem(es: Seq<(Seq<char>, TomlView)>, j: int)
    requires
        0 <= j < es.len(),
    ensures
        tsize(es[j].1) + 2 <= esize(es),
    decreases j,
{
    if j > 0 {
        lemma_esize_elem(es.drop_first(), j - 1);
    }
}

proof fn lemma_asize_elem(a: Seq<TomlView>, j: int)
    requires
        0 <= j < a.len(),
    ensures
        tsize(a[j]) + 2 <= asize(a),
    decreases j,
{
    if j > 0 {
        lemma_asize_elem(a.drop_first(), j - 1);
    }
}

/// The position of the first entry with key `k`.
pub open spec fn key_index(es: Seq<(Seq<char>, TomlView)>, k: Seq<char>) -> Option<int>
    decreases es.len(),
{
    if es.len() == 0 {
        None
    } else if es[0].0 == k {
        Some(0)
    } else {
        match key_index(es.drop_first(), k) {
            Some(i) => Some(i + 1),
            None => None,
        }
    }
}

pub proof fn lemma_key_index(es: Seq<(Seq<char>, TomlView)>, k: Seq<char>)
    ensures
        key_index(es, k) matches Some(i) ==> 0 <= i < es.len() && es[i].0 == k,
        key_index(es, k) is None ==> forall|i: int| 0 <= i < es.len() ==> es[i].0 != k,
    decreases es.len(),
{
    if es.len() > 0 {
        lemma_key_index(es.drop_first(), k);
        if es[0].0 != k {
            assert forall|i: int| 0 <= i < es.len() && key_index(es, k) is None implies es[i].0 != k by {
                if i > 0 {
                    assert(es.drop_first()[i - 1] == es[i]);
                }
            }
        }
    }
}

/// `other` merged into `base`: two tables merge key by key; otherwise
/// `other` replaces `base`.
pub open spec fn merged(base: TomlView, other: TomlView) -> TomlView
    decreases tsize(other),
{
    match (base, other) {
        (TomlView::Table(b), TomlView::Table(o)) => TomlView::Table(merged_entries(b, o)),
        _ => other,
    }
}

/// The entries `o` merged one after the other into the entries `b`: a key
/// already present has its value merged, a new key is appended.
pub open spec fn merged_entries(b: Seq<(Seq<char>, TomlView)>, o: Seq<(Seq<char>, TomlView)>) -> Seq<(Seq<char>, TomlView)>
    decreases esize(o),
{
    if o.len() == 0 {
        b
    } else {
        let k = o[0].0;
        let v = o[0].1;
        let b1 = match key_index(b, k) {
            Some(i) => if 0 <= i < b.len() {
                b.update(i, (k, merged(b[i].1, v)))
            } else {
                b
            },
            None => b.push((k, v)),
        };
        merged_entries(b1, o.drop_first())
    }
}

/// A deep copy of a value.
pub fn clone_value(t: &TomlValue) -> (r: TomlValue)
    ensures
        tview(r) == tview(*t),
    decreases tsize(tview(*t)),
{
    match t {
        TomlValue::String(s) => TomlValue::String(s.clone()),
        TomlValue::Integer(i) => TomlValue::Integer(*i),
        TomlValue::Float(f) => TomlValue::Float(*f),
        TomlValue::Boolean(b) => TomlValue::Boolean(*b),
        TomlValue::Datetime(s) => TomlValue::Datetime(s.clone()),
        TomlValue::Array(a) => {
            proof {
                lemma_tview_array(*a);
            }
            let mut out: Vec<TomlValue> = Vec::new();
            let mut i: usize = 0;
            while i < a.len()
                invariant
                    i <= a@.len(),
                    tview(*t) == TomlView::Array(array_view(a@)),
                    array_view(out@) == array_view(a@).take(i as int),
                decreases a.len() - i,
            {
                proof {
                    lemma_asize_elem(array_view(a@), i as int);
                }
                let c = clone_value(&a[i]);
                let ghost o0 = array_view(out@);
                out.push(c);
                assert(array_view(out@) =~= o0.push(tview(a@[i as int])));
                i = i + 1;
                assert(array_view(out@) =~= array_view(a@).take(i as int));
            }
            proof {
                lemma_tview_array(out);
                assert(array_view(a@).take(a@.len() as int) =~= array_view(a@));
            }
            TomlValue::Array(out)
        },
        TomlValue::Table(es) => {
            proof {
                lemma_tview_table(*es);
            }
            let mut out: Vec<(String, TomlValue)> = Vec::new();
            let mut i: usize = 0;
            while i < es.len()
                invariant
                    i <= es@.len(),
                    tview(*t) == TomlView::Table(entries_view(es@)),
                    entries_view(out@) == entries_view(es@).take(i as int),
                decreases es.len() - i,
            {
                proof {
                    lemma_esize_elem(entries_view(es@), i as int);
                }
                let c = clone_value(&es[i].1);
                let ghost o0 = entries_view(out@);
                out.push((es[i].0.clone(), c));
                assert(entries_view(out@) =~= o0.push((es@[i as int].0@, tview(es@[i as int].1))));
                i = i + 1;
                assert(entries_view(out@) =~= entries_view(es@).take(i as int));
            }
            proof {
                lemma_tview_table(out);
                assert(entries_view(es@).take(es@.len() as int) =~= entries_view(es@));
            }
            TomlValue::Table(out)
        },
    }
}

fn find_key(b: &Vec<(String, TomlValue)>, k: &String) -> (r: Option<usize>)
    ensures
        match r {
            Some(i) => key_index(entries_view(b@), k@) == Some(i as int) && i < b@.len(),
            None => key_index(entries_view(b@), k@) is None,
        },
{
    let kc = to_chars(k.as_str());
    let mut i: usize = 0;
    let ghost ev = entries_view(b@);
    assert(ev.skip(0) =~= ev);
    while i < b.len()
        invariant
            i <= b@.len(),
            ev == entries_view(b@),
            kc@ == k@,
            key_index(ev, k@) == match key_index(ev.skip(i as int), k@) {
                Some(j) => Some(j + i),
                None => None,
            },
        decreases b.len() - i,
    {
        assert(ev.skip(i as int).drop_first() =~= ev.skip(i as int + 1));
        assert(ev.skip(i as int)[0] == ev[i as int]);
        if chars_eq(&to_chars(b[i].0.as_str()), &kc) {
            return Some(i);
        }
        i = i + 1;
    }
    assert(ev.skip(i as int) =~= Seq::<(Seq<char>, TomlView)>::empty());
    None
}

fn merge_entries(b: Vec<(String, TomlValue)>, o: &Vec<(String, TomlValue)>) -> (r: Vec<(String, TomlValue)>)
    ensures
        entries_view(r@) == merged_entries(entries_view(b@), entries_view(o@)),
    decreases esize(entries_view(o@)),
{
    let mut b = b;
    let ghost ov = entries_view(o@);
    let ghost target = merged_entries(entries_view(b@), ov);
    let mut j: usize = 0;
    assert(ov.skip(0) =~= ov);
    while j < o.len()
        invariant
            j <= o@.len(),
            ov == entries_view(o@),
            merged_entries(entries_view(b@), ov.skip(j as int)) == target,
        decreases o.len() - j,
    {
        let ghost rest = ov.skip(j as int);
        assert(rest[0] == ov[j as int]);
        assert(rest.drop_first() =~= ov.skip(j as int + 1));
        proof {
            lemma_esize_elem(ov, j as int);
        }
        let ghost bv = entries_view(b@);
        match find_key(&b, &o[j].0) {
            Some(i) => {
                proof {
                    lemma_key_index(bv, ov[j as int].0);
                }
                let ghost b_before = b@;
                let (k, v) = b.remove(i);
                let ghost b_removed = b@;
                let ghost vv = tview(v);
                assert(bv[i as int] == (k@, vv));
                let m = merge_value(v, &o[j].1);
                let ghost mv = tview(m);
                b.insert(i, (k, m));
                assert(b@ =~= b_before.update(i as int, b@[i as int]));
                assert(entries_view(b@)[i as int] == (ov[j as int].0, mv));
                assert(entries_view(b@) =~= bv.update(i as int, (ov[j as int].0, merged(bv[i as int].1, ov[j as int].1))));
            },
            None => {
                let c = clone_value(&o[j].1);
                b.push((o[j].0.clone(), c));
                assert(entries_view(b@) =~= bv.push((ov[j as int].0, ov[j as int].1)));
            },
        }
        j = j + 1;
    }
    assert(ov.skip(j as int) =~= Seq::<(Seq<char>, TomlView)>::empty());
    b
}

fn merge_value(base: TomlValue, other: &TomlValue) -> (r: TomlValue)
    ensures
        tview(r) == merged(tview(base), tview(*other)),
    decreases tsize(tview(*other)),
{
    match other {
        TomlValue::Table(o) => {
            proof {
                lemma_tview_table(*o);
            }
            match base {
                TomlValue::Table(b) => {
                    proof {
                        lemma_tview_table(b);
                    }
                    let m = merge_entries(b, o);
                    proof {
                        lemma_tview_table(m);
                    }
                    TomlValue::Table(m)
                },
                _ => clone_value(other),
            }
        },
        _ => clone_value(other),
    }
}

/// Recursively merge `other` into `base`. For tables, merge keys.
/// For non-table values, `other` overrides `base`.
pub fn merge_toml(base: &mut TomlValue, other: &TomlValue)
    ensures
        tview(*final(base)) == merged(tview(*old(base)), tview(*other)),
{
    let mut b = TomlValue::Boolean(false);
    std::mem::swap(&mut b, base);
    *base = merge_value(b, other);
}

/// The value under key `k` in a table's entries (its first entry with that key).
pub open spec fn lookup(es: Seq<(Seq<char>, TomlView)>, k: Seq<char>) -> Option<TomlView> {
    match key_index(es, k) {
        Some(i) => Some(es[i].1),
        None => None,
    }
}

/// Whether no key occurs twice among the entries.
pub open spec fn unique_keys(es: Seq<(Seq<char>, TomlView)>) -> bool {
    forall|i: int, j: int| 0 <= i < j < es.len() ==> es[i].0 != es[j].0
}

proof fn lemma_key_index_same_keys(a: Seq<(Seq<char>, TomlView)>, b: Seq<(Seq<char>, TomlView)>, k: Seq<char>)
    requires
        a.len() == b.len(),
        forall|i: int| 0 <= i < a.len() ==> a[i].0 == b[i].0,
    ensures
        key_index(a, k) == key_index(b, k),
    decreases a.len(),
{
    if a.len() > 0 {
        lemma_key_index_same_keys(a.drop_first(), b.drop_first(), k);
    }
}

proof fn lemma_key_index_push(a: Seq<(Seq<char>, TomlView)>, e: (Seq<char>, TomlView), k: Seq<char>)
    ensures
        key_index(a.push(e), k) == match key_index(a, k) {
            Some(i) => Some(i),
            None => if e.0 == k {
                Some(a.len() as int)
            } else {
                None
            },
        },
    decreases a.len(),
{
    if a.len() > 0 {
        assert(a.push(e).drop_first() =~= a.drop_first().push(e));
        assert(a.push(e)[0] == a[0]);
        lemma_key_index_push(a.drop_first(), e, k);
    } else {
        assert(a.push(e).drop_first() =~= Seq::<(Seq<char>, TomlView)>::empty());
        assert(a.push(e)[0] == e);
        assert(key_index(Seq::<(Seq<char>, TomlView)>::empty(), k) is None);
    }
}

/// Merging one entry `(k2, v2)` leaves every other key's value alone and
/// gives `k2` the merged (or new) value.
proof fn lemma_merge_step(b: Seq<(Seq<char>, TomlView)>, k2: Seq<char>, v2: TomlView, k: Seq<char>)
    ensures
        ({
            let b1 = match key_index(b, k2) {
                Some(i) => if 0 <= i < b.len() {
                    b.update(i, (k2, merged(b[i].1, v2)))
                } else {
                    b
                },
                None => b.push((k2, v2)),
            };
            &&& k != k2 ==> lookup(b1, k) == lookup(b, k)
            &&& k == k2 ==> lookup(b1, k) == Some(
                match lookup(b, k) {
                    Some(x) => merged(x, v2),
                    None => v2,
                },
            )
        }),
{
    lemma_key_index(b, k2);
    lemma_key_index(b, k);
    match key_index(b, k2) {
        Some(i) => {
            let b1 = b.update(i, (k2, merged(b[i].1, v2)));
            lemma_key_index_same_keys(b1, b, k);
            if k != k2 {
                if let Some(m) = key_index(b, k) {
                    assert(m != i);
                }
            }
        },
        None => {
            lemma_key_index_push(b, (k2, v2), k);
        },
    }
}

proof fn lemma_merge_preserves(b: Seq<(Seq<char>, TomlView)>, o: Seq<(Seq<char>, TomlView)>, k: Seq<char>)
    requires
        forall|j: int| 0 <= j < o.len() ==> o[j].0 != k,
    ensures
        lookup(merged_entries(b, o), k) == lookup(b, k),
    decreases o.len(),
{
    if o.len() > 0 {
        lemma_merge_step(b, o[0].0, o[0].1, k);
        let b1 = match key_index(b, o[0].0) {
            Some(i) => if 0 <= i < b.len() {
                b.update(i, (o[0].0, merged(b[i].1, o[0].1)))
            } else {
                b
            },
            None => b.push((o[0].0, o[0].1)),
        };
        assert forall|j: int| 0 <= j < o.drop_first().len() implies o.drop_first()[j].0 != k by {
            assert(o.drop_first()[j] == o[j + 1]);
        }
        lemma_merge_preserves(b1, o.drop_first(), k);
    }
}

proof fn lemma_merge_sets(b: Seq<(Seq<char>, TomlView)>, o: Seq<(Seq<char>, TomlView)>, j: int)
    requires
        unique_keys(o),
        0 <= j < o.len(),
    ensures
        lookup(merged_entries(b, o), o[j].0) == Some(
            match lookup(b, o[j].0) {
                Some(x) => merged(x, o[j].1),
                None => o[j].1,
            },
        ),
    decreases o.len(),
{
    let k = o[j].0;
    lemma_merge_step(b, o[0].0, o[0].1, k);
    let b1 = match key_index(b, o[0].0) {
        Some(i) => if 0 <= i < b.len() {
            b.update(i, (o[0].0, merged(b[i].1, o[0].1)))
        } else {
            b
        },
        None => b.push((o[0].0, o[0].1)),
    };
    let rest = o.drop_first();
    if j == 0 {
        assert forall|m: int| 0 <= m < rest.len() implies rest[m].0 != k by {
            assert(rest[m] == o[m + 1]);
        }
        lemma_merge_preserves(b1, rest, k);
    } else {
        assert(o[0].0 != k);
        assert(rest[j - 1] == o[j]);
        assert(unique_keys(rest)) by {
            assert forall|a: int, c: int| 0 <= a < c < rest.len() implies rest[a].0 != rest[c].0 by {
                assert(rest[a] == o[a + 1] && rest[c] == o[c + 1]);
            }
        }
        lemma_merge_sets(b1, rest, j - 1);
    }
}

/// A value that is not a table replaces whatever it is merged into.
pub proof fn law_merge_non_table_overrides(base: TomlView, other: TomlView)
    requires
        !(other is Table),
    ensures
        merged(base, other) == other,
{
}

/// Project overrides global: a key that the project table sets to a plain
/// (non-table) value has exactly that value after the merge.
pub proof fn law_merge_project_value_wins(b: Seq<(Seq<char>, TomlView)>, o: Seq<(Seq<char>, TomlView)>, j: int)
    requires
        unique_keys(o),
        0 <= j < o.len(),
        !(o[j].1 is Table),
    ensures
        lookup(merged_entries(b, o), o[j].0) == Some(o[j].1),
{
    lemma_merge_sets(b, o, j);
}

/// A key that the project table does not mention keeps its global value.
pub proof fn law_merge_keeps_unmentioned(b: Seq<(Seq<char>, TomlView)>, o: Seq<(Seq<char>, TomlView)>, k: Seq<char>)
    requires
        forall|j: int| 0 <= j < o.len() ==> o[j].0 != k,
    ensures
        lookup(merged_entries(b, o), k) == lookup(b, k),
{
    lemma_merge_preserves(b, o, k);
}

/// Nested tables merge key by key too: a table set by the project under a
/// key the global table also holds as a table is merged into it.
pub proof fn law_merge_nested_tables(b: Seq<(Seq<char>, TomlView)>, o: Seq<(Seq<char>, TomlView)>, j: int)
    requires
        unique_keys(o),
        0 <= j < o.len(),
        lookup(b, o[j].0) matches Some(TomlView::Table(x)),
        o[j].1 is Table,
    ensures
        lookup(merged_entries(b, o), o[j].0) == Some(merged(lookup(b, o[j].0)->0, o[j].1)),
{
    lemma_merge_sets(b, o, j);
}

/// The configuration documents merged: the project's over the global one;
/// `None` when there is neither (the defaults apply).
pub fn merge_layers(global: Option<TomlValue>, project: Option<TomlValue>) -> (r: Option<TomlValue>)
    ensures
        match (global, project) {
            (Some(g), Some(p)) => r matches Some(m) && tview(m) == merged(tview(g), tview(p)),
            (Some(g), None) => r matches Some(m) && tview(m) == tview(g),
            (None, Some(p)) => r matches Some(m) && tview(m) == tview(p),
            (None, None) => r is None,
        },
{
    match (global, project) {
        (Some(g), Some(p)) => {
            let mut g = g;
            merge_toml(&mut g, &p);
            Some(g)
        },
        (Some(g), None) => Some(g),
        (None, Some(p)) => Some(p),
        (None, None) => None,
    }
}

/// The documents merged, as plain values: the project's over the global
/// one; `None` when there is neither.
pub open spec fn merged_layers(global: Option<TomlView>, project: Option<TomlView>) -> Option<TomlView> {
    match (global, project) {
        (Some(g), Some(p)) => Some(merged(g, p)),
        (Some(g), None) => Some(g),
        (None, Some(p)) => Some(p),
        (None, None) => None,
    }
}

pub open spec fn opt_tview(v: Option<TomlValue>) -> Option<TomlView> {
    match v {
        Some(t) => Some(tview(t)),
        None => None,
    }
}

#[verifier::external_type_specification]
#[verifier::external_body]
pub struct ExTomlValue(toml::Value);

/// What `toml::from_str::<toml::Value>` reads from a text: `None` where the
/// text is no TOML document.
pub uninterp spec fn toml_document(text: Seq<char>) -> Option<TomlView>;

/// `toml::from_str::<toml::Value>`: the TOML document a text holds,
/// converted variant by variant into a `TomlValue`; `None` where `toml`
/// refuses the text. What it reads is named `toml_document`.
#[verifier::external_body]
pub fn parse_toml(text: &str) -> (r: Option<TomlValue>)
    ensures
        r is Some <==> toml_document(text@) is Some,
        r matches Some(v) ==> toml_document(text@) == Some(tview(v)),
{
    toml::from_str::<toml::Value>(text).ok().map(from_toml)
}

/// Converts a `toml::Value` into a `TomlValue`, one variant for one variant
/// (a float by its bits, a date-time by its text, a table by its entries in
/// the map's order). Only `parse_toml` calls it; nothing is stated of it alone.
#[verifier::external_body]
fn from_toml(v: toml::Value) -> TomlValue {
    match v {
        toml::Value::String(s) => TomlValue::String(s),
        toml::Value::Integer(i) => TomlValue::Integer(i),
        toml::Value::Float(f) => TomlValue::Float(f.to_bits()),
        toml::Value::Boolean(b) => TomlValue::Boolean(b),
        toml::Value::Datetime(d) => TomlValue::Datetime(d.to_string()),
        toml::Value::Array(a) => TomlValue::Array(a.into_iter().map(from_toml).collect()),
        toml::Value::Table(m) => TomlValue::Table(m.into_iter().map(|(k, x)| (k, from_toml(x))).collect()),
    }
}

/// The global layer: the document of the global file's text, where it was
/// read and holds one; otherwise nothing (a global file that cannot be read
/// or parsed is passed over).
pub open spec fn global_layer(text: Option<Seq<char>>) -> Option<TomlView> {
    match text {
        Some(t) => toml_document(t),
        None => None,
    }
}

/// The configuration document from the texts of the global and project
/// files (`None` for a file that is absent or, for the global one,
/// unreadable): the project's over the global one. A global text that is no
/// TOML is passed over; a project text that is no TOML is an error.
pub fn config_layers(global_text: Option<&str>, project_text: Option<&str>) -> (r: Result<Option<TomlValue>, ConfigError>)
    ensures
        match project_text {
            Some(p) => match toml_document(p@) {
                None => r == Err::<Option<TomlValue>, ConfigError>(ConfigError::InvalidProjectConfig),
                Some(pv) => r matches Ok(m) && opt_tview(m) == merged_layers(
                    global_layer(match global_text { Some(g) => Some(g@), None => None }),
                    Some(pv),
                ),
            },
            None => r matches Ok(m) && opt_tview(m) == global_layer(
                match global_text { Some(g) => Some(g@), None => None },
            ),
        },
{
    let global = match global_text {
        Some(g) => parse_toml(g),
        None => None,
    };
    let project = match project_text {
        Some(p) => match parse_toml(p) {
            Some(v) => Some(v),
            None => return Err(ConfigError::InvalidProjectConfig),
        },
        None => None,
    };
    Ok(merge_layers(global, project))
}

// ── Where configs are ──

/// `Path::join` of a relative part onto a path: a `/` between them unless
/// the path is empty or already ends with one.
pub open spec fn path_join(base: Seq<char>, part: Seq<char>) -> Seq<char> {
    if base.len() == 0 {
        part
    } else if base.last() == '/' {
        base + part
    } else {
        base + "/"@ + part
    }
}

pub fn join_path(base: &str, part: &str) -> (r: String)
    ensures
        r@ == path_join(base@, part@),
{
    let mut v = to_chars(base);
    if v.len() == 0 {
        return str_to_string(part);
    }
    if v[v.len() - 1] != '/' {
        v.push('/');
    }
    crate::text::append_chars(&mut v, &to_chars(part));
    proof {
        reveal_strlit("/");
    }
    from_chars(&v)
}

/// The global config directory under a home directory: `~/.config/dumbcoder`.
pub fn global_config_dir(home: Option<&str>) -> (r: Option<String>)
    ensures
        match home {
            Some(h) => r matches Some(d) && d@ == path_join(path_join(h@, ".config"@), "dumbcoder"@),
            None => r is None,
        },
{
    match home {
        Some(h) => {
            let c = join_path(h, ".config");
            Some(join_path(c.as_str(), "dumbcoder"))
        },
        None => None,
    }
}

/// The global config file: `config.toml` in the global config directory.
pub fn global_config_path(home: Option<&str>) -> (r: Option<String>)
    ensures
        match home {
            Some(h) => r matches Some(p) && p@ == path_join(
                path_join(path_join(h@, ".config"@), "dumbcoder"@),
                CONFIG_FILE@,
            ),
            None => r is None,
        },
{
    match global_config_dir(home) {
        Some(d) => Some(join_path(d.as_str(), CONFIG_FILE)),
        None => None,
    }
}

/// Which directory, from the current one up to the filesystem root, is the
/// project root: the first that holds `.dumbcoder` or `.git` (each marker
/// pair says whether it holds them); `None` where none does.
pub fn project_root_index(markers: &Vec<(bool, bool)>) -> (r: Option<usize>)
    ensures
        match r {
            Some(i) => i < markers@.len() && (markers@[i as int].0 || markers@[i as int].1) && forall|j: int|
                0 <= j < i ==> !(markers@[j].0 || markers@[j].1),
            None => forall|j: int| 0 <= j < markers@.len() ==> !(markers@[j].0 || markers@[j].1),
        },
{
    let mut i: usize = 0;
    while i < markers.len()
        invariant
            i <= markers@.len(),
            forall|j: int| 0 <= j < i ==> !(markers@[j].0 || markers@[j].1),
        decreases markers.len() - i,
    {
        if markers[i].0 || markers[i].1 {
            return Some(i);
        }
        i = i + 1;
    }
    None
}

// ── Settings ──

pub struct Config {
    pub model: ModelConfig,
    pub index: IndexConfig,
    pub security: SecurityConfig,
    pub commands: CommandsConfig,
    /// Prompt overrides by command name; no name occurs twice.
    pub prompts: Vec<(String, String)>,
}

pub struct ModelConfig {
    pub provider: String,
    pub base_url: String,
    pub model: String,
    pub api_key: Option<String>,
    pub timeout_seconds: Option<u64>,
    pub context_limit: usize,
    pub providers: Vec<ProviderEntry>,
}

pub struct ProviderEntry {
    pub base_url: Option<String>,
    pub api_key: Option<String>,
    pub model: Option<String>,
}

pub struct IndexConfig {
    pub enabled: bool,
    pub db_path: String,
    pub ignore: Vec<String>,
}

pub struct SecurityConfig {
    pub allow_write: bool,
    pub allow_network: bool,
    pub max_command_seconds: u64,
    pub max_output_bytes: usize,
}

pub struct CommandsConfig {
    pub allow: Vec<String>,
}

pub fn default_provider() -> (r: String)
    ensures
        r@ == "ollama"@,
{
    str_to_string("ollama")
}

pub fn default_base_url() -> (r: String)
    ensures
        r@ == "http://127.0.0.1:11434"@,
{
    str_to_string("http://127.0.0.1:11434")
}

pub fn default_model() -> (r: String)
    ensures
        r@ == "qwen2.5-coder:7b"@,
{
    str_to_string("qwen2.5-coder:7b")
}

pub fn default_context_limit() -> (r: usize)
    ensures
        r == 8000,
{
    8000
}

pub fn default_true() -> (r: bool)
    ensures
        r,
{
    true
}

pub fn default_false() -> (r: bool)
    ensures
        !r,
{
    false
}

pub fn default_db_path() -> (r: String)
    ensures
        r@ == ".dumbcoder/index"@,
{
    str_to_string(".dumbcoder/index")
}

pub fn default_max_command_seconds() -> (r: u64)
    ensures
        r == 60,
{
    60
}

pub fn default_max_output_bytes() -> (r: usize)
    ensures
        r == 20000,
{
    20000
}

/// Directories the index skips by default.
pub open spec fn default_ignore_spec() -> Seq<Seq<char>> {
    seq![".git"@, "target"@, "node_modules"@, "dist"@, "build"@]
}

/// Commands allowed by default.
pub open spec fn default_allowed_commands_spec() -> Seq<Seq<char>> {
    seq!["rg"@, "git status"@, "git diff"@, "git log"@, "git show"@]
}

pub fn default_ignore() -> (r: Vec<String>)
    ensures
        string_views(r@) == default_ignore_spec(),
{
    let v = vec![".git", "target", "node_modules", "dist", "build"];
    let r = strs_to_strings(&v);
    assert(string_views(r@) =~= default_ignore_spec());
    r
}

pub fn default_allowed_commands() -> (r: Vec<String>)
    ensures
        string_views(r@) == default_allowed_commands_spec(),
{
    let v = vec!["rg", "git status", "git diff", "git log", "git show"];
    let r = strs_to_strings(&v);
    assert(string_views(r@) =~= default_allowed_commands_spec());
    r
}

impl Default for ModelConfig {
    fn default() -> (c: Self)
        ensures
            c.provider@ == "ollama"@,
            c.base_url@ == "http://127.0.0.1:11434"@,
            c.model@ == "qwen2.5-coder:7b"@,
            c.api_key is None,
            c.timeout_seconds is None,
            c.context_limit == 8000,
            c.providers@.len() == 0,
    {
        Self {
            provider: default_provider(),
            base_url: default_base_url(),
            model: default_model(),
            api_key: None,
            timeout_seconds: None,
            context_limit: default_context_limit(),
            providers: Vec::new(),
        }
    }
}

impl Default for IndexConfig {
    fn default() -> (c: Self)
        ensures
            c.enabled,
            c.db_path@ == ".dumbcoder/index"@,
            string_views(c.ignore@) == default_ignore_spec(),
    {
        Self { enabled: default_true(), db_path: default_db_path(), ignore: default_ignore() }
    }
}

impl Default for SecurityConfig {
    fn default() -> (c: Self)
        ensures
            !c.allow_write,
            !c.allow_network,
            c.max_command_seconds == 60,
            c.max_output_bytes == 20000,
    {
        Self {
            allow_write: default_false(),
            allow_network: default_false(),
            max_command_seconds: default_max_command_seconds(),
            max_output_bytes: default_max_output_bytes(),
        }
    }
}

impl Default for CommandsConfig {
    fn default() -> (c: Self)
        ensures
            string_views(c.allow@) == default_allowed_commands_spec(),
    {
        Self { allow: default_allowed_commands() }
    }
}

impl Default for Config {
    fn default() -> (c: Self)
        ensures
            c.model.provider@ == "ollama"@,
            c.model.base_url@ == "http://127.0.0.1:11434"@,
            c.model.model@ == "qwen2.5-coder:7b"@,
            c.model.api_key is None,
            c.model.timeout_seconds is None,
            c.model.context_limit == 8000,
            c.model.providers@.len() == 0,
            c.index.enabled,
            c.index.db_path@ == ".dumbcoder/index"@,
            string_views(c.index.ignore@) == default_ignore_spec(),
            !c.security.allow_write,
            !c.security.allow_network,
            c.security.max_command_seconds == 60,
            c.security.max_output_bytes == 20000,
            string_views(c.commands.allow@) == default_allowed_commands_spec(),
            c.prompts@.len() == 0,
    {
        Self {
            model: ModelConfig::default(),
            index: IndexConfig::default(),
            security: SecurityConfig::default(),
            commands: CommandsConfig::default(),
            prompts: Vec::new(),
        }
    }
}

/// Why a configuration is refused: a model setting, or a project file that is no TOML.
#[derive(Debug)]
pub enum ConfigError {
    /// The `openai` provider needs an API key.
    MissingApiKey,
    /// The provider is none of the supported ones.
    UnknownProvider(String),
    /// The project's config file is no TOML document.
    InvalidProjectConfig,
}

/// Whether a model configuration is accepted: a known provider, with an
/// API key for `openai`.
pub open spec fn provider_ok(provider: Seq<char>, has_key: bool) -> bool {
    provider == "ollama"@ || provider == "openai_compatible"@ || (provider == "openai"@ && has_key)
}

impl ConfigError {
    /// The error message.
    pub fn message(&self) -> (m: String)
        ensures
            match self {
                ConfigError::MissingApiKey => m@ == "provider 'openai' requires api_key in [model] config"@,
                ConfigError::UnknownProvider(p) => m@ == "unknown provider '"@ + p@
                    + "'. Supported: ollama, openai, openai_compatible"@,
                ConfigError::InvalidProjectConfig => m@ == "Failed to parse project config file"@,
            },
    {
        match self {
            ConfigError::MissingApiKey => str_to_string("provider 'openai' requires api_key in [model] config"),
            ConfigError::UnknownProvider(p) => {
                let mut v = to_chars("unknown provider '");
                crate::text::append_chars(&mut v, &to_chars(p.as_str()));
                crate::text::append_chars(&mut v, &to_chars("'. Supported: ollama, openai, openai_compatible"));
                crate::text::from_chars(&v)
            },
            ConfigError::InvalidProjectConfig => str_to_string("Failed to parse project config file"),
        }
    }
}

proof fn lemma_provider_names_distinct()
    ensures
        "ollama"@ != "openai"@,
        "ollama"@ != "openai_compatible"@,
        "openai"@ != "openai_compatible"@,
{
    reveal_strlit("ollama");
    reveal_strlit("openai");
    reveal_strlit("openai_compatible");
    assert("ollama"@[1] != "openai"@[1]);
    assert("ollama"@.len() != "openai_compatible"@.len());
    assert("openai"@.len() != "openai_compatible"@.len());
}

impl ModelConfig {
    /// Checks the provider: `ollama` and `openai_compatible` are accepted,
    /// `openai` needs an API key, anything else is unknown.
    pub fn validate(&self) -> (r: Result<(), ConfigError>)
        ensures
            r is Ok <==> provider_ok(self.provider@, self.api_key is Some),
            r matches Err(ConfigError::MissingApiKey) <==> (self.provider@ == "openai"@ && self.api_key is None),
            r matches Err(ConfigError::UnknownProvider(p)) ==> p@ == self.provider@ && self.provider@ != "ollama"@
                && self.provider@ != "openai"@ && self.provider@ != "openai_compatible"@,
    {
        proof {
            lemma_provider_names_distinct();
        }
        let p = to_chars(self.provider.as_str());
        if eq_str(&p, "ollama") {
            Ok(())
        } else if eq_str(&p, "openai") {
            if self.api_key.is_none() {
                return Err(ConfigError::MissingApiKey);
            }
            Ok(())
        } else if eq_str(&p, "openai_compatible") {
            Ok(())
        } else {
            Err(ConfigError::UnknownProvider(self.provider.clone()))
        }
    }
}

} // verus!
