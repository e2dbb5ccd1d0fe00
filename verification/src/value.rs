//! The values that a program computes.

use crate::ast::{
    clone_identifiers, clone_statements, identifiers_view, statements_view, Float, Identifier,
    Integer, Statement, StatementView,
};
use vstd::prelude::*;

verus! {

/// A value at run time.
#[derive(Debug, PartialEq)]
pub enum Value {
    Bool(bool),
    Null,
    Integer(Integer),
    Float(Float),
    String(String),
    Array(Vec<Value>),
    /// The entries of a map. No two of them have the same key.
    Mapping(Vec<(HashableValue, Value)>),
    Function(Vec<Identifier>, Vec<Statement>),
}

/// The values that can be the key of a map entry.
#[derive(Debug, PartialEq, Eq, Hash)]
pub enum HashableValue {
    Bool(bool),
    Null,
    Integer(Integer),
    String(String),
}

pub enum HashableView {
    Bool(bool),
    Null,
    Integer(int),
    String(Seq<char>),
}

pub enum ValueView {
    Bool(bool),
    Null,
    Integer(int),
    Float(Seq<char>),
    String(Seq<char>),
    Array(Seq<ValueView>),
    Mapping(Seq<(HashableView, ValueView)>),
    Function(Seq<Seq<char>>, Seq<StatementView>),
}

impl View for HashableValue {
    type V = HashableView;

    open spec fn view(&self) -> HashableView {
        match *self {
            HashableValue::Bool(b) => HashableView::Bool(b),
            HashableValue::Null => HashableView::Null,
            HashableValue::Integer(n) => HashableView::Integer(n as int),
            HashableValue::String(s) => HashableView::String(s@),
        }
    }
}

pub open spec fn value_view(v: Value) -> ValueView
    decreases v,
{
    match v {
        Value::Bool(b) => ValueView::Bool(b),
        Value::Null => ValueView::Null,
        Value::Integer(n) => ValueView::Integer(n as int),
        Value::Float(f) => ValueView::Float(f@),
        Value::String(s) => ValueView::String(s@),
        Value::Array(items) => ValueView::Array(values_view(items@)),
        Value::Mapping(entries) => ValueView::Mapping(pairs_view(entries@)),
        Value::Function(parameters, body) => ValueView::Function(
            identifiers_view(parameters@),
            statements_view(body@),
        ),
    }
}

pub open spec fn values_view(vs: Seq<Value>) -> Seq<ValueView>
    decreases vs,
{
    Seq::new(
        vs.len(),
        |i: int|
            if 0 <= i < vs.len() {
                value_view(vs[i])
            } else {
                ValueView::Null
            },
    )
}

pub open spec fn pairs_view(entries: Seq<(HashableValue, Value)>) -> Seq<(HashableView, ValueView)>
    decreases entries,
{
    Seq::new(
        entries.len(),
        |i: int|
            if 0 <= i < entries.len() {
                (entries[i].0@, value_view(entries[i].1))
            } else {
                (HashableView::Null, ValueView::Null)
            },
    )
}

impl View for Value {
    type V = ValueView;

    open spec fn view(&self) -> ValueView {
        value_view(*self)
    }
}

/// The key that a value is, where it can be one.
pub open spec fn hashable(v: ValueView) -> Option<HashableView> {
    match v {
        ValueView::Null => Some(HashableView::Null),
        ValueView::Bool(b) => Some(HashableView::Bool(b)),
        ValueView::Integer(n) => Some(HashableView::Integer(n)),
        ValueView::String(s) => Some(HashableView::String(s)),
        _ => None,
    }
}

/// The position of the first entry at or behind `from` that has the key, or
/// the length of `entries` where there is none.
pub open spec fn index_of<K, V>(entries: Seq<(K, V)>, key: K, from: int) -> int
    decreases entries.len() - from,
{
    if 0 <= from < entries.len() {
        if entries[from].0 == key {
            from
        } else {
            index_of(entries, key, from + 1)
        }
    } else {
        entries.len() as int
    }
}

/// Whether an entry has the key.
pub open spec fn has_key<K, V>(entries: Seq<(K, V)>, key: K) -> bool {
    index_of(entries, key, 0) < entries.len()
}

/// What stands under the key. It is meant for a key that an entry has.
pub open spec fn value_of<K, V>(entries: Seq<(K, V)>, key: K) -> V {
    entries[index_of(entries, key, 0)].1
}

/// The entries with `value` under `key`: in place of what stood there, or at
/// the end where nothing did.
pub open spec fn store<K, V>(entries: Seq<(K, V)>, key: K, value: V) -> Seq<(K, V)> {
    if has_key(entries, key) {
        entries.update(index_of(entries, key, 0), (key, value))
    } else {
        entries.push((key, value))
    }
}

/// No key stands twice.
pub open spec fn distinct_keys<K, V>(entries: Seq<(K, V)>) -> bool {
    forall|i: int, j: int|
        0 <= i < entries.len() && 0 <= j < entries.len() && #[trigger] entries[i].0
            == #[trigger] entries[j].0 ==> i == j
}

impl HashableValue {
    /// Whether two keys are the same.
    pub fn same(&self, other: &HashableValue) -> (r: bool)
        ensures
            r == (self@ == other@),
    {
        match (self, other) {
            (HashableValue::Bool(a), HashableValue::Bool(b)) => *a == *b,
            (HashableValue::Null, HashableValue::Null) => true,
            (HashableValue::Integer(a), HashableValue::Integer(b)) => *a == *b,
            (HashableValue::String(a), HashableValue::String(b)) => *a == *b,
            _ => false,
        }
    }
}

impl Clone for HashableValue {
    fn clone(&self) -> (r: Self)
        ensures
            r@ == self@,
    {
        match self {
            HashableValue::Bool(b) => HashableValue::Bool(*b),
            HashableValue::Null => HashableValue::Null,
            HashableValue::Integer(n) => HashableValue::Integer(*n),
            HashableValue::String(s) => HashableValue::String(s.clone()),
        }
    }
}

/// Copies a value with all that it holds.
pub fn clone_value(v: &Value) -> (r: Value)
    ensures
        r@ == v@,
    decreases *v,
{
    match v {
        Value::Bool(b) => Value::Bool(*b),
        Value::Null => Value::Null,
        Value::Integer(n) => Value::Integer(*n),
        Value::Float(f) => Value::Float(f.clone()),
        Value::String(s) => Value::String(s.clone()),
        Value::Array(items) => Value::Array(clone_values(items)),
        Value::Mapping(entries) => Value::Mapping(clone_pairs(entries)),
        Value::Function(parameters, body) => Value::Function(
            clone_identifiers(parameters),
            clone_statements(body),
        ),
    }
}

pub fn clone_values(vs: &Vec<Value>) -> (r: Vec<Value>)
    ensures
        values_view(r@) == values_view(vs@),
    decreases *vs,
{
    let mut out: Vec<Value> = Vec::new();
    let mut i: usize = 0;
    while i < vs.len()
        invariant
            i <= vs.len(),
            out.len() == i,
            forall|j: int| 0 <= j < i ==> out@[j]@ == vs@[j]@,
        decreases vs.len() - i,
    {
        out.push(clone_value(&vs[i]));
        i += 1;
    }
    assert(values_view(out@) =~= values_view(vs@));
    out
}

pub fn clone_pairs(entries: &Vec<(HashableValue, Value)>) -> (r: Vec<(HashableValue, Value)>)
    ensures
        pairs_view(r@) == pairs_view(entries@),
    decreases *entries,
{
    let mut out: Vec<(HashableValue, Value)> = Vec::new();
    let mut i: usize = 0;
    while i < entries.len()
        invariant
            i <= entries.len(),
            out.len() == i,
            forall|j: int|
                0 <= j < i ==> out@[j].0@ == entries@[j].0@ && out@[j].1@ == entries@[j].1@,
        decreases entries.len() - i,
    {
        let key = entries[i].0.clone();
        let value = clone_value(&entries[i].1);
        out.push((key, value));
        i += 1;
    }
    assert(pairs_view(out@) =~= pairs_view(entries@));
    out
}

impl Clone for Value {
    fn clone(&self) -> (r: Self)
        ensures
            r@ == self@,
    {
        clone_value(self)
    }
}

impl Value {
    /// Turns the value into a key, where it can be one.
    pub fn try_as_hashable(self) -> (r: Option<HashableValue>)
        ensures
            match r {
                Some(key) => hashable(self@) == Some(key@),
                None => hashable(self@) is None,
            },
    {
        match self {
            Value::Null => Some(HashableValue::Null),
            Value::Bool(b) => Some(HashableValue::Bool(b)),
            Value::Integer(i) => Some(HashableValue::Integer(i)),
            Value::String(s) => Some(HashableValue::String(s)),
            _ => None,
        }
    }
}

/// Puts `value` under `key`, in place of what stood there.
pub fn store_pair(entries: &mut Vec<(HashableValue, Value)>, key: HashableValue, value: Value)
    ensures
        pairs_view(final(entries)@) == store(pairs_view(old(entries)@), key@, value@),
        distinct_keys(pairs_view(old(entries)@)) ==> distinct_keys(pairs_view(final(entries)@)),
{
    let ghost before = pairs_view(entries@);
    proof {
        if distinct_keys(before) {
            lemma_store_keeps_keys_apart(before, key@, value@);
        }
    }
    let mut i: usize = 0;
    while i < entries.len()
        invariant
            i <= entries.len(),
            pairs_view(entries@) == before,
            before == pairs_view(old(entries)@),
            index_of(before, key@, 0) == index_of(before, key@, i as int),
        decreases entries.len() - i,
    {
        if entries[i].0.same(&key) {
            let ghost pair = (key@, value@);
            entries.set(i, (key, value));
            assert(pairs_view(entries@) =~= before.update(i as int, pair));
            return ;
        }
        i += 1;
    }
    let ghost pair = (key@, value@);
    entries.push((key, value));
    assert(pairs_view(entries@) =~= before.push(pair));
}

/// Finds what stands under `key`.
pub fn find_pair<'a>(entries: &'a Vec<(HashableValue, Value)>, key: &HashableValue) -> (r: Option<
    &'a Value,
>)
    ensures
        match r {
            Some(value) => has_key(pairs_view(entries@), key@) && value@ == value_of(
                pairs_view(entries@),
                key@,
            ),
            None => !has_key(pairs_view(entries@), key@),
        },
{
    let ghost all = pairs_view(entries@);
    let mut i: usize = 0;
    while i < entries.len()
        invariant
            i <= entries.len(),
            all == pairs_view(entries@),
            index_of(all, key@, 0) == index_of(all, key@, i as int),
        decreases entries.len() - i,
    {
        if entries[i].0.same(key) {
            return Some(&entries[i].1);
        }
        i += 1;
    }
    None
}

/// Storing keeps the keys apart.
pub proof fn lemma_store_keeps_keys_apart<K, V>(entries: Seq<(K, V)>, key: K, value: V)
    requires
        distinct_keys(entries),
    ensures
        distinct_keys(store(entries, key, value)),
{
    lemma_index_of(entries, key, 0);
    let after = store(entries, key, value);
    assert forall|i: int, j: int|
        0 <= i < after.len() && 0 <= j < after.len() && #[trigger] after[i].0
            == #[trigger] after[j].0 implies i == j by {
        if has_key(entries, key) {
            let at = index_of(entries, key, 0);
            assert(after[i].0 == entries[i].0);
            assert(after[j].0 == entries[j].0);
        } else {
            if i < entries.len() && j < entries.len() {
                assert(after[i].0 == entries[i].0);
                assert(after[j].0 == entries[j].0);
            }
        }
    }
}

/// What `index_of` finds is the first entry with the key.
pub proof fn lemma_index_of<K, V>(entries: Seq<(K, V)>, key: K, from: int)
    requires
        0 <= from,
    ensures
        from <= index_of(entries, key, from) || index_of(entries, key, from) == entries.len(),
        index_of(entries, key, from) <= entries.len(),
        index_of(entries, key, from) < entries.len() ==> entries[index_of(entries, key, from)].0
            == key,
        forall|i: int| from <= i < index_of(entries, key, from) ==> (#[trigger] entries[i]).0 != key,
    decreases entries.len() - from,
{
    if from < entries.len() && entries[from].0 != key {
        lemma_index_of(entries, key, from + 1);
    }
}

} // verus!
