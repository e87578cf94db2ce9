//! The document form of typed values, and why decoding it gives them back.
//!
//! A record is written as a mapping that holds every key of its shape, in
//! the order the shape declares them; an optional field that is absent is
//! written as null.

use crate::decode::{
    as_text_pairs, as_texts, decoded_items, first_failure_from, first_non_text_entry_from,
    first_non_text_from, first_undeclared_from, items_field, list_field, lookup, lookup_from,
    opened, opt_text, opt_view, Decode,
};
use crate::error::DecodeErrorView;
use crate::value::{
    clone_entries, lemma_list_view, lemma_mapping_view, views_of, Value, ValueView,
};
use vstd::prelude::*;

verus! {

/// A typed value that is written back as a document node.
pub trait Encode: Decode {
    /// The document form of `x`.
    spec fn encoded(x: Self::V) -> ValueView;

    /// The document form of this value.
    fn encode(&self) -> (v: Value)
        ensures
            v@ == Self::encoded(self@),
    ;

    /// No typed value is written as null.
    proof fn lemma_encoded_is_not_null(x: Self::V)
        ensures
            !(Self::encoded(x) is Null),
    ;

    /// Of a node that is accepted: decoding it, encoding what was read and
    /// decoding that gives what the first decoding gave.
    proof fn round_trip(v: ValueView)
        requires
            Self::decoded(v) is Ok,
        ensures
            Self::decoded(Self::encoded(Self::decoded(v)->Ok_0)) == Self::decoded(v),
    ;
}

/// An optional text: the text, or null.
/// An optional typed value: its document form, or null.
pub open spec fn encoded_opt_text(o: Option<Seq<char>>) -> ValueView {
    match o {
        Some(t) => ValueView::Text(t),
        None => ValueView::Null,
    }
}

/// An optional integer: the integer, or null.
/// An optional typed value: its document form, or null.
pub open spec fn encoded_opt_int32(o: Option<i32>) -> ValueView {
    match o {
        Some(n) => ValueView::Integer(n as i64),
        None => ValueView::Null,
    }
}

/// An optional node: the node, or null.
/// An optional typed value: its document form, or null.
pub open spec fn encoded_opt_value(o: Option<ValueView>) -> ValueView {
    match o {
        Some(v) => v,
        None => ValueView::Null,
    }
}

/// A list of texts.
pub open spec fn encoded_texts(ts: Seq<Seq<char>>) -> ValueView {
    ValueView::List(Seq::new(ts.len(), |i: int| ValueView::Text(ts[i])))
}

/// A mapping with text values.
pub open spec fn encoded_text_pairs(ps: Seq<(Seq<char>, Seq<char>)>) -> ValueView {
    ValueView::Mapping(Seq::new(ps.len(), |i: int| (ps[i].0, ValueView::Text(ps[i].1))))
}

/// A list of typed values, each in its document form.
pub open spec fn encoded_items<T: Encode>(xs: Seq<T::V>) -> ValueView {
    ValueView::List(Seq::new(xs.len(), |i: int| T::encoded(xs[i])))
}

/// An optional typed value: its document form, or null.
pub open spec fn encoded_opt<T: Encode>(o: Option<T::V>) -> ValueView {
    match o {
        Some(x) => T::encoded(x),
        None => ValueView::Null,
    }
}

/// A text node.
pub fn put_text(t: &String) -> (v: Value)
    ensures
        v@ == ValueView::Text(t@),
{
    Value::Text(t.clone())
}

/// A text node, or null.
/// The document form of the value, or null.
pub fn put_opt_text(o: &Option<String>) -> (v: Value)
    ensures
        v@ == encoded_opt_text(opt_text(*o)),
{
    match o {
        Some(t) => Value::Text(t.clone()),
        None => Value::Null,
    }
}

/// An integer node, or null.
/// The document form of the value, or null.
pub fn put_opt_int32(o: &Option<i32>) -> (v: Value)
    ensures
        v@ == encoded_opt_int32(*o),
{
    match o {
        Some(n) => Value::Integer(*n as i64),
        None => Value::Null,
    }
}

/// A copy of the node, or null.
/// The document form of the value, or null.
pub fn put_opt_value(o: &Option<Value>) -> (v: Value)
    ensures
        v@ == encoded_opt_value(opt_view(*o)),
{
    match o {
        Some(x) => x.clone(),
        None => Value::Null,
    }
}

/// A mapping node with a copy of the entries.
pub fn put_mapping(m: &Vec<(String, Value)>) -> (v: Value)
    ensures
        v@ == ValueView::Mapping(views_of(m@)),
{
    let entries = clone_entries(m);
    proof {
        lemma_mapping_view(entries);
    }
    Value::Mapping(entries)
}

/// A text node.
/// A list of text nodes.
pub fn put_texts(ts: &Vec<String>) -> (v: Value)
    ensures
        v@ == encoded_texts(views_of(ts@)),
{
    let mut items: Vec<Value> = Vec::new();
    let mut i: usize = 0;
    while i < ts.len()
        invariant
            i <= ts@.len(),
            items@.len() == i,
            forall|j: int| 0 <= j < i ==> items@[j]@ == ValueView::Text(ts@[j]@),
        decreases ts@.len() - i,
    {
        items.push(Value::Text(ts[i].clone()));
        i += 1;
    }
    proof {
        lemma_list_view(items);
        assert(views_of(items@) =~= Seq::new(
            views_of(ts@).len(),
            |i: int| ValueView::Text(views_of(ts@)[i]),
        ));
    }
    Value::List(items)
}

/// A text node.
/// A mapping node with text values.
pub fn put_text_pairs(ps: &Vec<(String, String)>) -> (v: Value)
    ensures
        v@ == encoded_text_pairs(views_of(ps@)),
{
    let mut entries: Vec<(String, Value)> = Vec::new();
    let mut i: usize = 0;
    while i < ps.len()
        invariant
            i <= ps@.len(),
            entries@.len() == i,
            forall|j: int|
                0 <= j < i ==> entries@[j].0@ == ps@[j].0@ && entries@[j].1@ == ValueView::Text(
                    ps@[j].1@,
                ),
        decreases ps@.len() - i,
    {
        entries.push((ps[i].0.clone(), Value::Text(ps[i].1.clone())));
        i += 1;
    }
    proof {
        lemma_mapping_view(entries);
        assert(views_of(entries@) =~= Seq::new(
            views_of(ps@).len(),
            |i: int| (views_of(ps@)[i].0, ValueView::Text(views_of(ps@)[i].1)),
        ));
    }
    Value::Mapping(entries)
}

/// A list node with the document form of every item.
pub fn put_items<T: Encode>(xs: &Vec<T>) -> (v: Value)
    ensures
        v@ == encoded_items::<T>(views_of(xs@)),
{
    let mut items: Vec<Value> = Vec::new();
    let mut i: usize = 0;
    while i < xs.len()
        invariant
            i <= xs@.len(),
            items@.len() == i,
            forall|j: int| 0 <= j < i ==> items@[j]@ == T::encoded(xs@[j]@),
        decreases xs@.len() - i,
    {
        items.push(xs[i].encode());
        i += 1;
    }
    proof {
        lemma_list_view(items);
        assert(views_of(items@) =~= Seq::new(
            views_of(xs@).len(),
            |i: int| T::encoded(views_of(xs@)[i]),
        ));
    }
    Value::List(items)
}

/// The document form of the value, or null.
pub fn put_opt<T: Encode>(o: &Option<T>) -> (v: Value)
    ensures
        v@ == encoded_opt::<T>(opt_view(*o)),
{
    match o {
        Some(x) => x.encode(),
        None => Value::Null,
    }
}

/// One entry of a record's mapping.
pub fn field(key: &str, v: Value) -> (e: (String, Value))
    ensures
        e.0@ == key@,
        e.1@ == v@,
{
    (key.to_owned(), v)
}

/// A mapping whose keys are those of a shape, in order, is opened as it is.
pub proof fn lemma_entries_accepted(m: Seq<(Seq<char>, ValueView)>, keys: Seq<Seq<char>>)
    requires
        m.len() == keys.len(),
        forall|i: int| 0 <= i < m.len() ==> (#[trigger] m[i]).0 == keys[i],
    ensures
        opened(ValueView::Mapping(m), keys) == Ok::<_, DecodeErrorView>(m),
{
    lemma_no_undeclared_from(m, keys, 0);
}

proof fn lemma_no_undeclared_from(m: Seq<(Seq<char>, ValueView)>, keys: Seq<Seq<char>>, i: int)
    requires
        0 <= i <= m.len(),
        m.len() == keys.len(),
        forall|j: int| 0 <= j < m.len() ==> (#[trigger] m[j]).0 == keys[j],
    ensures
        first_undeclared_from(m, keys, i) is None,
    decreases m.len() - i,
{
    if i < m.len() {
        assert(keys[i] == m[i].0);
        assert(keys.contains(m[i].0));
        lemma_no_undeclared_from(m, keys, i + 1);
    }
}

/// A mapping that holds a key outside `keys` is refused for a key outside
/// `keys`.
pub proof fn lemma_entries_refused(m: Seq<(Seq<char>, ValueView)>, keys: Seq<Seq<char>>, i: int)
    requires
        0 <= i < m.len(),
        !keys.contains(m[i].0),
    ensures
        opened(ValueView::Mapping(m), keys) matches Err(
            DecodeErrorView::UnrecognizedField { path, key },
        ) && path.len() == 0 && !keys.contains(key),
{
    lemma_undeclared_from(m, keys, 0, i);
}

proof fn lemma_undeclared_from(
    m: Seq<(Seq<char>, ValueView)>,
    keys: Seq<Seq<char>>,
    from: int,
    i: int,
)
    requires
        0 <= from <= i < m.len(),
        !keys.contains(m[i].0),
    ensures
        first_undeclared_from(m, keys, from) matches Some(key) && !keys.contains(key),
    decreases i - from,
{
    if from < i && keys.contains(m[from].0) {
        lemma_undeclared_from(m, keys, from + 1, i);
    }
}

/// The value under the key of entry `i` is that of entry `i`, where no
/// earlier entry has the same key.
pub proof fn lemma_lookup_at(m: Seq<(Seq<char>, ValueView)>, i: int)
    requires
        0 <= i < m.len(),
        forall|j: int| 0 <= j < i ==> (#[trigger] m[j]).0 != m[i].0,
    ensures
        lookup(m, m[i].0) == Some(m[i].1),
{
    lemma_lookup_from(m, 0, i);
}

/// Among entries with distinct keys, the value under the key of an entry is
/// that of the entry, wherever it stands.
pub proof fn law_lookup_finds_the_entry(m: Seq<(Seq<char>, ValueView)>, i: int)
    requires
        crate::value::distinct_keys(m),
        0 <= i < m.len(),
    ensures
        lookup(m, m[i].0) == Some(m[i].1),
{
    lemma_lookup_at(m, i);
}

proof fn lemma_lookup_from(m: Seq<(Seq<char>, ValueView)>, from: int, i: int)
    requires
        0 <= from <= i < m.len(),
        forall|j: int| 0 <= j < i ==> (#[trigger] m[j]).0 != m[i].0,
    ensures
        lookup_from(m, m[i].0, from) == Some(m[i].1),
    decreases i - from,
{
    if from < i {
        assert(m[from].0 != m[i].0);
        lemma_lookup_from(m, from + 1, i);
    }
}

/// A list of texts is read back from its document form.
pub proof fn lemma_texts_round_trip(key: Seq<char>, ts: Seq<Seq<char>>)
    ensures
        as_texts(key, encoded_texts(ts)) == Ok::<_, DecodeErrorView>(ts),
{
    let items = Seq::new(ts.len(), |i: int| ValueView::Text(ts[i]));
    lemma_all_texts_from(items, 0);
    assert(Seq::new(items.len(), |i: int| items[i]->Text_0) =~= ts);
}

proof fn lemma_all_texts_from(items: Seq<ValueView>, i: int)
    requires
        0 <= i <= items.len(),
        forall|j: int| 0 <= j < items.len() ==> #[trigger] items[j] is Text,
    ensures
        first_non_text_from(items, i) is None,
    decreases items.len() - i,
{
    if i < items.len() {
        assert(items[i] is Text);
        lemma_all_texts_from(items, i + 1);
    }
}

/// A mapping with text values is read back from its document form.
pub proof fn lemma_text_pairs_round_trip(key: Seq<char>, ps: Seq<(Seq<char>, Seq<char>)>)
    ensures
        as_text_pairs(key, encoded_text_pairs(ps)) == Ok::<_, DecodeErrorView>(ps),
{
    let m = Seq::new(ps.len(), |i: int| (ps[i].0, ValueView::Text(ps[i].1)));
    lemma_all_text_entries_from(m, 0);
    assert(Seq::new(m.len(), |i: int| (m[i].0, m[i].1->Text_0)) =~= ps);
}

proof fn lemma_all_text_entries_from(m: Seq<(Seq<char>, ValueView)>, i: int)
    requires
        0 <= i <= m.len(),
        forall|j: int| 0 <= j < m.len() ==> (#[trigger] m[j]).1 is Text,
    ensures
        first_non_text_entry_from(m, i) is None,
    decreases m.len() - i,
{
    if i < m.len() {
        assert(m[i].1 is Text);
        lemma_all_text_entries_from(m, i + 1);
    }
}

/// Items that were decoded are read back from their document form.
pub proof fn lemma_items_round_trip<T: Encode>(vs: Seq<ValueView>)
    requires
        decoded_items::<T>(vs) is Ok,
    ensures
        decoded_items::<T>(encoded_items::<T>(decoded_items::<T>(vs)->Ok_0)->List_0)
            == decoded_items::<T>(vs),
{
    let xs = decoded_items::<T>(vs)->Ok_0;
    let es = encoded_items::<T>(xs)->List_0;
    assert(es.len() == vs.len());
    assert forall|i: int| 0 <= i < vs.len() implies T::decoded(#[trigger] es[i]) == Ok::<
        _,
        DecodeErrorView,
    >(xs[i]) by {
        lemma_no_failure_at::<T>(vs, 0, i);
        T::round_trip(vs[i]);
    }
    lemma_no_failure_from::<T>(es, xs, 0);
    assert(Seq::new(es.len(), |i: int| T::decoded(es[i])->Ok_0) =~= xs);
}

proof fn lemma_no_failure_at<T: Decode>(vs: Seq<ValueView>, from: int, i: int)
    requires
        0 <= from <= i < vs.len(),
        first_failure_from::<T>(vs, from) is None,
    ensures
        T::decoded(vs[i]) is Ok,
    decreases i - from,
{
    if from < i {
        lemma_no_failure_at::<T>(vs, from + 1, i);
    }
}

proof fn lemma_no_failure_from<T: Decode>(es: Seq<ValueView>, xs: Seq<T::V>, i: int)
    requires
        0 <= i <= es.len(),
        es.len() == xs.len(),
        forall|j: int|
            0 <= j < es.len() ==> T::decoded(#[trigger] es[j]) == Ok::<_, DecodeErrorView>(xs[j]),
    ensures
        first_failure_from::<T>(es, i) is None,
    decreases es.len() - i,
{
    if i < es.len() {
        assert(T::decoded(es[i]) is Ok);
        lemma_no_failure_from::<T>(es, xs, i + 1);
    }
}

/// A list field that was decoded is read back from its document form.
pub proof fn lemma_items_field_round_trip<T: Encode>(
    m: Seq<(Seq<char>, ValueView)>,
    key: Seq<char>,
    required: bool,
)
    requires
        items_field::<T>(m, key, required) is Ok,
    ensures
        decoded_items::<T>(encoded_items::<T>(items_field::<T>(m, key, required)->Ok_0)->List_0)
            == items_field::<T>(m, key, required),
{
    let vs = list_field(m, key, required)->Ok_0;
    lemma_items_round_trip::<T>(vs);
}

} // verus!
