//! Strict decoding of mapping nodes: what a shape's decoder reads from one
//! field, stated over the node's value and computed over the node.
//!
//! A shape declares a fixed set of keys. A node is refused when it is no
//! mapping, when it holds a key outside that set (the first such key in
//! document order is reported), or when a field cannot be read (fields are
//! read in the order the shape declares them). Where a key occurs twice, the
//! first occurrence counts.

use crate::error::{DecodeError, DecodeErrorView, SegmentView};
use crate::value::{distinct_keys, well_formed, Kind, Value, ValueView};
use vstd::prelude::*;

verus! {

/// A typed value that is read from a document node.
pub trait Decode: View + Sized {
    /// What decoding a node of value `v` gives.
    spec fn decoded(v: ValueView) -> Result<Self::V, DecodeErrorView>;

    /// Decodes `v`, or says why it is refused.
    fn decode(v: &Value) -> (r: Result<Self, DecodeError>)
        ensures
            result_view(r) == Self::decoded(v@),
    ;
}

/// The value of a decoder's result.
pub open spec fn result_view<T: View>(r: Result<T, DecodeError>) -> Result<T::V, DecodeErrorView> {
    match r {
        Ok(x) => Ok(x@),
        Err(e) => Err(e@),
    }
}

/// The text of an optional string.
pub open spec fn opt_text(o: Option<String>) -> Option<Seq<char>> {
    match o {
        Some(s) => Some(s@),
        None => None,
    }
}

/// The view of an optional typed value.
pub open spec fn opt_view<T: View>(o: Option<T>) -> Option<T::V> {
    match o {
        Some(x) => Some(x@),
        None => None,
    }
}

/// The texts of a list of keys.
pub open spec fn key_texts(keys: Seq<&str>) -> Seq<Seq<char>> {
    Seq::new(keys.len(), |i: int| keys[i]@)
}

/// The value of the first entry at or after `i` whose key is `key`.
pub open spec fn lookup_from(m: Seq<(Seq<char>, ValueView)>, key: Seq<char>, i: int) -> Option<
    ValueView,
>
    decreases m.len() - i,
{
    if i < 0 || i >= m.len() {
        None
    } else if m[i].0 == key {
        Some(m[i].1)
    } else {
        lookup_from(m, key, i + 1)
    }
}

/// The value under `key`: that of its first entry.
pub open spec fn lookup(m: Seq<(Seq<char>, ValueView)>, key: Seq<char>) -> Option<ValueView> {
    lookup_from(m, key, 0)
}

/// The value under `key`, where a null counts as absent.
pub open spec fn present(m: Seq<(Seq<char>, ValueView)>, key: Seq<char>) -> Option<ValueView> {
    match lookup(m, key) {
        Some(ValueView::Null) => None,
        o => o,
    }
}

/// The first key at or after entry `i` that `keys` does not hold.
pub open spec fn first_undeclared_from(
    m: Seq<(Seq<char>, ValueView)>,
    keys: Seq<Seq<char>>,
    i: int,
) -> Option<Seq<char>>
    decreases m.len() - i,
{
    if i < 0 || i >= m.len() {
        None
    } else if !keys.contains(m[i].0) {
        Some(m[i].0)
    } else {
        first_undeclared_from(m, keys, i + 1)
    }
}

/// The failure for a required key that is absent.
pub open spec fn missing(key: Seq<char>) -> DecodeErrorView {
    DecodeErrorView::MissingRequiredField { path: Seq::empty(), key }
}

/// The failure for a value `v` under `key` that is not of the expected kind.
pub open spec fn mismatch(key: Seq<char>, expected: Kind, v: ValueView) -> DecodeErrorView {
    DecodeErrorView::TypeMismatch { path: Seq::empty(), key, expected, actual: v.kind() }
}

/// The entries of a node of a shape with the given keys.
pub open spec fn opened(v: ValueView, keys: Seq<Seq<char>>) -> Result<
    Seq<(Seq<char>, ValueView)>,
    DecodeErrorView,
> {
    match v {
        ValueView::Mapping(m) => match first_undeclared_from(m, keys, 0) {
            Some(key) => Err(DecodeErrorView::UnrecognizedField { path: Seq::empty(), key }),
            None => Ok(m),
        },
        _ => Err(mismatch(Seq::empty(), Kind::Mapping, v)),
    }
}

/// The text of a text node; every other kind is a mismatch.
pub open spec fn as_text(key: Seq<char>, v: ValueView) -> Result<Seq<char>, DecodeErrorView> {
    match v {
        ValueView::Text(t) => Ok(t),
        _ => Err(mismatch(key, Kind::Text, v)),
    }
}

/// The boolean of a boolean node; every other kind is a mismatch.
pub open spec fn as_flag(key: Seq<char>, v: ValueView) -> Result<bool, DecodeErrorView> {
    match v {
        ValueView::Bool(b) => Ok(b),
        _ => Err(mismatch(key, Kind::Bool, v)),
    }
}

/// The number of an integer node that fits 32 bits; everything else is a
/// mismatch.
pub open spec fn as_int32(key: Seq<char>, v: ValueView) -> Result<i32, DecodeErrorView> {
    match v {
        ValueView::Integer(n) if -0x8000_0000 <= n <= 0x7fff_ffff => Ok(n as i32),
        _ => Err(mismatch(key, Kind::Integer, v)),
    }
}

/// The items of a list node; every other kind is a mismatch.
pub open spec fn as_list(key: Seq<char>, v: ValueView) -> Result<Seq<ValueView>, DecodeErrorView> {
    match v {
        ValueView::List(items) => Ok(items),
        _ => Err(mismatch(key, Kind::List, v)),
    }
}

/// The entries of a mapping node; every other kind is a mismatch.
pub open spec fn as_mapping(key: Seq<char>, v: ValueView) -> Result<
    Seq<(Seq<char>, ValueView)>,
    DecodeErrorView,
> {
    match v {
        ValueView::Mapping(m) => Ok(m),
        _ => Err(mismatch(key, Kind::Mapping, v)),
    }
}

/// The first item at or after `i` that is no text.
pub open spec fn first_non_text_from(items: Seq<ValueView>, i: int) -> Option<ValueView>
    decreases items.len() - i,
{
    if i < 0 || i >= items.len() {
        None
    } else if !(items[i] is Text) {
        Some(items[i])
    } else {
        first_non_text_from(items, i + 1)
    }
}

/// The texts of a list of text nodes; the first item that is no text is a
/// mismatch.
pub open spec fn as_texts(key: Seq<char>, v: ValueView) -> Result<Seq<Seq<char>>, DecodeErrorView> {
    match v {
        ValueView::List(items) => match first_non_text_from(items, 0) {
            Some(bad) => Err(mismatch(key, Kind::Text, bad)),
            None => Ok(Seq::new(items.len(), |i: int| items[i]->Text_0)),
        },
        _ => Err(mismatch(key, Kind::List, v)),
    }
}

/// The first value at or after entry `i` that is no text.
pub open spec fn first_non_text_entry_from(m: Seq<(Seq<char>, ValueView)>, i: int) -> Option<
    ValueView,
>
    decreases m.len() - i,
{
    if i < 0 || i >= m.len() {
        None
    } else if !(m[i].1 is Text) {
        Some(m[i].1)
    } else {
        first_non_text_entry_from(m, i + 1)
    }
}

/// The keys and texts of a mapping whose values are text nodes; the first
/// value that is no text is a mismatch.
pub open spec fn as_text_pairs(key: Seq<char>, v: ValueView) -> Result<
    Seq<(Seq<char>, Seq<char>)>,
    DecodeErrorView,
> {
    match v {
        ValueView::Mapping(m) => match first_non_text_entry_from(m, 0) {
            Some(bad) => Err(mismatch(key, Kind::Text, bad)),
            None => Ok(Seq::new(m.len(), |i: int| (m[i].0, m[i].1->Text_0))),
        },
        _ => Err(mismatch(key, Kind::Mapping, v)),
    }
}

/// A required text field.
pub open spec fn text_field(m: Seq<(Seq<char>, ValueView)>, key: Seq<char>) -> Result<
    Seq<char>,
    DecodeErrorView,
> {
    match lookup(m, key) {
        None => Err(missing(key)),
        Some(v) => as_text(key, v),
    }
}

/// An optional text field: absent or null gives `None`.
pub open spec fn opt_text_field(m: Seq<(Seq<char>, ValueView)>, key: Seq<char>) -> Result<
    Option<Seq<char>>,
    DecodeErrorView,
> {
    match present(m, key) {
        None => Ok(None),
        Some(v) => match as_text(key, v) {
            Ok(t) => Ok(Some(t)),
            Err(e) => Err(e),
        },
    }
}

/// A required boolean field.
pub open spec fn flag_field(m: Seq<(Seq<char>, ValueView)>, key: Seq<char>) -> Result<
    bool,
    DecodeErrorView,
> {
    match lookup(m, key) {
        None => Err(missing(key)),
        Some(v) => as_flag(key, v),
    }
}

/// A boolean field that is `false` where the key is absent.
pub open spec fn flag_field_or_false(m: Seq<(Seq<char>, ValueView)>, key: Seq<char>) -> Result<
    bool,
    DecodeErrorView,
> {
    match lookup(m, key) {
        None => Ok(false),
        Some(v) => as_flag(key, v),
    }
}

/// An optional 32-bit integer field: absent or null gives `None`.
pub open spec fn opt_int32_field(m: Seq<(Seq<char>, ValueView)>, key: Seq<char>) -> Result<
    Option<i32>,
    DecodeErrorView,
> {
    match present(m, key) {
        None => Ok(None),
        Some(v) => match as_int32(key, v) {
            Ok(n) => Ok(Some(n)),
            Err(e) => Err(e),
        },
    }
}

/// A list of texts that is empty where the key is absent.
pub open spec fn texts_field(m: Seq<(Seq<char>, ValueView)>, key: Seq<char>) -> Result<
    Seq<Seq<char>>,
    DecodeErrorView,
> {
    match lookup(m, key) {
        None => Ok(Seq::empty()),
        Some(v) => as_texts(key, v),
    }
}

/// A mapping with text values; where the key is absent it is empty, or
/// missing if `required`.
pub open spec fn text_pairs_field(
    m: Seq<(Seq<char>, ValueView)>,
    key: Seq<char>,
    required: bool,
) -> Result<Seq<(Seq<char>, Seq<char>)>, DecodeErrorView> {
    match lookup(m, key) {
        None => if required {
            Err(missing(key))
        } else {
            Ok(Seq::empty())
        },
        Some(v) => as_text_pairs(key, v),
    }
}

/// A mapping of arbitrary values that is empty where the key is absent.
pub open spec fn mapping_field(m: Seq<(Seq<char>, ValueView)>, key: Seq<char>) -> Result<
    Seq<(Seq<char>, ValueView)>,
    DecodeErrorView,
> {
    match lookup(m, key) {
        None => Ok(Seq::empty()),
        Some(v) => as_mapping(key, v),
    }
}

/// An optional field of any kind: absent or null gives `None`.
pub open spec fn opt_value_field(m: Seq<(Seq<char>, ValueView)>, key: Seq<char>) -> Result<
    Option<ValueView>,
    DecodeErrorView,
> {
    Ok(present(m, key))
}

/// A list; where the key is absent it is empty, or missing if `required`.
pub open spec fn list_field(m: Seq<(Seq<char>, ValueView)>, key: Seq<char>, required: bool) -> Result<
    Seq<ValueView>,
    DecodeErrorView,
> {
    match lookup(m, key) {
        None => if required {
            Err(missing(key))
        } else {
            Ok(Seq::empty())
        },
        Some(v) => as_list(key, v),
    }
}

/// The failure of the first item at or after `i` that `T` refuses, seen
/// from the list.
pub open spec fn first_failure_from<T: Decode>(items: Seq<ValueView>, i: int) -> Option<
    DecodeErrorView,
>
    decreases items.len() - i,
{
    if i < 0 || i >= items.len() {
        None
    } else if T::decoded(items[i]) is Err {
        Some(T::decoded(items[i])->Err_0.under(SegmentView::Item(i)))
    } else {
        first_failure_from::<T>(items, i + 1)
    }
}

/// Every item decoded as a `T`, in order, or the failure of the first item
/// that is refused.
pub open spec fn decoded_items<T: Decode>(items: Seq<ValueView>) -> Result<
    Seq<T::V>,
    DecodeErrorView,
> {
    match first_failure_from::<T>(items, 0) {
        Some(e) => Err(e),
        None => Ok(Seq::new(items.len(), |i: int| T::decoded(items[i])->Ok_0)),
    }
}

/// A list field whose items are decoded as `T`. The failure of an item is
/// seen from the node that holds the list.
pub open spec fn items_field<T: Decode>(
    m: Seq<(Seq<char>, ValueView)>,
    key: Seq<char>,
    required: bool,
) -> Result<Seq<T::V>, DecodeErrorView> {
    match list_field(m, key, required) {
        Err(e) => Err(e),
        Ok(items) => match decoded_items::<T>(items) {
            Ok(xs) => Ok(xs),
            Err(e) => Err(e.under(SegmentView::Key(key))),
        },
    }
}

/// A required field that is decoded as a `T`. A failure inside the field is
/// seen from the node that holds it.
pub open spec fn nested_field<T: Decode>(m: Seq<(Seq<char>, ValueView)>, key: Seq<char>) -> Result<
    T::V,
    DecodeErrorView,
> {
    match lookup(m, key) {
        None => Err(missing(key)),
        Some(v) => match T::decoded(v) {
            Ok(x) => Ok(x),
            Err(e) => Err(e.under(SegmentView::Key(key))),
        },
    }
}

/// An optional field that is decoded as a `T`: absent or null gives `None`.
pub open spec fn opt_nested_field<T: Decode>(
    m: Seq<(Seq<char>, ValueView)>,
    key: Seq<char>,
) -> Result<Option<T::V>, DecodeErrorView> {
    match present(m, key) {
        None => Ok(None),
        Some(v) => match T::decoded(v) {
            Ok(x) => Ok(Some(x)),
            Err(e) => Err(e.under(SegmentView::Key(key))),
        },
    }
}

/// The value under a key is the value of one of the entries.
pub proof fn lemma_lookup_is_an_entry(m: Seq<(Seq<char>, ValueView)>, key: Seq<char>) -> (i: int)
    requires
        lookup(m, key) is Some,
    ensures
        0 <= i < m.len(),
        m[i].0 == key,
        lookup(m, key) == Some(m[i].1),
{
    lemma_lookup_from_is_an_entry(m, key, 0)
}

proof fn lemma_lookup_from_is_an_entry(
    m: Seq<(Seq<char>, ValueView)>,
    key: Seq<char>,
    from: int,
) -> (i: int)
    requires
        0 <= from,
        lookup_from(m, key, from) is Some,
    ensures
        from <= i < m.len(),
        m[i].0 == key,
        lookup_from(m, key, from) == Some(m[i].1),
    decreases m.len() - from,
{
    if m[from].0 == key {
        from
    } else {
        lemma_lookup_from_is_an_entry(m, key, from + 1)
    }
}

/// The maps of a typed value hold each key once where the document does: a
/// mapping field of a well-formed node has distinct keys.
pub proof fn law_mapping_field_has_distinct_keys(m: Seq<(Seq<char>, ValueView)>, key: Seq<char>)
    requires
        well_formed(ValueView::Mapping(m)),
        mapping_field(m, key) is Ok,
    ensures
        distinct_keys(mapping_field(m, key)->Ok_0),
{
    if lookup(m, key) is Some {
        let i = lemma_lookup_is_an_entry(m, key);
        assert(well_formed(ValueView::Mapping(m)->Mapping_0[i].1));
    }
}

/// A mapping field with text values of a well-formed node has distinct keys.
pub proof fn law_text_pairs_field_has_distinct_keys(
    m: Seq<(Seq<char>, ValueView)>,
    key: Seq<char>,
    required: bool,
)
    requires
        well_formed(ValueView::Mapping(m)),
        text_pairs_field(m, key, required) is Ok,
    ensures
        distinct_keys(text_pairs_field(m, key, required)->Ok_0),
{
    if lookup(m, key) is Some {
        let i = lemma_lookup_is_an_entry(m, key);
        assert(well_formed(ValueView::Mapping(m)->Mapping_0[i].1));
    }
}

} // verus!
