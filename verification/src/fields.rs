//! The readers that the decoders are built from: each computes, on a node,
//! what the function of the same purpose in [`crate::decode`] states of the
//! node's value.

use crate::decode::{
    as_flag, as_int32, as_list, as_mapping, as_text, as_text_pairs, as_texts, decoded_items,
    first_failure_from, first_non_text_entry_from, first_non_text_from, first_undeclared_from,
    flag_field, flag_field_or_false, items_field, key_texts, lookup, lookup_from, mapping_field,
    mismatch, missing, nested_field, opened, opt_int32_field, opt_nested_field, opt_text,
    opt_text_field, opt_value_field, opt_view, present, text_field, text_pairs_field,
    texts_field, Decode,
};
use crate::error::{DecodeError, DecodeErrorView, Segment};
use crate::value::{
    clone_entries, lemma_list_view, lemma_mapping_view, same_text, views_of, Kind, Value,
    ValueView,
};
use vstd::prelude::*;

verus! {

/// The key under which a decoder reports the node it was handed.
pub fn own_key() -> (k: &'static str)
    ensures
        k@ == Seq::<char>::empty(),
{
    proof {
        reveal_strlit("");
        assert(""@ =~= Seq::<char>::empty());
    }
    ""
}

/// The failure for a required key that is absent.
pub fn missing_error(key: &str) -> (e: DecodeError)
    ensures
        e@ == missing(key@),
{
    let path: Vec<Segment> = Vec::new();
    assert(views_of(path@) =~= Seq::empty());
    DecodeError::MissingRequiredField { path, key: key.to_owned() }
}

/// The failure for a value under `key` that is not of the expected kind.
pub fn mismatch_error(key: &str, expected: Kind, v: &Value) -> (e: DecodeError)
    ensures
        e@ == mismatch(key@, expected, v@),
{
    let path: Vec<Segment> = Vec::new();
    assert(views_of(path@) =~= Seq::empty());
    DecodeError::TypeMismatch { path, key: key.to_owned(), expected, actual: v.kind() }
}

/// Whether `keys` holds `key`.
pub fn declares(keys: &[&str], key: &str) -> (r: bool)
    ensures
        r == key_texts(keys@).contains(key@),
{
    let mut i: usize = 0;
    while i < keys.len()
        invariant
            i <= keys@.len(),
            forall|j: int| 0 <= j < i ==> key_texts(keys@)[j] != key@,
        decreases keys@.len() - i,
    {
        if same_text(keys[i], key) {
            assert(key_texts(keys@)[i as int] == key@);
            return true;
        }
        i += 1;
    }
    false
}

/// The value under `key`: that of its first entry.
pub fn find<'a>(m: &'a Vec<(String, Value)>, key: &str) -> (r: Option<&'a Value>)
    ensures
        match r {
            Some(v) => lookup(views_of(m@), key@) == Some(v@),
            None => lookup(views_of(m@), key@) is None,
        },
{
    let mut i: usize = 0;
    while i < m.len()
        invariant
            i <= m@.len(),
            lookup(views_of(m@), key@) == lookup_from(views_of(m@), key@, i as int),
        decreases m@.len() - i,
    {
        if same_text(m[i].0.as_str(), key) {
            return Some(&m[i].1);
        }
        i += 1;
    }
    None
}

/// The value under `key`, where a null counts as absent.
pub fn find_present<'a>(m: &'a Vec<(String, Value)>, key: &str) -> (r: Option<&'a Value>)
    ensures
        match r {
            Some(v) => present(views_of(m@), key@) == Some(v@),
            None => present(views_of(m@), key@) is None,
        },
{
    match find(m, key) {
        Some(Value::Null) => None,
        o => o,
    }
}

/// The entries of a node of a shape with the given keys.
#[verifier::loop_isolation(false)]
pub fn open_shape<'a>(v: &'a Value, keys: &[&str]) -> (r: Result<
    &'a Vec<(String, Value)>,
    DecodeError,
>)
    ensures
        match r {
            Ok(m) => opened(v@, key_texts(keys@)) == Ok::<_, DecodeErrorView>(views_of(m@)),
            Err(e) => opened(v@, key_texts(keys@)) == Err::<Seq<(Seq<char>, ValueView)>, _>(e@),
        },
{
    match v {
        Value::Mapping(m) => {
            proof {
                lemma_mapping_view(*m);
            }
            let mut i: usize = 0;
            while i < m.len()
                invariant
                    i <= m@.len(),
                    first_undeclared_from(views_of(m@), key_texts(keys@), 0)
                        == first_undeclared_from(views_of(m@), key_texts(keys@), i as int),
                decreases m@.len() - i,
            {
                if !declares(keys, m[i].0.as_str()) {
                    let path: Vec<Segment> = Vec::new();
                    assert(views_of(path@) =~= Seq::empty());
                    return Err(DecodeError::UnrecognizedField { path, key: m[i].0.clone() });
                }
                i += 1;
            }
            assert(first_undeclared_from(views_of(m@), key_texts(keys@), m@.len() as int)
                is None);
            Ok(m)
        },
        _ => Err(mismatch_error(own_key(), Kind::Mapping, v)),
    }
}

/// The text of a text node.
pub fn read_text(key: &str, v: &Value) -> (r: Result<String, DecodeError>)
    ensures
        match r {
            Ok(t) => as_text(key@, v@) == Ok::<_, DecodeErrorView>(t@),
            Err(e) => as_text(key@, v@) == Err::<Seq<char>, _>(e@),
        },
{
    match v {
        Value::Text(t) => Ok(t.clone()),
        _ => Err(mismatch_error(key, Kind::Text, v)),
    }
}

/// The boolean of a boolean node.
pub fn read_flag(key: &str, v: &Value) -> (r: Result<bool, DecodeError>)
    ensures
        match r {
            Ok(b) => as_flag(key@, v@) == Ok::<_, DecodeErrorView>(b),
            Err(e) => as_flag(key@, v@) == Err::<bool, _>(e@),
        },
{
    match v {
        Value::Bool(b) => Ok(*b),
        _ => Err(mismatch_error(key, Kind::Bool, v)),
    }
}

/// The number of an integer node, where it fits 32 bits.
pub fn read_int32(key: &str, v: &Value) -> (r: Result<i32, DecodeError>)
    ensures
        match r {
            Ok(n) => as_int32(key@, v@) == Ok::<_, DecodeErrorView>(n),
            Err(e) => as_int32(key@, v@) == Err::<i32, _>(e@),
        },
{
    match v {
        Value::Integer(n) => {
            if -0x8000_0000 <= *n && *n <= 0x7fff_ffff {
                Ok(*n as i32)
            } else {
                Err(mismatch_error(key, Kind::Integer, v))
            }
        },
        _ => Err(mismatch_error(key, Kind::Integer, v)),
    }
}

/// The items of a list node.
pub fn read_list<'a>(key: &str, v: &'a Value) -> (r: Result<&'a Vec<Value>, DecodeError>)
    ensures
        match r {
            Ok(items) => as_list(key@, v@) == Ok::<_, DecodeErrorView>(views_of(items@)),
            Err(e) => as_list(key@, v@) == Err::<Seq<ValueView>, _>(e@),
        },
{
    match v {
        Value::List(items) => {
            proof {
                lemma_list_view(*items);
            }
            Ok(items)
        },
        _ => Err(mismatch_error(key, Kind::List, v)),
    }
}

/// A copy of the entries of a mapping node.
pub fn read_mapping(key: &str, v: &Value) -> (r: Result<Vec<(String, Value)>, DecodeError>)
    ensures
        match r {
            Ok(m) => as_mapping(key@, v@) == Ok::<_, DecodeErrorView>(views_of(m@)),
            Err(e) => as_mapping(key@, v@) == Err::<Seq<(Seq<char>, ValueView)>, _>(e@),
        },
{
    match v {
        Value::Mapping(m) => {
            proof {
                lemma_mapping_view(*m);
            }
            Ok(clone_entries(m))
        },
        _ => Err(mismatch_error(key, Kind::Mapping, v)),
    }
}

/// The texts of a list of text nodes.
#[verifier::loop_isolation(false)]
pub fn read_texts(key: &str, v: &Value) -> (r: Result<Vec<String>, DecodeError>)
    ensures
        match r {
            Ok(ts) => as_texts(key@, v@) == Ok::<_, DecodeErrorView>(views_of(ts@)),
            Err(e) => as_texts(key@, v@) == Err::<Seq<Seq<char>>, _>(e@),
        },
{
    match v {
        Value::List(items) => {
            proof {
                lemma_list_view(*items);
            }
            let ghost iv = views_of(items@);
            let mut out: Vec<String> = Vec::new();
            let mut i: usize = 0;
            while i < items.len()
                invariant
                    i <= items@.len(),
                    iv == views_of(items@),
                    out@.len() == i,
                    first_non_text_from(iv, 0) == first_non_text_from(iv, i as int),
                    forall|j: int| 0 <= j < i ==> iv[j] is Text && out@[j]@ == iv[j]->Text_0,
                decreases items@.len() - i,
            {
                match &items[i] {
                    Value::Text(t) => {
                        out.push(t.clone());
                    },
                    other => {
                        return Err(mismatch_error(key, Kind::Text, other));
                    },
                }
                i += 1;
            }
            assert(views_of(out@) =~= Seq::new(iv.len(), |i: int| iv[i]->Text_0));
            Ok(out)
        },
        _ => Err(mismatch_error(key, Kind::List, v)),
    }
}

/// The keys and texts of a mapping whose values are text nodes.
#[verifier::loop_isolation(false)]
pub fn read_text_pairs(key: &str, v: &Value) -> (r: Result<Vec<(String, String)>, DecodeError>)
    ensures
        match r {
            Ok(ps) => as_text_pairs(key@, v@) == Ok::<_, DecodeErrorView>(views_of(ps@)),
            Err(e) => as_text_pairs(key@, v@) == Err::<Seq<(Seq<char>, Seq<char>)>, _>(e@),
        },
{
    match v {
        Value::Mapping(m) => {
            proof {
                lemma_mapping_view(*m);
            }
            let ghost mv = views_of(m@);
            let mut out: Vec<(String, String)> = Vec::new();
            let mut i: usize = 0;
            while i < m.len()
                invariant
                    i <= m@.len(),
                    mv == views_of(m@),
                    out@.len() == i,
                    first_non_text_entry_from(mv, 0) == first_non_text_entry_from(mv, i as int),
                    forall|j: int|
                        0 <= j < i ==> mv[j].1 is Text && out@[j].0@ == mv[j].0 && out@[j].1@
                            == mv[j].1->Text_0,
                decreases m@.len() - i,
            {
                match &m[i].1 {
                    Value::Text(t) => {
                        out.push((m[i].0.clone(), t.clone()));
                    },
                    other => {
                        return Err(mismatch_error(key, Kind::Text, other));
                    },
                }
                i += 1;
            }
            assert(views_of(out@) =~= Seq::new(mv.len(), |i: int| (mv[i].0, mv[i].1->Text_0)));
            Ok(out)
        },
        _ => Err(mismatch_error(key, Kind::Mapping, v)),
    }
}

/// A required text field.
pub fn get_text(m: &Vec<(String, Value)>, key: &str) -> (r: Result<String, DecodeError>)
    ensures
        match r {
            Ok(t) => text_field(views_of(m@), key@) == Ok::<_, DecodeErrorView>(t@),
            Err(e) => text_field(views_of(m@), key@) == Err::<Seq<char>, _>(e@),
        },
{
    match find(m, key) {
        None => Err(missing_error(key)),
        Some(v) => read_text(key, v),
    }
}

/// An optional text field.
pub fn get_opt_text(m: &Vec<(String, Value)>, key: &str) -> (r: Result<Option<String>, DecodeError>)
    ensures
        match r {
            Ok(t) => opt_text_field(views_of(m@), key@) == Ok::<_, DecodeErrorView>(opt_text(t)),
            Err(e) => opt_text_field(views_of(m@), key@) == Err::<Option<Seq<char>>, _>(e@),
        },
{
    match find_present(m, key) {
        None => Ok(None),
        Some(v) => match read_text(key, v) {
            Ok(t) => Ok(Some(t)),
            Err(e) => Err(e),
        },
    }
}

/// A required boolean field.
pub fn get_flag(m: &Vec<(String, Value)>, key: &str) -> (r: Result<bool, DecodeError>)
    ensures
        match r {
            Ok(b) => flag_field(views_of(m@), key@) == Ok::<_, DecodeErrorView>(b),
            Err(e) => flag_field(views_of(m@), key@) == Err::<bool, _>(e@),
        },
{
    match find(m, key) {
        None => Err(missing_error(key)),
        Some(v) => read_flag(key, v),
    }
}

/// A boolean field that is `false` where the key is absent.
pub fn get_flag_or_false(m: &Vec<(String, Value)>, key: &str) -> (r: Result<bool, DecodeError>)
    ensures
        match r {
            Ok(b) => flag_field_or_false(views_of(m@), key@) == Ok::<_, DecodeErrorView>(b),
            Err(e) => flag_field_or_false(views_of(m@), key@) == Err::<bool, _>(e@),
        },
{
    match find(m, key) {
        None => Ok(false),
        Some(v) => read_flag(key, v),
    }
}

/// An optional 32-bit integer field.
pub fn get_opt_int32(m: &Vec<(String, Value)>, key: &str) -> (r: Result<Option<i32>, DecodeError>)
    ensures
        match r {
            Ok(n) => opt_int32_field(views_of(m@), key@) == Ok::<_, DecodeErrorView>(n),
            Err(e) => opt_int32_field(views_of(m@), key@) == Err::<Option<i32>, _>(e@),
        },
{
    match find_present(m, key) {
        None => Ok(None),
        Some(v) => match read_int32(key, v) {
            Ok(n) => Ok(Some(n)),
            Err(e) => Err(e),
        },
    }
}

/// A list of texts that is empty where the key is absent.
pub fn get_texts(m: &Vec<(String, Value)>, key: &str) -> (r: Result<Vec<String>, DecodeError>)
    ensures
        match r {
            Ok(ts) => texts_field(views_of(m@), key@) == Ok::<_, DecodeErrorView>(views_of(ts@)),
            Err(e) => texts_field(views_of(m@), key@) == Err::<Seq<Seq<char>>, _>(e@),
        },
{
    match find(m, key) {
        None => {
            let out: Vec<String> = Vec::new();
            assert(views_of(out@) =~= Seq::<Seq<char>>::empty());
            Ok(out)
        },
        Some(v) => read_texts(key, v),
    }
}

/// A mapping with text values.
pub fn get_text_pairs(m: &Vec<(String, Value)>, key: &str, required: bool) -> (r: Result<
    Vec<(String, String)>,
    DecodeError,
>)
    ensures
        match r {
            Ok(ps) => text_pairs_field(views_of(m@), key@, required) == Ok::<_, DecodeErrorView>(
                views_of(ps@),
            ),
            Err(e) => text_pairs_field(views_of(m@), key@, required) == Err::<
                Seq<(Seq<char>, Seq<char>)>,
                _,
            >(e@),
        },
{
    match find(m, key) {
        None => {
            if required {
                Err(missing_error(key))
            } else {
                let out: Vec<(String, String)> = Vec::new();
                assert(views_of(out@) =~= Seq::<(Seq<char>, Seq<char>)>::empty());
                Ok(out)
            }
        },
        Some(v) => read_text_pairs(key, v),
    }
}

/// A mapping of arbitrary values that is empty where the key is absent.
pub fn get_mapping(m: &Vec<(String, Value)>, key: &str) -> (r: Result<
    Vec<(String, Value)>,
    DecodeError,
>)
    ensures
        match r {
            Ok(es) => mapping_field(views_of(m@), key@) == Ok::<_, DecodeErrorView>(views_of(es@)),
            Err(e) => mapping_field(views_of(m@), key@) == Err::<Seq<(Seq<char>, ValueView)>, _>(
                e@,
            ),
        },
{
    match find(m, key) {
        None => {
            let out: Vec<(String, Value)> = Vec::new();
            assert(views_of(out@) =~= Seq::<(Seq<char>, ValueView)>::empty());
            Ok(out)
        },
        Some(v) => read_mapping(key, v),
    }
}

/// An optional field of any kind; it is never refused.
pub fn get_opt_value(m: &Vec<(String, Value)>, key: &str) -> (r: Result<Option<Value>, DecodeError>)
    ensures
        r matches Ok(x) && opt_value_field(views_of(m@), key@) == Ok::<_, DecodeErrorView>(
            opt_view(x),
        ),
{
    match find_present(m, key) {
        None => Ok(None),
        Some(v) => Ok(Some(v.clone())),
    }
}

/// Every item decoded as a `T`, in order.
pub fn decode_items<T: Decode>(items: &Vec<Value>) -> (r: Result<Vec<T>, DecodeError>)
    ensures
        match r {
            Ok(xs) => decoded_items::<T>(views_of(items@)) == Ok::<_, DecodeErrorView>(
                views_of(xs@),
            ),
            Err(e) => decoded_items::<T>(views_of(items@)) == Err::<Seq<T::V>, _>(e@),
        },
{
    let ghost iv = views_of(items@);
    let mut out: Vec<T> = Vec::new();
    let mut i: usize = 0;
    while i < items.len()
        invariant
            i <= items@.len(),
            iv == views_of(items@),
            out@.len() == i,
            first_failure_from::<T>(iv, 0) == first_failure_from::<T>(iv, i as int),
            forall|j: int| 0 <= j < i ==> T::decoded(iv[j]) == Ok::<_, DecodeErrorView>(out@[j]@),
        decreases items@.len() - i,
    {
        match T::decode(&items[i]) {
            Ok(x) => {
                out.push(x);
            },
            Err(e) => {
                return Err(e.under(Segment::Item(i)));
            },
        }
        i += 1;
    }
    assert(views_of(out@) =~= Seq::new(iv.len(), |i: int| T::decoded(iv[i])->Ok_0));
    Ok(out)
}

/// A list field whose items are decoded as `T`.
pub fn get_items<T: Decode>(m: &Vec<(String, Value)>, key: &str, required: bool) -> (r: Result<
    Vec<T>,
    DecodeError,
>)
    ensures
        match r {
            Ok(xs) => items_field::<T>(views_of(m@), key@, required) == Ok::<_, DecodeErrorView>(
                views_of(xs@),
            ),
            Err(e) => items_field::<T>(views_of(m@), key@, required) == Err::<Seq<T::V>, _>(e@),
        },
{
    match find(m, key) {
        None => {
            if required {
                Err(missing_error(key))
            } else {
                let out: Vec<T> = Vec::new();
                assert(views_of(out@) =~= Seq::<T::V>::empty());
                assert(decoded_items::<T>(Seq::empty()) == Ok::<_, DecodeErrorView>(
                    views_of(out@),
                )) by {
                    assert(Seq::new(0, |i: int| T::decoded(Seq::<ValueView>::empty()[i])->Ok_0)
                        =~= Seq::<T::V>::empty());
                }
                Ok(out)
            }
        },
        Some(v) => match read_list(key, v) {
            Err(e) => Err(e),
            Ok(items) => match decode_items::<T>(items) {
                Ok(xs) => Ok(xs),
                Err(e) => Err(e.under(Segment::Key(key.to_owned()))),
            },
        },
    }
}

/// A required field that is decoded as a `T`.
pub fn get_nested<T: Decode>(m: &Vec<(String, Value)>, key: &str) -> (r: Result<T, DecodeError>)
    ensures
        match r {
            Ok(x) => nested_field::<T>(views_of(m@), key@) == Ok::<_, DecodeErrorView>(x@),
            Err(e) => nested_field::<T>(views_of(m@), key@) == Err::<T::V, _>(e@),
        },
{
    match find(m, key) {
        None => Err(missing_error(key)),
        Some(v) => match T::decode(v) {
            Ok(x) => Ok(x),
            Err(e) => Err(e.under(Segment::Key(key.to_owned()))),
        },
    }
}

/// An optional field that is decoded as a `T`.
pub fn get_opt_nested<T: Decode>(m: &Vec<(String, Value)>, key: &str) -> (r: Result<
    Option<T>,
    DecodeError,
>)
    ensures
        match r {
            Ok(x) => opt_nested_field::<T>(views_of(m@), key@) == Ok::<_, DecodeErrorView>(
                opt_view(x),
            ),
            Err(e) => opt_nested_field::<T>(views_of(m@), key@) == Err::<Option<T::V>, _>(e@),
        },
{
    match find_present(m, key) {
        None => Ok(None),
        Some(v) => match T::decode(v) {
            Ok(x) => Ok(Some(x)),
            Err(e) => Err(e.under(Segment::Key(key.to_owned()))),
        },
    }
}

} // verus!
