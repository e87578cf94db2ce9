//! Untyped document trees: the input of every decoder.

use vstd::prelude::*;

verus! {

/// The kind of a document node.
#[derive(Clone, Copy, Debug, PartialEq, Eq, Structural)]
pub enum Kind {
    Null,
    Bool,
    Integer,
    Real,
    Text,
    List,
    Mapping,
}

/// A document node. A mapping keeps its entries in document order.
#[derive(Debug, PartialEq)]
pub enum Value {
    Null,
    Bool(bool),
    /// A number that fits a signed 64-bit integer.
    Integer(i64),
    /// Any other number, kept as its decimal text.
    Real(String),
    Text(String),
    List(Vec<Value>),
    Mapping(Vec<(String, Value)>),
}

/// The mathematical value of a document node.
pub ghost enum ValueView {
    Null,
    Bool(bool),
    Integer(i64),
    Real(Seq<char>),
    Text(Seq<char>),
    List(Seq<ValueView>),
    Mapping(Seq<(Seq<char>, ValueView)>),
}

/// The value of a node: texts by their characters, lists and mappings item
/// by item in document order.
pub open spec fn value_view(v: Value) -> ValueView
    decreases v,
{
    match v {
        Value::Null => ValueView::Null,
        Value::Bool(b) => ValueView::Bool(b),
        Value::Integer(n) => ValueView::Integer(n),
        Value::Real(t) => ValueView::Real(t@),
        Value::Text(t) => ValueView::Text(t@),
        Value::List(items) => ValueView::List(
            Seq::new(
                items@.len(),
                |i: int|
                    if 0 <= i < items@.len() {
                        value_view(items@[i])
                    } else {
                        ValueView::Null
                    },
            ),
        ),
        Value::Mapping(entries) => ValueView::Mapping(
            Seq::new(
                entries@.len(),
                |i: int|
                    if 0 <= i < entries@.len() {
                        (entries@[i].0@, value_view(entries@[i].1))
                    } else {
                        (Seq::empty(), ValueView::Null)
                    },
            ),
        ),
    }
}

impl View for Value {
    type V = ValueView;

    open spec fn view(&self) -> ValueView {
        value_view(*self)
    }
}

/// No key occurs twice among the entries.
pub open spec fn distinct_keys<V>(m: Seq<(Seq<char>, V)>) -> bool {
    forall|i: int, j: int| 0 <= i < j < m.len() ==> m[i].0 != m[j].0
}

/// Every mapping of the tree holds each of its keys once. A tree that was
/// read from a document is of this form; the decoders take any tree, and
/// where a key occurs twice they go by its first entry.
pub open spec fn well_formed(v: ValueView) -> bool
    decreases v,
{
    match v {
        ValueView::List(items) => forall|i: int|
            0 <= i < items.len() ==> well_formed(#[trigger] items[i]),
        ValueView::Mapping(m) => distinct_keys(m) && forall|i: int|
            0 <= i < m.len() ==> well_formed((#[trigger] m[i]).1),
        _ => true,
    }
}

impl ValueView {
    /// The kind of this node.
    pub open spec fn kind(self) -> Kind {
        match self {
            ValueView::Null => Kind::Null,
            ValueView::Bool(_) => Kind::Bool,
            ValueView::Integer(_) => Kind::Integer,
            ValueView::Real(_) => Kind::Real,
            ValueView::Text(_) => Kind::Text,
            ValueView::List(_) => Kind::List,
            ValueView::Mapping(_) => Kind::Mapping,
        }
    }
}

impl Value {
    /// The kind of this node.
    pub fn kind(&self) -> (k: Kind)
        ensures
            k == self@.kind(),
    {
        match self {
            Value::Null => Kind::Null,
            Value::Bool(_) => Kind::Bool,
            Value::Integer(_) => Kind::Integer,
            Value::Real(_) => Kind::Real,
            Value::Text(_) => Kind::Text,
            Value::List(_) => Kind::List,
            Value::Mapping(_) => Kind::Mapping,
        }
    }

    /// The text of a text node, and `None` for every other kind.
    pub fn as_str(&self) -> (r: Option<&str>)
        ensures
            match self@ {
                ValueView::Text(t) => r matches Some(s) && s@ == t,
                _ => r is None,
            },
    {
        match self {
            Value::Text(t) => Some(t.as_str()),
            _ => None,
        }
    }
}

/// Whether no key occurs twice among the entries.
pub fn has_distinct_keys(m: &Vec<(String, Value)>) -> (b: bool)
    ensures
        b == distinct_keys(views_of(m@)),
{
    let mut j: usize = 0;
    while j < m.len()
        invariant
            j <= m@.len(),
            forall|a: int, b: int| 0 <= a < b < j ==> m@[a].0@ != m@[b].0@,
        decreases m@.len() - j,
    {
        let mut i: usize = 0;
        while i < j
            invariant
                i <= j < m@.len(),
                forall|a: int| 0 <= a < i ==> m@[a].0@ != m@[j as int].0@,
            decreases j - i,
        {
            if same_text(m[i].0.as_str(), m[j].0.as_str()) {
                assert(views_of(m@)[i as int].0 == views_of(m@)[j as int].0);
                return false;
            }
            i += 1;
        }
        j += 1;
    }
    assert forall|a: int, b: int| 0 <= a < b < views_of(m@).len() implies views_of(m@)[a].0
        != views_of(m@)[b].0 by {
        assert(m@[a].0@ != m@[b].0@);
    }
    true
}

/// Whether every mapping of the tree holds each of its keys once.
#[verifier::loop_isolation(false)]
pub fn is_well_formed(v: &Value) -> (b: bool)
    ensures
        b == well_formed(v@),
    decreases v,
{
    match v {
        Value::List(items) => {
            proof {
                lemma_list_view(*items);
            }
            let mut i: usize = 0;
            while i < items.len()
                invariant
                    i <= items@.len(),
                    forall|j: int| 0 <= j < i ==> well_formed(#[trigger] views_of(items@)[j]),
                decreases items@.len() - i,
            {
                if !is_well_formed(&items[i]) {
                    assert(!well_formed(v@->List_0[i as int]));
                    return false;
                }
                i += 1;
            }
            true
        },
        Value::Mapping(m) => {
            proof {
                lemma_mapping_view(*m);
            }
            if !has_distinct_keys(m) {
                return false;
            }
            let mut i: usize = 0;
            while i < m.len()
                invariant
                    i <= m@.len(),
                    forall|j: int| 0 <= j < i ==> well_formed((#[trigger] views_of(m@)[j]).1),
                decreases m@.len() - i,
            {
                if !is_well_formed(&m[i].1) {
                    assert(!well_formed(v@->Mapping_0[i as int].1));
                    return false;
                }
                i += 1;
            }
            true
        },
        _ => true,
    }
}

impl Clone for Value {
    #[verifier::loop_isolation(false)]
    fn clone(&self) -> (r: Value)
        ensures
            r@ == self@,
        decreases self,
    {
        match self {
            Value::Null => Value::Null,
            Value::Bool(b) => Value::Bool(*b),
            Value::Integer(n) => Value::Integer(*n),
            Value::Real(t) => Value::Real(t.clone()),
            Value::Text(t) => Value::Text(t.clone()),
            Value::List(items) => {
                let mut out: Vec<Value> = Vec::new();
                let mut i: usize = 0;
                while i < items.len()
                    invariant
                        i <= items@.len(),
                        out@.len() == i,
                        forall|j: int| 0 <= j < i ==> out@[j]@ == items@[j]@,
                    decreases items@.len() - i,
                {
                    out.push(items[i].clone());
                    i += 1;
                }
                proof {
                    lemma_list_view(out);
                    lemma_list_view(*items);
                    assert(views_of(out@) =~= views_of(items@));
                }
                Value::List(out)
            },
            Value::Mapping(entries) => {
                let out = clone_entries(entries);
                proof {
                    lemma_mapping_view(out);
                    lemma_mapping_view(*entries);
                }
                Value::Mapping(out)
            },
        }
    }
}

/// A copy of a mapping's entries, in the same order.
pub fn clone_entries(entries: &Vec<(String, Value)>) -> (out: Vec<(String, Value)>)
    ensures
        views_of(out@) == views_of(entries@),
    decreases entries,
{
    let mut out: Vec<(String, Value)> = Vec::new();
    let mut i: usize = 0;
    while i < entries.len()
        invariant
            i <= entries@.len(),
            out@.len() == i,
            forall|j: int|
                0 <= j < i ==> out@[j].0@ == entries@[j].0@ && out@[j].1@ == entries@[j].1@,
        decreases entries@.len() - i,
    {
        out.push((entries[i].0.clone(), entries[i].1.clone()));
        i += 1;
    }
    assert(views_of(out@) =~= views_of(entries@));
    out
}

/// The views of a sequence of typed values, in order.
pub open spec fn views_of<T: View>(items: Seq<T>) -> Seq<T::V> {
    Seq::new(items.len(), |i: int| items[i]@)
}

/// A list node's value is the list of its items' values.
pub proof fn lemma_list_view(items: Vec<Value>)
    ensures
        Value::List(items)@ == ValueView::List(views_of(items@)),
{
    let whole = Value::List(items);
    assert(whole@->List_0.len() == items@.len());
    assert(whole@->List_0 =~= views_of(items@));
}

/// A mapping node's value is the list of its entries' keys and values.
pub proof fn lemma_mapping_view(entries: Vec<(String, Value)>)
    ensures
        Value::Mapping(entries)@ == ValueView::Mapping(views_of(entries@)),
{
    assert(Value::Mapping(entries)@->Mapping_0 =~= views_of(entries@));
}

/// Whether two texts hold the same characters.
pub fn same_text(a: &str, b: &str) -> (r: bool)
    ensures
        r == (a@ == b@),
{
    let x = a.as_bytes();
    let y = b.as_bytes();
    proof {
        vstd::utf8::encode_utf8_decode_utf8(a@);
        vstd::utf8::encode_utf8_decode_utf8(b@);
    }
    if x.len() != y.len() {
        return false;
    }
    let mut i: usize = 0;
    while i < x.len()
        invariant
            x@.len() == y@.len(),
            x@ == vstd::utf8::encode_utf8(a@),
            y@ == vstd::utf8::encode_utf8(b@),
            i <= x@.len(),
            forall|j: int| 0 <= j < i ==> x@[j] == y@[j],
        decreases x@.len() - i,
    {
        if x[i] != y[i] {
            return false;
        }
        i += 1;
    }
    assert(x@ =~= y@);
    true
}

} // verus!
