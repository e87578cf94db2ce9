//! The `dependsOn` property accepts a name or a list of names.

use crate::decode::{as_text, as_texts, result_view, Decode};
use crate::encode::{encoded_texts, lemma_texts_round_trip, put_text, put_texts, Encode};
use crate::error::{no_variant_of_two, DecodeError, DecodeErrorView, Shape};
use crate::fields::{own_key, read_text, read_texts};
use crate::value::{views_of, Value, ValueView};
use vstd::prelude::*;

verus! {

/// The predecessors of a stage or of a job.
#[derive(Clone, Debug, PartialEq)]
pub enum DependsOn {
    Single(String),
    Multi(Vec<String>),
}

pub ghost enum DependsOnView {
    Single(Seq<char>),
    Multi(Seq<Seq<char>>),
}

impl View for DependsOn {
    type V = DependsOnView;

    open spec fn view(&self) -> DependsOnView {
        match self {
            DependsOn::Single(name) => DependsOnView::Single(name@),
            DependsOn::Multi(names) => DependsOnView::Multi(views_of(names@)),
        }
    }
}

impl DependsOnView {
    /// The named predecessors, in the order they are written. Both forms
    /// mean the same: a single name is a list of one.
    pub open spec fn names(self) -> Seq<Seq<char>> {
        match self {
            DependsOnView::Single(name) => seq![name],
            DependsOnView::Multi(names) => names,
        }
    }
}

impl Decode for DependsOn {
    /// A text is a single name; otherwise a list of texts is a list of names.
    open spec fn decoded(v: ValueView) -> Result<DependsOnView, DecodeErrorView> {
        let single = as_text(Seq::empty(), v);
        let multi = as_texts(Seq::empty(), v);
        if single is Ok {
            Ok(DependsOnView::Single(single->Ok_0))
        } else if multi is Ok {
            Ok(DependsOnView::Multi(multi->Ok_0))
        } else {
            Err(
                DecodeErrorView::NoVariantMatched {
                    path: Seq::empty(),
                    shapes: seq![Shape::DependsOnSingle, Shape::DependsOnMulti],
                    errors: seq![single->Err_0, multi->Err_0],
                },
            )
        }
    }

    fn decode(v: &Value) -> (r: Result<DependsOn, DecodeError>)
        ensures
            result_view(r) == Self::decoded(v@),
    {
        match read_text(own_key(), v) {
            Ok(name) => Ok(DependsOn::Single(name)),
            Err(e1) => match read_texts(own_key(), v) {
                Ok(names) => Ok(DependsOn::Multi(names)),
                Err(e2) => Err(
                    no_variant_of_two(Shape::DependsOnSingle, e1, Shape::DependsOnMulti, e2),
                ),
            },
        }
    }
}

impl Encode for DependsOn {
    /// A single name is written as a text, a list of names as a list.
    open spec fn encoded(x: DependsOnView) -> ValueView {
        match x {
            DependsOnView::Single(name) => ValueView::Text(name),
            DependsOnView::Multi(names) => encoded_texts(names),
        }
    }

    fn encode(&self) -> (v: Value)
        ensures
            v@ == Self::encoded(self@),
    {
        match self {
            DependsOn::Single(name) => put_text(name),
            DependsOn::Multi(names) => put_texts(names),
        }
    }

    proof fn lemma_encoded_is_not_null(x: DependsOnView)
        ensures
            !(Self::encoded(x) is Null),
    {
    }

    /// Of a node that is accepted: decoding it, encoding what was read and
    /// decoding that gives what the first decoding gave.
    proof fn round_trip(v: ValueView)
        ensures
            Self::decoded(Self::encoded(Self::decoded(v)->Ok_0)) == Self::decoded(v),
    {
        match Self::decoded(v)->Ok_0 {
            DependsOnView::Single(_) => {},
            DependsOnView::Multi(names) => lemma_texts_round_trip(Seq::empty(), names),
        }
    }
}

} // verus!
