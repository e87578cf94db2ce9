//! An entry point whose parameters are a list of stages.

use crate::decode::{items_field, key_texts, opened, result_view, Decode};
use crate::encode::{
    encoded_items, field, lemma_entries_accepted, lemma_entries_refused,
    lemma_items_field_round_trip, lemma_lookup_at, put_items, Encode,
};
use crate::error::{DecodeError, DecodeErrorView};
use crate::fields::{get_items, open_shape};
use crate::schema::v1::stage::{Stage, StageView};
use crate::templates::parameterized::Parameterized;
use crate::value::{clone_entries, lemma_mapping_view, views_of, Value, ValueView};
use vstd::prelude::*;

verus! {

/// The example entry point: a template that takes a list of stages.
#[derive(Clone, Copy, Debug, PartialEq, Eq, Default)]
pub struct ExampleEntrypoint {}

/// The parameters of the example entry point.
#[derive(Clone, Debug, PartialEq, Default)]
pub struct ExampleEntrypointParameters {
    /// The stages handed to the template
    pub stages: Vec<Stage>,
}

pub ghost struct ExampleEntrypointParametersView {
    pub stages: Seq<StageView>,
}

impl View for ExampleEntrypointParameters {
    type V = ExampleEntrypointParametersView;

    open spec fn view(&self) -> ExampleEntrypointParametersView {
        ExampleEntrypointParametersView {
            stages: views_of(self.stages@),
        }
    }
}

impl ExampleEntrypointParameters {
    /// The keys of the parameters of the example entry point.
    pub open spec fn keys() -> Seq<Seq<char>> {
        seq![
            "stages"@,
        ]
    }

    /// The entries of the document form of the parameters of the example entry point.
    pub open spec fn entries(x: ExampleEntrypointParametersView) -> Seq<(Seq<char>, ValueView)> {
        seq![
            ("stages"@, encoded_items::<Stage>(x.stages)),
        ]
    }

    /// The keys of the parameters of the example entry point differ from one another.
    pub proof fn lemma_keys_distinct()
        ensures
            forall|i: int, j: int|
                0 <= i < j < Self::keys().len() ==> Self::keys()[i] != Self::keys()[j],
    {
        reveal_strlit("stages");
        assert("stages"@.len() == 6);
    }

    /// A mapping with a key outside the keys of the parameters of the example
    /// entry point is refused for a key outside them, whatever else it holds.
    pub proof fn law_undeclared_key_is_refused(m: Seq<(Seq<char>, ValueView)>, i: int)
        requires
            0 <= i < m.len(),
            !Self::keys().contains(m[i].0),
        ensures
            Self::decoded(ValueView::Mapping(m)) matches Err(
                DecodeErrorView::UnrecognizedField { path, key },
            ) && path.len() == 0 && !Self::keys().contains(key),
    {
        lemma_entries_refused(m, Self::keys(), i);
    }
}

impl Decode for ExampleEntrypointParameters {
    open spec fn decoded(v: ValueView) -> Result<ExampleEntrypointParametersView, DecodeErrorView> {
        match opened(v, Self::keys()) {
            Err(e) => Err(e),
            Ok(m) => {
                let stages = items_field::<Stage>(m, "stages"@, true);
                if stages is Err {
                    Err(stages->Err_0)
                } else {
                    Ok(
                        ExampleEntrypointParametersView {
                            stages: stages->Ok_0,
                        },
                    )
                }
            },
        }
    }

    fn decode(v: &Value) -> (r: Result<ExampleEntrypointParameters, DecodeError>)
        ensures
            result_view(r) == Self::decoded(v@),
    {
        let keys = ["stages"];
        assert(key_texts(keys@) =~= Self::keys());
        let m = open_shape(v, &keys)?;
        let stages = get_items::<Stage>(m, "stages", true)?;
        Ok(ExampleEntrypointParameters { stages })
    }
}

impl Encode for ExampleEntrypointParameters {
    open spec fn encoded(x: ExampleEntrypointParametersView) -> ValueView {
        ValueView::Mapping(Self::entries(x))
    }

    fn encode(&self) -> (v: Value)
        ensures
            v@ == Self::encoded(self@),
    {
        let mut entries: Vec<(String, Value)> = Vec::new();
        entries.push(field("stages", put_items::<Stage>(&self.stages)));
        proof {
            lemma_mapping_view(entries);
            assert(views_of(entries@) =~= Self::entries(self@));
        }
        Value::Mapping(entries)
    }

    proof fn lemma_encoded_is_not_null(x: ExampleEntrypointParametersView)
        ensures
            !(Self::encoded(x) is Null),
    {
    }

    /// Of a node that is accepted: decoding it, encoding what was read and
    /// decoding that gives what the first decoding gave.
    proof fn round_trip(v: ValueView)
        ensures
            Self::decoded(Self::encoded(Self::decoded(v)->Ok_0)) == Self::decoded(v),
    {
        let m = opened(v, Self::keys())->Ok_0;
        let x = Self::decoded(v)->Ok_0;
        let e = Self::entries(x);
        Self::lemma_keys_distinct();
        assert(e.len() == Self::keys().len());
        assert forall|i: int| 0 <= i < e.len() implies (#[trigger] e[i]).0 == Self::keys()[i] by {}
        lemma_entries_accepted(e, Self::keys());
        lemma_lookup_at(e, 0);
        lemma_items_field_round_trip::<Stage>(m, "stages"@, true);
    }
}

impl Parameterized for ExampleEntrypoint {
    type Parameters = ExampleEntrypointParameters;

    /// The parameters are what decoding the mapping as
    /// [`ExampleEntrypointParameters`] gives.
    fn get_parameters(parameters: &Vec<(String, Value)>) -> (r: Result<
        ExampleEntrypointParameters,
        DecodeError,
    >)
        ensures
            result_view(r) == ExampleEntrypointParameters::decoded(
                ValueView::Mapping(views_of(parameters@)),
            ),
    {
        let node = Value::Mapping(clone_entries(parameters));
        proof {
            lemma_mapping_view(node->Mapping_0);
        }
        ExampleEntrypointParameters::decode(&node)
    }
}

} // verus!
