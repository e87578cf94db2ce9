//! Templates that take parameters.

use crate::decode::lookup;
use crate::error::DecodeError;
use crate::fields::find;
use crate::value::{clone_entries, lemma_mapping_view, views_of, Value, ValueView};
use vstd::prelude::*;

verus! {

/// A template whose parameters have a shape of their own. What an
/// implementation reads from the parameter mapping, and when it refuses it,
/// is for the implementation to say.
pub trait Parameterized {
    /// The typed parameters of the template.
    type Parameters;

    /// Reads the template's parameters from the entries of a parameter
    /// mapping.
    fn get_parameters(parameters: &Vec<(String, Value)>) -> (r: Result<
        Self::Parameters,
        DecodeError,
    >);
}

/// The parameters that a pipeline document hands to the template it
/// extends: the entries of the mapping under `parameters` in the mapping
/// under `extends`. Where the document holds no such mapping there are none.
pub open spec fn template_parameters_of(document: ValueView) -> Seq<(Seq<char>, ValueView)> {
    match document {
        ValueView::Mapping(root) => match lookup(root, "extends"@) {
            Some(ValueView::Mapping(extends)) => match lookup(extends, "parameters"@) {
                Some(ValueView::Mapping(parameters)) => parameters,
                _ => Seq::empty(),
            },
            _ => Seq::empty(),
        },
        _ => Seq::empty(),
    }
}

/// A copy of the parameters that a pipeline document hands to the template
/// it extends.
pub fn template_parameters(document: &Value) -> (r: Vec<(String, Value)>)
    ensures
        views_of(r@) == template_parameters_of(document@),
{
    if let Value::Mapping(root) = document {
        proof {
            lemma_mapping_view(*root);
        }
        if let Some(Value::Mapping(extends)) = find(root, "extends") {
            proof {
                lemma_mapping_view(*extends);
            }
            if let Some(Value::Mapping(parameters)) = find(extends, "parameters") {
                proof {
                    lemma_mapping_view(*parameters);
                }
                return clone_entries(parameters);
            }
        }
    }
    let none: Vec<(String, Value)> = Vec::new();
    assert(views_of(none@) =~= Seq::<(Seq<char>, ValueView)>::empty());
    none
}

} // verus!
