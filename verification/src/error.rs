//! Why a document node was refused by a decoder.

use crate::value::{views_of, Kind};
use vstd::prelude::*;

verus! {

/// The shapes that a polymorphic node is tried against.
#[derive(Clone, Copy, Debug, PartialEq, Eq, Structural)]
pub enum Shape {
    StageWithJobs,
    StageTemplate,
    JobWithSteps,
    JobTemplate,
    Checkout,
    Task,
    StepTemplate,
    TriggerDisabled,
    TriggerFull,
    ResourceTriggerSimple,
    ResourceTriggerFull,
    DependsOnSingle,
    DependsOnMulti,
    VariableGroup,
    ValueVariable,
}

/// One step of the way from a node to a node inside it.
#[derive(Clone, Debug, PartialEq, Eq)]
pub enum Segment {
    /// To the value under a key of a mapping.
    Key(String),
    /// To the item at a position of a list.
    Item(usize),
}

/// The mathematical value of a [`Segment`].
pub ghost enum SegmentView {
    Key(Seq<char>),
    Item(int),
}

impl View for Segment {
    type V = SegmentView;

    open spec fn view(&self) -> SegmentView {
        match self {
            Segment::Key(key) => SegmentView::Key(key@),
            Segment::Item(i) => SegmentView::Item(*i as int),
        }
    }
}

/// A decoding failure. `path` leads from the node that was handed to the
/// decoder to the node at fault, and is empty where they are the same.
/// `key` names the field of that node at fault; it is empty where the node
/// itself is of the wrong kind.
#[derive(Debug, PartialEq)]
pub enum DecodeError {
    /// A required key is absent.
    MissingRequiredField { path: Vec<Segment>, key: String },
    /// A key that the shape does not declare is present.
    UnrecognizedField { path: Vec<Segment>, key: String },
    /// A value is not of the kind that its field takes. An integer outside
    /// the range of its field is reported here too.
    TypeMismatch { path: Vec<Segment>, key: String, expected: Kind, actual: Kind },
    /// Every candidate shape of a polymorphic node refused it: the shapes in
    /// the order they were tried, and the failure of each.
    NoVariantMatched { path: Vec<Segment>, shapes: Vec<Shape>, errors: Vec<DecodeError> },
}

/// The mathematical value of a [`DecodeError`].
pub ghost enum DecodeErrorView {
    MissingRequiredField { path: Seq<SegmentView>, key: Seq<char> },
    UnrecognizedField { path: Seq<SegmentView>, key: Seq<char> },
    TypeMismatch { path: Seq<SegmentView>, key: Seq<char>, expected: Kind, actual: Kind },
    NoVariantMatched { path: Seq<SegmentView>, shapes: Seq<Shape>, errors: Seq<DecodeErrorView> },
}

/// The value of a failure: keys by their characters, nested failures in order.
pub open spec fn decode_error_view(e: DecodeError) -> DecodeErrorView
    decreases e,
{
    match e {
        DecodeError::MissingRequiredField { path, key } => DecodeErrorView::MissingRequiredField {
            path: views_of(path@),
            key: key@,
        },
        DecodeError::UnrecognizedField { path, key } => DecodeErrorView::UnrecognizedField {
            path: views_of(path@),
            key: key@,
        },
        DecodeError::TypeMismatch { path, key, expected, actual } => DecodeErrorView::TypeMismatch {
            path: views_of(path@),
            key: key@,
            expected,
            actual,
        },
        DecodeError::NoVariantMatched { path, shapes, errors } => DecodeErrorView::NoVariantMatched {
            path: views_of(path@),
            shapes: shapes@,
            errors: Seq::new(
                errors@.len(),
                |i: int|
                    if 0 <= i < errors@.len() {
                        decode_error_view(errors@[i])
                    } else {
                        DecodeErrorView::NoVariantMatched {
                            path: Seq::empty(),
                            shapes: Seq::empty(),
                            errors: Seq::empty(),
                        }
                    },
            ),
        },
    }
}

impl View for DecodeError {
    type V = DecodeErrorView;

    open spec fn view(&self) -> DecodeErrorView {
        decode_error_view(*self)
    }
}

impl DecodeErrorView {
    /// The same failure, seen from the node that `segment` starts at: the
    /// way to the node at fault begins with `segment`.
    pub open spec fn under(self, segment: SegmentView) -> DecodeErrorView {
        match self {
            DecodeErrorView::MissingRequiredField { path, key } => {
                DecodeErrorView::MissingRequiredField { path: path.insert(0, segment), key }
            },
            DecodeErrorView::UnrecognizedField { path, key } => DecodeErrorView::UnrecognizedField {
                path: path.insert(0, segment),
                key,
            },
            DecodeErrorView::TypeMismatch { path, key, expected, actual } => {
                DecodeErrorView::TypeMismatch { path: path.insert(0, segment), key, expected, actual }
            },
            DecodeErrorView::NoVariantMatched { path, shapes, errors } => {
                DecodeErrorView::NoVariantMatched { path: path.insert(0, segment), shapes, errors }
            },
        }
    }
}

/// A path that begins with `segment` and goes on as `path`.
fn begin_with(path: Vec<Segment>, segment: Segment) -> (r: Vec<Segment>)
    ensures
        views_of(r@) == views_of(path@).insert(0, segment@),
{
    let mut r = path;
    r.insert(0, segment);
    assert(views_of(r@) =~= views_of(path@).insert(0, segment@));
    r
}

impl DecodeError {
    /// The same failure, seen from the node that `segment` starts at.
    pub fn under(self, segment: Segment) -> (r: DecodeError)
        ensures
            r@ == self@.under(segment@),
    {
        match self {
            DecodeError::MissingRequiredField { path, key } => DecodeError::MissingRequiredField {
                path: begin_with(path, segment),
                key,
            },
            DecodeError::UnrecognizedField { path, key } => DecodeError::UnrecognizedField {
                path: begin_with(path, segment),
                key,
            },
            DecodeError::TypeMismatch { path, key, expected, actual } => DecodeError::TypeMismatch {
                path: begin_with(path, segment),
                key,
                expected,
                actual,
            },
            DecodeError::NoVariantMatched { path, shapes, errors } => DecodeError::NoVariantMatched {
                path: begin_with(path, segment),
                shapes,
                errors,
            },
        }
    }
}

/// The failure of a node with two candidate shapes.
pub fn no_variant_of_two(s1: Shape, e1: DecodeError, s2: Shape, e2: DecodeError) -> (r:
    DecodeError)
    ensures
        r@ == (DecodeErrorView::NoVariantMatched {
            path: Seq::empty(),
            shapes: seq![s1, s2],
            errors: seq![e1@, e2@],
        }),
{
    let mut shapes: Vec<Shape> = Vec::new();
    shapes.push(s1);
    shapes.push(s2);
    let mut errors: Vec<DecodeError> = Vec::new();
    errors.push(e1);
    errors.push(e2);
    let r = DecodeError::NoVariantMatched { path: Vec::new(), shapes, errors };
    assert(r@->NoVariantMatched_path =~= Seq::<SegmentView>::empty());
    assert(r@->NoVariantMatched_shapes =~= seq![s1, s2]);
    assert(r@->NoVariantMatched_errors =~= seq![e1@, e2@]);
    r
}

/// The failure of a node with three candidate shapes.
pub fn no_variant_of_three(
    s1: Shape,
    e1: DecodeError,
    s2: Shape,
    e2: DecodeError,
    s3: Shape,
    e3: DecodeError,
) -> (r: DecodeError)
    ensures
        r@ == (DecodeErrorView::NoVariantMatched {
            path: Seq::empty(),
            shapes: seq![s1, s2, s3],
            errors: seq![e1@, e2@, e3@],
        }),
{
    let mut shapes: Vec<Shape> = Vec::new();
    shapes.push(s1);
    shapes.push(s2);
    shapes.push(s3);
    let mut errors: Vec<DecodeError> = Vec::new();
    errors.push(e1);
    errors.push(e2);
    errors.push(e3);
    let r = DecodeError::NoVariantMatched { path: Vec::new(), shapes, errors };
    assert(r@->NoVariantMatched_path =~= Seq::<SegmentView>::empty());
    assert(r@->NoVariantMatched_shapes =~= seq![s1, s2, s3]);
    assert(r@->NoVariantMatched_errors =~= seq![e1@, e2@, e3@]);
    r
}

} // verus!
