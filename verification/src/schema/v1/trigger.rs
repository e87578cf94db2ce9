//! Triggers: which events cause a run.

use crate::decode::{
    as_text, key_texts, opened, opt_nested_field, opt_view, present, result_view, texts_field,
    Decode,
};
use crate::encode::{
    encoded_opt, encoded_texts, field, lemma_entries_accepted, lemma_entries_refused,
    lemma_lookup_at, lemma_texts_round_trip, put_opt, put_text, put_texts, Encode,
};
use crate::error::{no_variant_of_two, DecodeError, DecodeErrorView, Shape};
use crate::fields::{get_opt_nested, get_texts, open_shape, own_key, read_text};
use crate::value::{lemma_mapping_view, views_of, Value, ValueView};
use vstd::prelude::*;
use vstd::string::StringExecFns;

verus! {

/// A push trigger says which branches cause a continuous integration build to
/// run. It is tried as a bare text, then as the full syntax.
#[derive(Clone, Debug, PartialEq)]
pub enum Trigger {
    /// Disable CI triggers
    Disabled(String),
    /// Full syntax for complete control
    Trigger(PipelineTrigger),
}

pub ghost enum TriggerView {
    Disabled(Seq<char>),
    Trigger(PipelineTriggerView),
}

impl View for Trigger {
    type V = TriggerView;

    open spec fn view(&self) -> TriggerView {
        match self {
            Trigger::Disabled(t) => TriggerView::Disabled(t@),
            Trigger::Trigger(x) => TriggerView::Trigger(x@),
        }
    }
}

/// The full syntax of a continuous integration trigger.
#[derive(Clone, Debug, PartialEq, Default)]
pub struct PipelineTrigger {
    /// Branch names that trigger a run, and those that do not
    pub branches: Option<TriggerItem>,
    /// File paths that trigger a run, and those that do not
    pub paths: Option<TriggerItem>,
}

pub ghost struct PipelineTriggerView {
    pub branches: Option<TriggerItemView>,
    pub paths: Option<TriggerItemView>,
}

impl View for PipelineTrigger {
    type V = PipelineTriggerView;

    open spec fn view(&self) -> PipelineTriggerView {
        PipelineTriggerView {
            branches: opt_view(self.branches),
            paths: opt_view(self.paths),
        }
    }
}

/// The key of the list of items that a filter takes in.
pub open spec fn included_key() -> Seq<char> {
    "incl"@ + "ude"@
}

/// The key of the list of items that a filter takes in.
pub fn included_key_text() -> (key: String)
    ensures
        key@ == included_key(),
{
    String::from_str("incl").concat("ude")
}

/// The items that a trigger takes in and those that it leaves out.
#[derive(Clone, Debug, PartialEq, Default)]
pub struct TriggerItem {
    /// List of items to take in
    pub included: Vec<String>,
    /// List of items to leave out
    pub excluded: Vec<String>,
}

pub ghost struct TriggerItemView {
    pub included: Seq<Seq<char>>,
    pub excluded: Seq<Seq<char>>,
}

impl View for TriggerItem {
    type V = TriggerItemView;

    open spec fn view(&self) -> TriggerItemView {
        TriggerItemView {
            included: views_of(self.included@),
            excluded: views_of(self.excluded@),
        }
    }
}

/// The trigger of a pipeline resource: `none` to disable, `true` for all
/// branches, or the full syntax.
#[derive(Clone, Debug, PartialEq)]
pub enum ResourceTrigger {
    /// The bare form
    Simple(String),
    /// The full syntax
    Full(PipelineResourceTrigger),
}

pub ghost enum ResourceTriggerView {
    Simple(Seq<char>),
    Full(PipelineResourceTriggerView),
}

impl View for ResourceTrigger {
    type V = ResourceTriggerView;

    open spec fn view(&self) -> ResourceTriggerView {
        match self {
            ResourceTrigger::Simple(t) => ResourceTriggerView::Simple(t@),
            ResourceTrigger::Full(x) => ResourceTriggerView::Full(x@),
        }
    }
}

/// The full syntax of a pipeline resource trigger.
#[derive(Clone, Debug, PartialEq, Default)]
pub struct PipelineResourceTrigger {
    /// Branches that trigger a run, and those that do not
    pub branches: Option<TriggerItem>,
    /// List of tags that when matched will trigger the pipeline
    pub tags: Option<TriggerItem>,
}

pub ghost struct PipelineResourceTriggerView {
    pub branches: Option<TriggerItemView>,
    pub tags: Option<TriggerItemView>,
}

impl View for PipelineResourceTrigger {
    type V = PipelineResourceTriggerView;

    open spec fn view(&self) -> PipelineResourceTriggerView {
        PipelineResourceTriggerView {
            branches: opt_view(self.branches),
            tags: opt_view(self.tags),
        }
    }
}

impl Decode for Trigger {
    /// A text is the bare form; otherwise the node is read as the full syntax.
    open spec fn decoded(v: ValueView) -> Result<TriggerView, DecodeErrorView> {
        let bare = as_text(Seq::empty(), v);
        let full = PipelineTrigger::decoded(v);
        if bare is Ok {
            Ok(TriggerView::Disabled(bare->Ok_0))
        } else if full is Ok {
            Ok(TriggerView::Trigger(full->Ok_0))
        } else {
            Err(
                DecodeErrorView::NoVariantMatched {
                    path: Seq::empty(),
                    shapes: seq![Shape::TriggerDisabled, Shape::TriggerFull],
                    errors: seq![bare->Err_0, full->Err_0],
                },
            )
        }
    }

    fn decode(v: &Value) -> (r: Result<Trigger, DecodeError>)
        ensures
            result_view(r) == Self::decoded(v@),
    {
        match read_text(own_key(), v) {
            Ok(t) => Ok(Trigger::Disabled(t)),
            Err(e0) => match PipelineTrigger::decode(v) {
                Ok(x) => Ok(Trigger::Trigger(x)),
                Err(e1) => Err(no_variant_of_two(Shape::TriggerDisabled, e0, Shape::TriggerFull, e1)),
            },
        }
    }
}

impl Trigger {
    /// A mapping with a key that the full syntax does not declare is refused
    /// by both candidates.
    pub proof fn law_undeclared_key_matches_no_shape(m: Seq<(Seq<char>, ValueView)>, i: int)
        requires
            0 <= i < m.len(),
            !PipelineTrigger::keys().contains(m[i].0),
        ensures
            Self::decoded(ValueView::Mapping(m)) matches Err(
                DecodeErrorView::NoVariantMatched { path, shapes, errors },
            ) && path.len() == 0 && errors.len() == 2 && errors[1] is UnrecognizedField,
    {
        PipelineTrigger::law_undeclared_key_is_refused(m, i);
    }
}

impl Encode for Trigger {
    open spec fn encoded(x: TriggerView) -> ValueView {
        match x {
            TriggerView::Disabled(t) => ValueView::Text(t),
            TriggerView::Trigger(y) => PipelineTrigger::encoded(y),
        }
    }

    fn encode(&self) -> (v: Value)
        ensures
            v@ == Self::encoded(self@),
    {
        match self {
            Trigger::Disabled(t) => put_text(t),
            Trigger::Trigger(y) => y.encode(),
        }
    }

    proof fn lemma_encoded_is_not_null(x: TriggerView)
        ensures
            !(Self::encoded(x) is Null),
    {
    }

    /// Of a node that is accepted: decoding it, encoding what was read and
    /// decoding that gives what the first decoding gave.
    proof fn round_trip(v: ValueView)
        ensures
            Self::decoded(Self::encoded(Self::decoded(v)->Ok_0)) == Self::decoded(v),
    {
        if as_text(Seq::empty(), v) is Err {
            PipelineTrigger::round_trip(v);
        }
    }
}

impl PipelineTrigger {
    /// The keys of a full trigger.
    pub open spec fn keys() -> Seq<Seq<char>> {
        seq![
            "branches"@,
            "paths"@,
        ]
    }

    /// The entries of the document form of a full trigger.
    pub open spec fn entries(x: PipelineTriggerView) -> Seq<(Seq<char>, ValueView)> {
        seq![
            ("branches"@, encoded_opt::<TriggerItem>(x.branches)),
            ("paths"@, encoded_opt::<TriggerItem>(x.paths)),
        ]
    }

    /// The keys of a full trigger differ from one another.
    pub proof fn lemma_keys_distinct()
        ensures
            forall|i: int, j: int|
                0 <= i < j < Self::keys().len() ==> Self::keys()[i] != Self::keys()[j],
    {
        reveal_strlit("branches");
        assert("branches"@.len() == 8);
        reveal_strlit("paths");
        assert("paths"@.len() == 5);
    }

    /// A mapping with a key outside the keys of a full trigger is refused for a
    /// key outside them, whatever else it holds.
    pub proof fn law_undeclared_key_is_refused(m: Seq<(Seq<char>, ValueView)>, i: int)
        requires
            0 <= i < m.len(),
            !Self::keys().contains(m[i].0),
        ensures
            Self::decoded(ValueView::Mapping(m)) matches Err(
                DecodeErrorView::UnrecognizedField { path, key },
            ) && path.len() == 0 && !Self::keys().contains(key),
    {
        lemma_entries_refused(m, Self::keys(), i);
    }
}

impl Decode for PipelineTrigger {
    open spec fn decoded(v: ValueView) -> Result<PipelineTriggerView, DecodeErrorView> {
        match opened(v, Self::keys()) {
            Err(e) => Err(e),
            Ok(m) => {
                let branches = opt_nested_field::<TriggerItem>(m, "branches"@);
                let paths = opt_nested_field::<TriggerItem>(m, "paths"@);
                if branches is Err {
                    Err(branches->Err_0)
                } else if paths is Err {
                    Err(paths->Err_0)
                } else {
                    Ok(
                        PipelineTriggerView {
                            branches: branches->Ok_0,
                            paths: paths->Ok_0,
                        },
                    )
                }
            },
        }
    }

    fn decode(v: &Value) -> (r: Result<PipelineTrigger, DecodeError>)
        ensures
            result_view(r) == Self::decoded(v@),
    {
        let keys = ["branches", "paths"];
        assert(key_texts(keys@) =~= Self::keys());
        let m = open_shape(v, &keys)?;
        let branches = get_opt_nested::<TriggerItem>(m, "branches")?;
        let paths = get_opt_nested::<TriggerItem>(m, "paths")?;
        Ok(PipelineTrigger { branches, paths })
    }
}

impl Encode for PipelineTrigger {
    open spec fn encoded(x: PipelineTriggerView) -> ValueView {
        ValueView::Mapping(Self::entries(x))
    }

    fn encode(&self) -> (v: Value)
        ensures
            v@ == Self::encoded(self@),
    {
        let mut entries: Vec<(String, Value)> = Vec::new();
        entries.push(field("branches", put_opt::<TriggerItem>(&self.branches)));
        entries.push(field("paths", put_opt::<TriggerItem>(&self.paths)));
        proof {
            lemma_mapping_view(entries);
            assert(views_of(entries@) =~= Self::entries(self@));
        }
        Value::Mapping(entries)
    }

    proof fn lemma_encoded_is_not_null(x: PipelineTriggerView)
        ensures
            !(Self::encoded(x) is Null),
    {
    }

    /// Of a node that is accepted: decoding it, encoding what was read and
    /// decoding that gives what the first decoding gave.
    proof fn round_trip(v: ValueView)
        ensures
            Self::decoded(Self::encoded(Self::decoded(v)->Ok_0)) == Self::decoded(v),
    {
        let m = opened(v, Self::keys())->Ok_0;
        let x = Self::decoded(v)->Ok_0;
        let e = Self::entries(x);
        Self::lemma_keys_distinct();
        assert(e.len() == Self::keys().len());
        assert forall|i: int| 0 <= i < e.len() implies (#[trigger] e[i]).0 == Self::keys()[i] by {}
        lemma_entries_accepted(e, Self::keys());
        lemma_lookup_at(e, 0);
        lemma_lookup_at(e, 1);
        if present(m, "branches"@) is Some {
            TriggerItem::round_trip(present(m, "branches"@)->Some_0);
            TriggerItem::lemma_encoded_is_not_null(x.branches->Some_0);
        }
        if present(m, "paths"@) is Some {
            TriggerItem::round_trip(present(m, "paths"@)->Some_0);
            TriggerItem::lemma_encoded_is_not_null(x.paths->Some_0);
        }
    }
}

impl TriggerItem {
    /// The keys of a trigger filter.
    pub open spec fn keys() -> Seq<Seq<char>> {
        seq![
            included_key(),
            "exclude"@,
        ]
    }

    /// The entries of the document form of a trigger filter.
    pub open spec fn entries(x: TriggerItemView) -> Seq<(Seq<char>, ValueView)> {
        seq![
            (included_key(), encoded_texts(x.included)),
            ("exclude"@, encoded_texts(x.excluded)),
        ]
    }

    /// The keys of a trigger filter differ from one another.
    pub proof fn lemma_keys_distinct()
        ensures
            forall|i: int, j: int|
                0 <= i < j < Self::keys().len() ==> Self::keys()[i] != Self::keys()[j],
    {
        reveal_strlit("incl");
        reveal_strlit("ude");
        assert("incl"@.len() == 4);
        assert("ude"@.len() == 3);
        assert(included_key().len() == 7);
        reveal_strlit("exclude");
        assert("exclude"@.len() == 7);
        assert(included_key()[0] != "exclude"@[0]);
    }

    /// A mapping with a key outside the keys of a trigger filter is refused for
    /// a key outside them, whatever else it holds.
    pub proof fn law_undeclared_key_is_refused(m: Seq<(Seq<char>, ValueView)>, i: int)
        requires
            0 <= i < m.len(),
            !Self::keys().contains(m[i].0),
        ensures
            Self::decoded(ValueView::Mapping(m)) matches Err(
                DecodeErrorView::UnrecognizedField { path, key },
            ) && path.len() == 0 && !Self::keys().contains(key),
    {
        lemma_entries_refused(m, Self::keys(), i);
    }
}

impl Decode for TriggerItem {
    open spec fn decoded(v: ValueView) -> Result<TriggerItemView, DecodeErrorView> {
        match opened(v, Self::keys()) {
            Err(e) => Err(e),
            Ok(m) => {
                let included = texts_field(m, included_key());
                let excluded = texts_field(m, "exclude"@);
                if included is Err {
                    Err(included->Err_0)
                } else if excluded is Err {
                    Err(excluded->Err_0)
                } else {
                    Ok(
                        TriggerItemView {
                            included: included->Ok_0,
                            excluded: excluded->Ok_0,
                        },
                    )
                }
            },
        }
    }

    fn decode(v: &Value) -> (r: Result<TriggerItem, DecodeError>)
        ensures
            result_view(r) == Self::decoded(v@),
    {
        let included_key = included_key_text();
        let keys = [included_key.as_str(), "exclude"];
        assert(key_texts(keys@) =~= Self::keys());
        let m = open_shape(v, &keys)?;
        let included = get_texts(m, included_key.as_str())?;
        let excluded = get_texts(m, "exclude")?;
        Ok(TriggerItem { included, excluded })
    }
}

impl Encode for TriggerItem {
    open spec fn encoded(x: TriggerItemView) -> ValueView {
        ValueView::Mapping(Self::entries(x))
    }

    fn encode(&self) -> (v: Value)
        ensures
            v@ == Self::encoded(self@),
    {
        let included_key = included_key_text();
        let mut entries: Vec<(String, Value)> = Vec::new();
        entries.push(field(included_key.as_str(), put_texts(&self.included)));
        entries.push(field("exclude", put_texts(&self.excluded)));
        proof {
            lemma_mapping_view(entries);
            assert(views_of(entries@) =~= Self::entries(self@));
        }
        Value::Mapping(entries)
    }

    proof fn lemma_encoded_is_not_null(x: TriggerItemView)
        ensures
            !(Self::encoded(x) is Null),
    {
    }

    /// Of a node that is accepted: decoding it, encoding what was read and
    /// decoding that gives what the first decoding gave.
    proof fn round_trip(v: ValueView)
        ensures
            Self::decoded(Self::encoded(Self::decoded(v)->Ok_0)) == Self::decoded(v),
    {
        let m = opened(v, Self::keys())->Ok_0;
        let x = Self::decoded(v)->Ok_0;
        let e = Self::entries(x);
        Self::lemma_keys_distinct();
        assert(e.len() == Self::keys().len());
        assert forall|i: int| 0 <= i < e.len() implies (#[trigger] e[i]).0 == Self::keys()[i] by {}
        lemma_entries_accepted(e, Self::keys());
        lemma_lookup_at(e, 0);
        lemma_lookup_at(e, 1);
        lemma_texts_round_trip(included_key(), x.included);
        lemma_texts_round_trip("exclude"@, x.excluded);
    }
}

impl Decode for ResourceTrigger {
    /// A text is the bare form; otherwise the node is read as the full syntax.
    open spec fn decoded(v: ValueView) -> Result<ResourceTriggerView, DecodeErrorView> {
        let bare = as_text(Seq::empty(), v);
        let full = PipelineResourceTrigger::decoded(v);
        if bare is Ok {
            Ok(ResourceTriggerView::Simple(bare->Ok_0))
        } else if full is Ok {
            Ok(ResourceTriggerView::Full(full->Ok_0))
        } else {
            Err(
                DecodeErrorView::NoVariantMatched {
                    path: Seq::empty(),
                    shapes: seq![Shape::ResourceTriggerSimple, Shape::ResourceTriggerFull],
                    errors: seq![bare->Err_0, full->Err_0],
                },
            )
        }
    }

    fn decode(v: &Value) -> (r: Result<ResourceTrigger, DecodeError>)
        ensures
            result_view(r) == Self::decoded(v@),
    {
        match read_text(own_key(), v) {
            Ok(t) => Ok(ResourceTrigger::Simple(t)),
            Err(e0) => match PipelineResourceTrigger::decode(v) {
                Ok(x) => Ok(ResourceTrigger::Full(x)),
                Err(e1) => Err(no_variant_of_two(Shape::ResourceTriggerSimple, e0, Shape::ResourceTriggerFull, e1)),
            },
        }
    }
}

impl ResourceTrigger {
    /// A mapping with a key that the full syntax does not declare is refused
    /// by both candidates.
    pub proof fn law_undeclared_key_matches_no_shape(m: Seq<(Seq<char>, ValueView)>, i: int)
        requires
            0 <= i < m.len(),
            !PipelineResourceTrigger::keys().contains(m[i].0),
        ensures
            Self::decoded(ValueView::Mapping(m)) matches Err(
                DecodeErrorView::NoVariantMatched { path, shapes, errors },
            ) && path.len() == 0 && errors.len() == 2 && errors[1] is UnrecognizedField,
    {
        PipelineResourceTrigger::law_undeclared_key_is_refused(m, i);
    }
}

impl Encode for ResourceTrigger {
    open spec fn encoded(x: ResourceTriggerView) -> ValueView {
        match x {
            ResourceTriggerView::Simple(t) => ValueView::Text(t),
            ResourceTriggerView::Full(y) => PipelineResourceTrigger::encoded(y),
        }
    }

    fn encode(&self) -> (v: Value)
        ensures
            v@ == Self::encoded(self@),
    {
        match self {
            ResourceTrigger::Simple(t) => put_text(t),
            ResourceTrigger::Full(y) => y.encode(),
        }
    }

    proof fn lemma_encoded_is_not_null(x: ResourceTriggerView)
        ensures
            !(Self::encoded(x) is Null),
    {
    }

    /// Of a node that is accepted: decoding it, encoding what was read and
    /// decoding that gives what the first decoding gave.
    proof fn round_trip(v: ValueView)
        ensures
            Self::decoded(Self::encoded(Self::decoded(v)->Ok_0)) == Self::decoded(v),
    {
        if as_text(Seq::empty(), v) is Err {
            PipelineResourceTrigger::round_trip(v);
        }
    }
}

impl PipelineResourceTrigger {
    /// The keys of a full resource trigger.
    pub open spec fn keys() -> Seq<Seq<char>> {
        seq![
            "branches"@,
            "tags"@,
        ]
    }

    /// The entries of the document form of a full resource trigger.
    pub open spec fn entries(x: PipelineResourceTriggerView) -> Seq<(Seq<char>, ValueView)> {
        seq![
            ("branches"@, encoded_opt::<TriggerItem>(x.branches)),
            ("tags"@, encoded_opt::<TriggerItem>(x.tags)),
        ]
    }

    /// The keys of a full resource trigger differ from one another.
    pub proof fn lemma_keys_distinct()
        ensures
            forall|i: int, j: int|
                0 <= i < j < Self::keys().len() ==> Self::keys()[i] != Self::keys()[j],
    {
        reveal_strlit("branches");
        assert("branches"@.len() == 8);
        reveal_strlit("tags");
        assert("tags"@.len() == 4);
    }

    /// A mapping with a key outside the keys of a full resource trigger is
    /// refused for a key outside them, whatever else it holds.
    pub proof fn law_undeclared_key_is_refused(m: Seq<(Seq<char>, ValueView)>, i: int)
        requires
            0 <= i < m.len(),
            !Self::keys().contains(m[i].0),
        ensures
            Self::decoded(ValueView::Mapping(m)) matches Err(
                DecodeErrorView::UnrecognizedField { path, key },
            ) && path.len() == 0 && !Self::keys().contains(key),
    {
        lemma_entries_refused(m, Self::keys(), i);
    }
}

impl Decode for PipelineResourceTrigger {
    open spec fn decoded(v: ValueView) -> Result<PipelineResourceTriggerView, DecodeErrorView> {
        match opened(v, Self::keys()) {
            Err(e) => Err(e),
            Ok(m) => {
                let branches = opt_nested_field::<TriggerItem>(m, "branches"@);
                let tags = opt_nested_field::<TriggerItem>(m, "tags"@);
                if branches is Err {
                    Err(branches->Err_0)
                } else if tags is Err {
                    Err(tags->Err_0)
                } else {
                    Ok(
                        PipelineResourceTriggerView {
                            branches: branches->Ok_0,
                            tags: tags->Ok_0,
                        },
                    )
                }
            },
        }
    }

    fn decode(v: &Value) -> (r: Result<PipelineResourceTrigger, DecodeError>)
        ensures
            result_view(r) == Self::decoded(v@),
    {
        let keys = ["branches", "tags"];
        assert(key_texts(keys@) =~= Self::keys());
        let m = open_shape(v, &keys)?;
        let branches = get_opt_nested::<TriggerItem>(m, "branches")?;
        let tags = get_opt_nested::<TriggerItem>(m, "tags")?;
        Ok(PipelineResourceTrigger { branches, tags })
    }
}

impl Encode for PipelineResourceTrigger {
    open spec fn encoded(x: PipelineResourceTriggerView) -> ValueView {
        ValueView::Mapping(Self::entries(x))
    }

    fn encode(&self) -> (v: Value)
        ensures
            v@ == Self::encoded(self@),
    {
        let mut entries: Vec<(String, Value)> = Vec::new();
        entries.push(field("branches", put_opt::<TriggerItem>(&self.branches)));
        entries.push(field("tags", put_opt::<TriggerItem>(&self.tags)));
        proof {
            lemma_mapping_view(entries);
            assert(views_of(entries@) =~= Self::entries(self@));
        }
        Value::Mapping(entries)
    }

    proof fn lemma_encoded_is_not_null(x: PipelineResourceTriggerView)
        ensures
            !(Self::encoded(x) is Null),
    {
    }

    /// Of a node that is accepted: decoding it, encoding what was read and
    /// decoding that gives what the first decoding gave.
    proof fn round_trip(v: ValueView)
        ensures
            Self::decoded(Self::encoded(Self::decoded(v)->Ok_0)) == Self::decoded(v),
    {
        let m = opened(v, Self::keys())->Ok_0;
        let x = Self::decoded(v)->Ok_0;
        let e = Self::entries(x);
        Self::lemma_keys_distinct();
        assert(e.len() == Self::keys().len());
        assert forall|i: int| 0 <= i < e.len() implies (#[trigger] e[i]).0 == Self::keys()[i] by {}
        lemma_entries_accepted(e, Self::keys());
        lemma_lookup_at(e, 0);
        lemma_lookup_at(e, 1);
        if present(m, "branches"@) is Some {
            TriggerItem::round_trip(present(m, "branches"@)->Some_0);
            TriggerItem::lemma_encoded_is_not_null(x.branches->Some_0);
        }
        if present(m, "tags"@) is Some {
            TriggerItem::round_trip(present(m, "tags"@)->Some_0);
            TriggerItem::lemma_encoded_is_not_null(x.tags->Some_0);
        }
    }
}

} // verus!
