//! Stages: groups of jobs.

use crate::decode::{
    items_field, key_texts, mapping_field, opened, opt_nested_field, opt_text, opt_text_field,
    opt_view, present, result_view, Decode,
};
use crate::encode::{
    encoded_items, encoded_opt, encoded_opt_text, field, lemma_entries_accepted,
    lemma_entries_refused, lemma_items_field_round_trip, lemma_lookup_at, put_items, put_mapping,
    put_opt, put_opt_text, Encode,
};
use crate::error::{no_variant_of_two, DecodeError, DecodeErrorView, Shape};
use crate::fields::{get_items, get_mapping, get_opt_nested, get_opt_text, open_shape};
use crate::schema::v1::depends::{DependsOn, DependsOnView};
use crate::schema::v1::job::{Job, JobView};
use crate::value::{lemma_mapping_view, views_of, Value, ValueView};
use vstd::prelude::*;

verus! {

/// A stage of a pipeline, tried as a stage with jobs, then as a template
/// reference.
#[derive(Clone, Debug, PartialEq)]
pub enum Stage {
    /// Stages are a collection of related jobs
    Stage(StageWithJobs),
    /// A set of stages defined in one file and used in others
    Template(StageWithTemplate),
}

pub ghost enum StageView {
    Stage(StageWithJobsView),
    Template(StageWithTemplateView),
}

impl View for Stage {
    type V = StageView;

    open spec fn view(&self) -> StageView {
        match self {
            Stage::Stage(x) => StageView::Stage(x@),
            Stage::Template(x) => StageView::Template(x@),
        }
    }
}

/// A collection of related jobs. Stages run in the order they are defined
/// unless `dependsOn` says otherwise.
#[derive(Clone, Debug, PartialEq, Default)]
pub struct StageWithJobs {
    /// ID of the stage
    pub name: Option<String>,
    /// Human-readable name for the stage
    pub display_name: Option<String>,
    /// Any stages which must complete before this one
    pub depends_on: Option<DependsOn>,
    /// Evaluate this condition expression to determine whether to run this
    /// stage
    pub condition: Option<String>,
    /// Pool where jobs in this stage will run unless otherwise specified
    pub pool: Option<String>,
    /// Stage-specific variables
    pub variables: Vec<(String, Value)>,
    /// Jobs which make up the stage
    pub jobs: Vec<Job>,
}

pub ghost struct StageWithJobsView {
    pub name: Option<Seq<char>>,
    pub display_name: Option<Seq<char>>,
    pub depends_on: Option<DependsOnView>,
    pub condition: Option<Seq<char>>,
    pub pool: Option<Seq<char>>,
    pub variables: Seq<(Seq<char>, ValueView)>,
    pub jobs: Seq<JobView>,
}

impl View for StageWithJobs {
    type V = StageWithJobsView;

    open spec fn view(&self) -> StageWithJobsView {
        StageWithJobsView {
            name: opt_text(self.name),
            display_name: opt_text(self.display_name),
            depends_on: opt_view(self.depends_on),
            condition: opt_text(self.condition),
            pool: opt_text(self.pool),
            variables: views_of(self.variables@),
            jobs: views_of(self.jobs@),
        }
    }
}

/// A set of stages defined in one file and used in others.
#[derive(Clone, Debug, PartialEq, Default)]
pub struct StageWithTemplate {
    /// Reference to a template for this stage
    pub template: Option<String>,
    /// Parameters used in a stage template
    pub parameters: Vec<(String, Value)>,
}

pub ghost struct StageWithTemplateView {
    pub template: Option<Seq<char>>,
    pub parameters: Seq<(Seq<char>, ValueView)>,
}

impl View for StageWithTemplate {
    type V = StageWithTemplateView;

    open spec fn view(&self) -> StageWithTemplateView {
        StageWithTemplateView {
            template: opt_text(self.template),
            parameters: views_of(self.parameters@),
        }
    }
}

impl Decode for Stage {
    /// The first of stage with jobs and template reference that accepts the
    /// node; where neither does, the failure of each.
    open spec fn decoded(v: ValueView) -> Result<StageView, DecodeErrorView> {
        let stage = StageWithJobs::decoded(v);
        let template = StageWithTemplate::decoded(v);
        if stage is Ok {
            Ok(StageView::Stage(stage->Ok_0))
        } else if template is Ok {
            Ok(StageView::Template(template->Ok_0))
        } else {
            Err(
                DecodeErrorView::NoVariantMatched {
                    path: Seq::empty(),
                    shapes: seq![Shape::StageWithJobs, Shape::StageTemplate],
                    errors: seq![stage->Err_0, template->Err_0],
                },
            )
        }
    }

    fn decode(v: &Value) -> (r: Result<Stage, DecodeError>)
        ensures
            result_view(r) == Self::decoded(v@),
    {
        match StageWithJobs::decode(v) {
            Ok(x) => Ok(Stage::Stage(x)),
            Err(e0) => match StageWithTemplate::decode(v) {
                Ok(x) => Ok(Stage::Template(x)),
                Err(e1) => Err(no_variant_of_two(Shape::StageWithJobs, e0, Shape::StageTemplate, e1)),
            },
        }
    }
}

impl Stage {
    /// A mapping with a key that no candidate shape declares is refused by
    /// every candidate, each time for a key that it does not declare.
    pub proof fn law_undeclared_key_matches_no_shape(m: Seq<(Seq<char>, ValueView)>, i: int)
        requires
            0 <= i < m.len(),
            !StageWithJobs::keys().contains(m[i].0),
            !StageWithTemplate::keys().contains(m[i].0),
        ensures
            Self::decoded(ValueView::Mapping(m)) matches Err(
                DecodeErrorView::NoVariantMatched { path, shapes, errors },
            ) && path.len() == 0 && errors.len() == 2 && forall|j: int|
                0 <= j < errors.len() ==> #[trigger] errors[j] is UnrecognizedField,
    {
        StageWithJobs::law_undeclared_key_is_refused(m, i);
        StageWithTemplate::law_undeclared_key_is_refused(m, i);
    }
}

impl Encode for Stage {
    open spec fn encoded(x: StageView) -> ValueView {
        match x {
            StageView::Stage(y) => StageWithJobs::encoded(y),
            StageView::Template(y) => StageWithTemplate::encoded(y),
        }
    }

    fn encode(&self) -> (v: Value)
        ensures
            v@ == Self::encoded(self@),
    {
        match self {
            Stage::Stage(y) => y.encode(),
            Stage::Template(y) => y.encode(),
        }
    }

    proof fn lemma_encoded_is_not_null(x: StageView)
        ensures
            !(Self::encoded(x) is Null),
    {
        match x {
            StageView::Stage(y) => StageWithJobs::lemma_encoded_is_not_null(y),
            StageView::Template(y) => StageWithTemplate::lemma_encoded_is_not_null(y),
        }
    }

    /// Of a node that is accepted: decoding it, encoding what was read and
    /// decoding that gives what the first decoding gave.
    proof fn round_trip(v: ValueView)
        ensures
            Self::decoded(Self::encoded(Self::decoded(v)->Ok_0)) == Self::decoded(v),
    {
        if StageWithJobs::decoded(v) is Ok {
            StageWithJobs::round_trip(v);
        } else if StageWithJobs::decoded(v) is Err && StageWithTemplate::decoded(v) is Ok {
            StageWithTemplate::round_trip(v);
            let e = StageWithTemplate::entries(StageWithTemplate::decoded(v)->Ok_0);
            reveal_strlit("template");
            assert("template"@.len() == 8);
            reveal_strlit("stage");
            assert("stage"@.len() == 5);
            reveal_strlit("displayName");
            assert("displayName"@.len() == 11);
            reveal_strlit("dependsOn");
            assert("dependsOn"@.len() == 9);
            reveal_strlit("condition");
            assert("condition"@.len() == 9);
            reveal_strlit("pool");
            assert("pool"@.len() == 4);
            reveal_strlit("variables");
            assert("variables"@.len() == 9);
            reveal_strlit("jobs");
            assert("jobs"@.len() == 4);
            assert(!StageWithJobs::keys().contains(e[0].0));
            StageWithJobs::law_undeclared_key_is_refused(e, 0);
        }
    }
}

impl StageWithJobs {
    /// The keys of a stage with jobs.
    pub open spec fn keys() -> Seq<Seq<char>> {
        seq![
            "stage"@,
            "displayName"@,
            "dependsOn"@,
            "condition"@,
            "pool"@,
            "variables"@,
            "jobs"@,
        ]
    }

    /// The entries of the document form of a stage with jobs.
    pub open spec fn entries(x: StageWithJobsView) -> Seq<(Seq<char>, ValueView)> {
        seq![
            ("stage"@, encoded_opt_text(x.name)),
            ("displayName"@, encoded_opt_text(x.display_name)),
            ("dependsOn"@, encoded_opt::<DependsOn>(x.depends_on)),
            ("condition"@, encoded_opt_text(x.condition)),
            ("pool"@, encoded_opt_text(x.pool)),
            ("variables"@, ValueView::Mapping(x.variables)),
            ("jobs"@, encoded_items::<Job>(x.jobs)),
        ]
    }

    /// The keys of a stage with jobs differ from one another.
    pub proof fn lemma_keys_distinct()
        ensures
            forall|i: int, j: int|
                0 <= i < j < Self::keys().len() ==> Self::keys()[i] != Self::keys()[j],
    {
        reveal_strlit("stage");
        assert("stage"@.len() == 5);
        reveal_strlit("displayName");
        assert("displayName"@.len() == 11);
        reveal_strlit("dependsOn");
        assert("dependsOn"@.len() == 9);
        reveal_strlit("condition");
        assert("condition"@.len() == 9);
        reveal_strlit("pool");
        assert("pool"@.len() == 4);
        reveal_strlit("variables");
        assert("variables"@.len() == 9);
        reveal_strlit("jobs");
        assert("jobs"@.len() == 4);
        assert("dependsOn"@[0] != "condition"@[0]);
        assert("dependsOn"@[0] != "variables"@[0]);
        assert("condition"@[0] != "variables"@[0]);
        assert("pool"@[0] != "jobs"@[0]);
    }

    /// A mapping with a key outside the keys of a stage with jobs is refused
    /// for a key outside them, whatever else it holds.
    pub proof fn law_undeclared_key_is_refused(m: Seq<(Seq<char>, ValueView)>, i: int)
        requires
            0 <= i < m.len(),
            !Self::keys().contains(m[i].0),
        ensures
            Self::decoded(ValueView::Mapping(m)) matches Err(
                DecodeErrorView::UnrecognizedField { path, key },
            ) && path.len() == 0 && !Self::keys().contains(key),
    {
        lemma_entries_refused(m, Self::keys(), i);
    }
}

impl Decode for StageWithJobs {
    /// Of the fields of a stage with jobs only `jobs` is required.
    open spec fn decoded(v: ValueView) -> Result<StageWithJobsView, DecodeErrorView> {
        match opened(v, Self::keys()) {
            Err(e) => Err(e),
            Ok(m) => {
                let name = opt_text_field(m, "stage"@);
                let display_name = opt_text_field(m, "displayName"@);
                let depends_on = opt_nested_field::<DependsOn>(m, "dependsOn"@);
                let condition = opt_text_field(m, "condition"@);
                let pool = opt_text_field(m, "pool"@);
                let variables = mapping_field(m, "variables"@);
                let jobs = items_field::<Job>(m, "jobs"@, true);
                if name is Err {
                    Err(name->Err_0)
                } else if display_name is Err {
                    Err(display_name->Err_0)
                } else if depends_on is Err {
                    Err(depends_on->Err_0)
                } else if condition is Err {
                    Err(condition->Err_0)
                } else if pool is Err {
                    Err(pool->Err_0)
                } else if variables is Err {
                    Err(variables->Err_0)
                } else if jobs is Err {
                    Err(jobs->Err_0)
                } else {
                    Ok(
                        StageWithJobsView {
                            name: name->Ok_0,
                            display_name: display_name->Ok_0,
                            depends_on: depends_on->Ok_0,
                            condition: condition->Ok_0,
                            pool: pool->Ok_0,
                            variables: variables->Ok_0,
                            jobs: jobs->Ok_0,
                        },
                    )
                }
            },
        }
    }

    fn decode(v: &Value) -> (r: Result<StageWithJobs, DecodeError>)
        ensures
            result_view(r) == Self::decoded(v@),
    {
        let keys = ["stage", "displayName", "dependsOn", "condition", "pool", "variables", "jobs"];
        assert(key_texts(keys@) =~= Self::keys());
        let m = open_shape(v, &keys)?;
        let name = get_opt_text(m, "stage")?;
        let display_name = get_opt_text(m, "displayName")?;
        let depends_on = get_opt_nested::<DependsOn>(m, "dependsOn")?;
        let condition = get_opt_text(m, "condition")?;
        let pool = get_opt_text(m, "pool")?;
        let variables = get_mapping(m, "variables")?;
        let jobs = get_items::<Job>(m, "jobs", true)?;
        Ok(StageWithJobs { name, display_name, depends_on, condition, pool, variables, jobs })
    }
}

impl Encode for StageWithJobs {
    open spec fn encoded(x: StageWithJobsView) -> ValueView {
        ValueView::Mapping(Self::entries(x))
    }

    fn encode(&self) -> (v: Value)
        ensures
            v@ == Self::encoded(self@),
    {
        let mut entries: Vec<(String, Value)> = Vec::new();
        entries.push(field("stage", put_opt_text(&self.name)));
        entries.push(field("displayName", put_opt_text(&self.display_name)));
        entries.push(field("dependsOn", put_opt::<DependsOn>(&self.depends_on)));
        entries.push(field("condition", put_opt_text(&self.condition)));
        entries.push(field("pool", put_opt_text(&self.pool)));
        entries.push(field("variables", put_mapping(&self.variables)));
        entries.push(field("jobs", put_items::<Job>(&self.jobs)));
        proof {
            lemma_mapping_view(entries);
            assert(views_of(entries@) =~= Self::entries(self@));
        }
        Value::Mapping(entries)
    }

    proof fn lemma_encoded_is_not_null(x: StageWithJobsView)
        ensures
            !(Self::encoded(x) is Null),
    {
    }

    /// Of a node that is accepted: decoding it, encoding what was read and
    /// decoding that gives what the first decoding gave.
    proof fn round_trip(v: ValueView)
        ensures
            Self::decoded(Self::encoded(Self::decoded(v)->Ok_0)) == Self::decoded(v),
    {
        let m = opened(v, Self::keys())->Ok_0;
        let x = Self::decoded(v)->Ok_0;
        let e = Self::entries(x);
        Self::lemma_keys_distinct();
        assert(e.len() == Self::keys().len());
        assert forall|i: int| 0 <= i < e.len() implies (#[trigger] e[i]).0 == Self::keys()[i] by {}
        lemma_entries_accepted(e, Self::keys());
        lemma_lookup_at(e, 0);
        lemma_lookup_at(e, 1);
        lemma_lookup_at(e, 2);
        lemma_lookup_at(e, 3);
        lemma_lookup_at(e, 4);
        lemma_lookup_at(e, 5);
        lemma_lookup_at(e, 6);
        if present(m, "dependsOn"@) is Some {
            DependsOn::round_trip(present(m, "dependsOn"@)->Some_0);
            DependsOn::lemma_encoded_is_not_null(x.depends_on->Some_0);
        }
        lemma_items_field_round_trip::<Job>(m, "jobs"@, true);
    }
}

impl StageWithTemplate {
    /// The keys of a stage template reference.
    pub open spec fn keys() -> Seq<Seq<char>> {
        seq![
            "template"@,
            "parameters"@,
        ]
    }

    /// The entries of the document form of a stage template reference.
    pub open spec fn entries(x: StageWithTemplateView) -> Seq<(Seq<char>, ValueView)> {
        seq![
            ("template"@, encoded_opt_text(x.template)),
            ("parameters"@, ValueView::Mapping(x.parameters)),
        ]
    }

    /// The keys of a stage template reference differ from one another.
    pub proof fn lemma_keys_distinct()
        ensures
            forall|i: int, j: int|
                0 <= i < j < Self::keys().len() ==> Self::keys()[i] != Self::keys()[j],
    {
        reveal_strlit("template");
        assert("template"@.len() == 8);
        reveal_strlit("parameters");
        assert("parameters"@.len() == 10);
    }

    /// A mapping with a key outside the keys of a stage template reference is
    /// refused for a key outside them, whatever else it holds.
    pub proof fn law_undeclared_key_is_refused(m: Seq<(Seq<char>, ValueView)>, i: int)
        requires
            0 <= i < m.len(),
            !Self::keys().contains(m[i].0),
        ensures
            Self::decoded(ValueView::Mapping(m)) matches Err(
                DecodeErrorView::UnrecognizedField { path, key },
            ) && path.len() == 0 && !Self::keys().contains(key),
    {
        lemma_entries_refused(m, Self::keys(), i);
    }
}

impl Decode for StageWithTemplate {
    open spec fn decoded(v: ValueView) -> Result<StageWithTemplateView, DecodeErrorView> {
        match opened(v, Self::keys()) {
            Err(e) => Err(e),
            Ok(m) => {
                let template = opt_text_field(m, "template"@);
                let parameters = mapping_field(m, "parameters"@);
                if template is Err {
                    Err(template->Err_0)
                } else if parameters is Err {
                    Err(parameters->Err_0)
                } else {
                    Ok(
                        StageWithTemplateView {
                            template: template->Ok_0,
                            parameters: parameters->Ok_0,
                        },
                    )
                }
            },
        }
    }

    fn decode(v: &Value) -> (r: Result<StageWithTemplate, DecodeError>)
        ensures
            result_view(r) == Self::decoded(v@),
    {
        let keys = ["template", "parameters"];
        assert(key_texts(keys@) =~= Self::keys());
        let m = open_shape(v, &keys)?;
        let template = get_opt_text(m, "template")?;
        let parameters = get_mapping(m, "parameters")?;
        Ok(StageWithTemplate { template, parameters })
    }
}

impl Encode for StageWithTemplate {
    open spec fn encoded(x: StageWithTemplateView) -> ValueView {
        ValueView::Mapping(Self::entries(x))
    }

    fn encode(&self) -> (v: Value)
        ensures
            v@ == Self::encoded(self@),
    {
        let mut entries: Vec<(String, Value)> = Vec::new();
        entries.push(field("template", put_opt_text(&self.template)));
        entries.push(field("parameters", put_mapping(&self.parameters)));
        proof {
            lemma_mapping_view(entries);
            assert(views_of(entries@) =~= Self::entries(self@));
        }
        Value::Mapping(entries)
    }

    proof fn lemma_encoded_is_not_null(x: StageWithTemplateView)
        ensures
            !(Self::encoded(x) is Null),
    {
    }

    /// Of a node that is accepted: decoding it, encoding what was read and
    /// decoding that gives what the first decoding gave.
    proof fn round_trip(v: ValueView)
        ensures
            Self::decoded(Self::encoded(Self::decoded(v)->Ok_0)) == Self::decoded(v),
    {
        let m = opened(v, Self::keys())->Ok_0;
        let x = Self::decoded(v)->Ok_0;
        let e = Self::entries(x);
        Self::lemma_keys_distinct();
        assert(e.len() == Self::keys().len());
        assert forall|i: int| 0 <= i < e.len() implies (#[trigger] e[i]).0 == Self::keys()[i] by {}
        lemma_entries_accepted(e, Self::keys());
        lemma_lookup_at(e, 0);
        lemma_lookup_at(e, 1);
    }
}

} // verus!
