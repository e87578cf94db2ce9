//! The jobs that make up the work of a stage.

use crate::decode::{
    items_field, key_texts, mapping_field, opened, opt_nested_field, opt_text, opt_text_field,
    opt_view, present, result_view, Decode,
};
use crate::encode::{
    encoded_items, encoded_opt, encoded_opt_text, field, lemma_entries_accepted,
    lemma_entries_refused, lemma_items_field_round_trip, lemma_lookup_at, put_items, put_mapping,
    put_opt, put_opt_text, Encode,
};
use crate::error::{no_variant_of_two, DecodeError, DecodeErrorView, Shape};
use crate::fields::{get_items, get_mapping, get_opt_nested, get_opt_text, open_shape};
use crate::schema::v1::depends::{DependsOn, DependsOnView};
use crate::schema::v1::step::{Step, StepView};
use crate::value::{lemma_mapping_view, views_of, Value, ValueView};
use vstd::prelude::*;

verus! {

/// A job of a stage, tried as a job with steps, then as a template reference.
#[derive(Clone, Debug, PartialEq)]
pub enum Job {
    /// A job is a collection of steps run by an agent or on a server
    Job(JobWithSteps),
    /// A set of jobs defined in a template
    Template(JobWithTemplate),
}

pub ghost enum JobView {
    Job(JobWithStepsView),
    Template(JobWithTemplateView),
}

impl View for Job {
    type V = JobView;

    open spec fn view(&self) -> JobView {
        match self {
            Job::Job(x) => JobView::Job(x@),
            Job::Template(x) => JobView::Template(x@),
        }
    }
}

/// A collection of steps run by an agent or on a server.
#[derive(Clone, Debug, PartialEq, Default)]
pub struct JobWithSteps {
    /// ID of the job
    pub name: Option<String>,
    /// Human-readable name for the job
    pub display_name: Option<String>,
    /// Any jobs which must complete before this one
    pub depends_on: Option<DependsOn>,
    /// Evaluate this condition expression to determine whether to run this job
    pub condition: Option<String>,
    /// Pool where this job will run
    pub pool: Option<String>,
    /// Time to wait for this job to complete before the server kills it
    pub timeout_in_minutes: Option<String>,
    /// Job-specific variables
    pub variables: Vec<(String, Value)>,
    /// A list of steps to run
    pub steps: Vec<Step>,
}

pub ghost struct JobWithStepsView {
    pub name: Option<Seq<char>>,
    pub display_name: Option<Seq<char>>,
    pub depends_on: Option<DependsOnView>,
    pub condition: Option<Seq<char>>,
    pub pool: Option<Seq<char>>,
    pub timeout_in_minutes: Option<Seq<char>>,
    pub variables: Seq<(Seq<char>, ValueView)>,
    pub steps: Seq<StepView>,
}

impl View for JobWithSteps {
    type V = JobWithStepsView;

    open spec fn view(&self) -> JobWithStepsView {
        JobWithStepsView {
            name: opt_text(self.name),
            display_name: opt_text(self.display_name),
            depends_on: opt_view(self.depends_on),
            condition: opt_text(self.condition),
            pool: opt_text(self.pool),
            timeout_in_minutes: opt_text(self.timeout_in_minutes),
            variables: views_of(self.variables@),
            steps: views_of(self.steps@),
        }
    }
}

/// A set of jobs defined in a template.
#[derive(Clone, Debug, PartialEq, Default)]
pub struct JobWithTemplate {
    /// Reference to a template for this job
    pub template: Option<String>,
    /// Parameters used in a job template
    pub parameters: Vec<(String, Value)>,
}

pub ghost struct JobWithTemplateView {
    pub template: Option<Seq<char>>,
    pub parameters: Seq<(Seq<char>, ValueView)>,
}

impl View for JobWithTemplate {
    type V = JobWithTemplateView;

    open spec fn view(&self) -> JobWithTemplateView {
        JobWithTemplateView {
            template: opt_text(self.template),
            parameters: views_of(self.parameters@),
        }
    }
}

impl Decode for Job {
    /// The first of job with steps and template reference that accepts the
    /// node; where neither does, the failure of each.
    open spec fn decoded(v: ValueView) -> Result<JobView, DecodeErrorView> {
        let job = JobWithSteps::decoded(v);
        let template = JobWithTemplate::decoded(v);
        if job is Ok {
            Ok(JobView::Job(job->Ok_0))
        } else if template is Ok {
            Ok(JobView::Template(template->Ok_0))
        } else {
            Err(
                DecodeErrorView::NoVariantMatched {
                    path: Seq::empty(),
                    shapes: seq![Shape::JobWithSteps, Shape::JobTemplate],
                    errors: seq![job->Err_0, template->Err_0],
                },
            )
        }
    }

    fn decode(v: &Value) -> (r: Result<Job, DecodeError>)
        ensures
            result_view(r) == Self::decoded(v@),
    {
        match JobWithSteps::decode(v) {
            Ok(x) => Ok(Job::Job(x)),
            Err(e0) => match JobWithTemplate::decode(v) {
                Ok(x) => Ok(Job::Template(x)),
                Err(e1) => Err(no_variant_of_two(Shape::JobWithSteps, e0, Shape::JobTemplate, e1)),
            },
        }
    }
}

impl Job {
    /// A mapping with a key that no candidate shape declares is refused by
    /// every candidate, each time for a key that it does not declare.
    pub proof fn law_undeclared_key_matches_no_shape(m: Seq<(Seq<char>, ValueView)>, i: int)
        requires
            0 <= i < m.len(),
            !JobWithSteps::keys().contains(m[i].0),
            !JobWithTemplate::keys().contains(m[i].0),
        ensures
            Self::decoded(ValueView::Mapping(m)) matches Err(
                DecodeErrorView::NoVariantMatched { path, shapes, errors },
            ) && path.len() == 0 && errors.len() == 2 && forall|j: int|
                0 <= j < errors.len() ==> #[trigger] errors[j] is UnrecognizedField,
    {
        JobWithSteps::law_undeclared_key_is_refused(m, i);
        JobWithTemplate::law_undeclared_key_is_refused(m, i);
    }
}

impl Encode for Job {
    open spec fn encoded(x: JobView) -> ValueView {
        match x {
            JobView::Job(y) => JobWithSteps::encoded(y),
            JobView::Template(y) => JobWithTemplate::encoded(y),
        }
    }

    fn encode(&self) -> (v: Value)
        ensures
            v@ == Self::encoded(self@),
    {
        match self {
            Job::Job(y) => y.encode(),
            Job::Template(y) => y.encode(),
        }
    }

    proof fn lemma_encoded_is_not_null(x: JobView)
        ensures
            !(Self::encoded(x) is Null),
    {
        match x {
            JobView::Job(y) => JobWithSteps::lemma_encoded_is_not_null(y),
            JobView::Template(y) => JobWithTemplate::lemma_encoded_is_not_null(y),
        }
    }

    /// Of a node that is accepted: decoding it, encoding what was read and
    /// decoding that gives what the first decoding gave.
    proof fn round_trip(v: ValueView)
        ensures
            Self::decoded(Self::encoded(Self::decoded(v)->Ok_0)) == Self::decoded(v),
    {
        if JobWithSteps::decoded(v) is Ok {
            JobWithSteps::round_trip(v);
        } else if JobWithSteps::decoded(v) is Err && JobWithTemplate::decoded(v) is Ok {
            JobWithTemplate::round_trip(v);
            let e = JobWithTemplate::entries(JobWithTemplate::decoded(v)->Ok_0);
            reveal_strlit("template");
            assert("template"@.len() == 8);
            reveal_strlit("job");
            assert("job"@.len() == 3);
            reveal_strlit("displayName");
            assert("displayName"@.len() == 11);
            reveal_strlit("dependsOn");
            assert("dependsOn"@.len() == 9);
            reveal_strlit("condition");
            assert("condition"@.len() == 9);
            reveal_strlit("pool");
            assert("pool"@.len() == 4);
            reveal_strlit("timeoutInMinutes");
            assert("timeoutInMinutes"@.len() == 16);
            reveal_strlit("variables");
            assert("variables"@.len() == 9);
            reveal_strlit("steps");
            assert("steps"@.len() == 5);
            assert(!JobWithSteps::keys().contains(e[0].0));
            JobWithSteps::law_undeclared_key_is_refused(e, 0);
        }
    }
}

impl JobWithSteps {
    /// The keys of a job with steps.
    pub open spec fn keys() -> Seq<Seq<char>> {
        seq![
            "job"@,
            "displayName"@,
            "dependsOn"@,
            "condition"@,
            "pool"@,
            "timeoutInMinutes"@,
            "variables"@,
            "steps"@,
        ]
    }

    /// The entries of the document form of a job with steps.
    pub open spec fn entries(x: JobWithStepsView) -> Seq<(Seq<char>, ValueView)> {
        seq![
            ("job"@, encoded_opt_text(x.name)),
            ("displayName"@, encoded_opt_text(x.display_name)),
            ("dependsOn"@, encoded_opt::<DependsOn>(x.depends_on)),
            ("condition"@, encoded_opt_text(x.condition)),
            ("pool"@, encoded_opt_text(x.pool)),
            ("timeoutInMinutes"@, encoded_opt_text(x.timeout_in_minutes)),
            ("variables"@, ValueView::Mapping(x.variables)),
            ("steps"@, encoded_items::<Step>(x.steps)),
        ]
    }

    /// The keys of a job with steps differ from one another.
    pub proof fn lemma_keys_distinct()
        ensures
            forall|i: int, j: int|
                0 <= i < j < Self::keys().len() ==> Self::keys()[i] != Self::keys()[j],
    {
        reveal_strlit("job");
        assert("job"@.len() == 3);
        reveal_strlit("displayName");
        assert("displayName"@.len() == 11);
        reveal_strlit("dependsOn");
        assert("dependsOn"@.len() == 9);
        reveal_strlit("condition");
        assert("condition"@.len() == 9);
        reveal_strlit("pool");
        assert("pool"@.len() == 4);
        reveal_strlit("timeoutInMinutes");
        assert("timeoutInMinutes"@.len() == 16);
        reveal_strlit("variables");
        assert("variables"@.len() == 9);
        reveal_strlit("steps");
        assert("steps"@.len() == 5);
        assert("dependsOn"@[0] != "condition"@[0]);
        assert("dependsOn"@[0] != "variables"@[0]);
        assert("condition"@[0] != "variables"@[0]);
    }

    /// A mapping with a key outside the keys of a job with steps is refused for
    /// a key outside them, whatever else it holds.
    pub proof fn law_undeclared_key_is_refused(m: Seq<(Seq<char>, ValueView)>, i: int)
        requires
            0 <= i < m.len(),
            !Self::keys().contains(m[i].0),
        ensures
            Self::decoded(ValueView::Mapping(m)) matches Err(
                DecodeErrorView::UnrecognizedField { path, key },
            ) && path.len() == 0 && !Self::keys().contains(key),
    {
        lemma_entries_refused(m, Self::keys(), i);
    }
}

impl Decode for JobWithSteps {
    /// Every field of a job with steps is optional.
    open spec fn decoded(v: ValueView) -> Result<JobWithStepsView, DecodeErrorView> {
        match opened(v, Self::keys()) {
            Err(e) => Err(e),
            Ok(m) => {
                let name = opt_text_field(m, "job"@);
                let display_name = opt_text_field(m, "displayName"@);
                let depends_on = opt_nested_field::<DependsOn>(m, "dependsOn"@);
                let condition = opt_text_field(m, "condition"@);
                let pool = opt_text_field(m, "pool"@);
                let timeout_in_minutes = opt_text_field(m, "timeoutInMinutes"@);
                let variables = mapping_field(m, "variables"@);
                let steps = items_field::<Step>(m, "steps"@, false);
                if name is Err {
                    Err(name->Err_0)
                } else if display_name is Err {
                    Err(display_name->Err_0)
                } else if depends_on is Err {
                    Err(depends_on->Err_0)
                } else if condition is Err {
                    Err(condition->Err_0)
                } else if pool is Err {
                    Err(pool->Err_0)
                } else if timeout_in_minutes is Err {
                    Err(timeout_in_minutes->Err_0)
                } else if variables is Err {
                    Err(variables->Err_0)
                } else if steps is Err {
                    Err(steps->Err_0)
                } else {
                    Ok(
                        JobWithStepsView {
                            name: name->Ok_0,
                            display_name: display_name->Ok_0,
                            depends_on: depends_on->Ok_0,
                            condition: condition->Ok_0,
                            pool: pool->Ok_0,
                            timeout_in_minutes: timeout_in_minutes->Ok_0,
                            variables: variables->Ok_0,
                            steps: steps->Ok_0,
                        },
                    )
                }
            },
        }
    }

    fn decode(v: &Value) -> (r: Result<JobWithSteps, DecodeError>)
        ensures
            result_view(r) == Self::decoded(v@),
    {
        let keys = ["job", "displayName", "dependsOn", "condition", "pool", "timeoutInMinutes", "variables", "steps"];
        assert(key_texts(keys@) =~= Self::keys());
        let m = open_shape(v, &keys)?;
        let name = get_opt_text(m, "job")?;
        let display_name = get_opt_text(m, "displayName")?;
        let depends_on = get_opt_nested::<DependsOn>(m, "dependsOn")?;
        let condition = get_opt_text(m, "condition")?;
        let pool = get_opt_text(m, "pool")?;
        let timeout_in_minutes = get_opt_text(m, "timeoutInMinutes")?;
        let variables = get_mapping(m, "variables")?;
        let steps = get_items::<Step>(m, "steps", false)?;
        Ok(JobWithSteps { name, display_name, depends_on, condition, pool, timeout_in_minutes, variables, steps })
    }
}

impl Encode for JobWithSteps {
    open spec fn encoded(x: JobWithStepsView) -> ValueView {
        ValueView::Mapping(Self::entries(x))
    }

    fn encode(&self) -> (v: Value)
        ensures
            v@ == Self::encoded(self@),
    {
        let mut entries: Vec<(String, Value)> = Vec::new();
        entries.push(field("job", put_opt_text(&self.name)));
        entries.push(field("displayName", put_opt_text(&self.display_name)));
        entries.push(field("dependsOn", put_opt::<DependsOn>(&self.depends_on)));
        entries.push(field("condition", put_opt_text(&self.condition)));
        entries.push(field("pool", put_opt_text(&self.pool)));
        entries.push(field("timeoutInMinutes", put_opt_text(&self.timeout_in_minutes)));
        entries.push(field("variables", put_mapping(&self.variables)));
        entries.push(field("steps", put_items::<Step>(&self.steps)));
        proof {
            lemma_mapping_view(entries);
            assert(views_of(entries@) =~= Self::entries(self@));
        }
        Value::Mapping(entries)
    }

    proof fn lemma_encoded_is_not_null(x: JobWithStepsView)
        ensures
            !(Self::encoded(x) is Null),
    {
    }

    /// Of a node that is accepted: decoding it, encoding what was read and
    /// decoding that gives what the first decoding gave.
    proof fn round_trip(v: ValueView)
        ensures
            Self::decoded(Self::encoded(Self::decoded(v)->Ok_0)) == Self::decoded(v),
    {
        let m = opened(v, Self::keys())->Ok_0;
        let x = Self::decoded(v)->Ok_0;
        let e = Self::entries(x);
        Self::lemma_keys_distinct();
        assert(e.len() == Self::keys().len());
        assert forall|i: int| 0 <= i < e.len() implies (#[trigger] e[i]).0 == Self::keys()[i] by {}
        lemma_entries_accepted(e, Self::keys());
        lemma_lookup_at(e, 0);
        lemma_lookup_at(e, 1);
        lemma_lookup_at(e, 2);
        lemma_lookup_at(e, 3);
        lemma_lookup_at(e, 4);
        lemma_lookup_at(e, 5);
        lemma_lookup_at(e, 6);
        lemma_lookup_at(e, 7);
        if present(m, "dependsOn"@) is Some {
            DependsOn::round_trip(present(m, "dependsOn"@)->Some_0);
            DependsOn::lemma_encoded_is_not_null(x.depends_on->Some_0);
        }
        lemma_items_field_round_trip::<Step>(m, "steps"@, false);
    }
}

impl JobWithTemplate {
    /// The keys of a job template reference.
    pub open spec fn keys() -> Seq<Seq<char>> {
        seq![
            "template"@,
            "parameters"@,
        ]
    }

    /// The entries of the document form of a job template reference.
    pub open spec fn entries(x: JobWithTemplateView) -> Seq<(Seq<char>, ValueView)> {
        seq![
            ("template"@, encoded_opt_text(x.template)),
            ("parameters"@, ValueView::Mapping(x.parameters)),
        ]
    }

    /// The keys of a job template reference differ from one another.
    pub proof fn lemma_keys_distinct()
        ensures
            forall|i: int, j: int|
                0 <= i < j < Self::keys().len() ==> Self::keys()[i] != Self::keys()[j],
    {
        reveal_strlit("template");
        assert("template"@.len() == 8);
        reveal_strlit("parameters");
        assert("parameters"@.len() == 10);
    }

    /// A mapping with a key outside the keys of a job template reference is
    /// refused for a key outside them, whatever else it holds.
    pub proof fn law_undeclared_key_is_refused(m: Seq<(Seq<char>, ValueView)>, i: int)
        requires
            0 <= i < m.len(),
            !Self::keys().contains(m[i].0),
        ensures
            Self::decoded(ValueView::Mapping(m)) matches Err(
                DecodeErrorView::UnrecognizedField { path, key },
            ) && path.len() == 0 && !Self::keys().contains(key),
    {
        lemma_entries_refused(m, Self::keys(), i);
    }
}

impl Decode for JobWithTemplate {
    open spec fn decoded(v: ValueView) -> Result<JobWithTemplateView, DecodeErrorView> {
        match opened(v, Self::keys()) {
            Err(e) => Err(e),
            Ok(m) => {
                let template = opt_text_field(m, "template"@);
                let parameters = mapping_field(m, "parameters"@);
                if template is Err {
                    Err(template->Err_0)
                } else if parameters is Err {
                    Err(parameters->Err_0)
                } else {
                    Ok(
                        JobWithTemplateView {
                            template: template->Ok_0,
                            parameters: parameters->Ok_0,
                        },
                    )
                }
            },
        }
    }

    fn decode(v: &Value) -> (r: Result<JobWithTemplate, DecodeError>)
        ensures
            result_view(r) == Self::decoded(v@),
    {
        let keys = ["template", "parameters"];
        assert(key_texts(keys@) =~= Self::keys());
        let m = open_shape(v, &keys)?;
        let template = get_opt_text(m, "template")?;
        let parameters = get_mapping(m, "parameters")?;
        Ok(JobWithTemplate { template, parameters })
    }
}

impl Encode for JobWithTemplate {
    open spec fn encoded(x: JobWithTemplateView) -> ValueView {
        ValueView::Mapping(Self::entries(x))
    }

    fn encode(&self) -> (v: Value)
        ensures
            v@ == Self::encoded(self@),
    {
        let mut entries: Vec<(String, Value)> = Vec::new();
        entries.push(field("template", put_opt_text(&self.template)));
        entries.push(field("parameters", put_mapping(&self.parameters)));
        proof {
            lemma_mapping_view(entries);
            assert(views_of(entries@) =~= Self::entries(self@));
        }
        Value::Mapping(entries)
    }

    proof fn lemma_encoded_is_not_null(x: JobWithTemplateView)
        ensures
            !(Self::encoded(x) is Null),
    {
    }

    /// Of a node that is accepted: decoding it, encoding what was read and
    /// decoding that gives what the first decoding gave.
    proof fn round_trip(v: ValueView)
        ensures
            Self::decoded(Self::encoded(Self::decoded(v)->Ok_0)) == Self::decoded(v),
    {
        let m = opened(v, Self::keys())->Ok_0;
        let x = Self::decoded(v)->Ok_0;
        let e = Self::entries(x);
        Self::lemma_keys_distinct();
        assert(e.len() == Self::keys().len());
        assert forall|i: int| 0 <= i < e.len() implies (#[trigger] e[i]).0 == Self::keys()[i] by {}
        lemma_entries_accepted(e, Self::keys());
        lemma_lookup_at(e, 0);
        lemma_lookup_at(e, 1);
    }
}

} // verus!
