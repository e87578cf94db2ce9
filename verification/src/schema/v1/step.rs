//! Steps are a linear sequence of operations that make up a job.

use crate::decode::{
    flag_field_or_false, key_texts, mapping_field, opened, opt_int32_field, opt_nested_field,
    opt_text, opt_text_field, opt_view, present, result_view, text_field, text_pairs_field,
    Decode,
};
use crate::encode::{
    encoded_opt, encoded_opt_int32, encoded_opt_text, encoded_text_pairs, field,
    lemma_entries_accepted, lemma_entries_refused, lemma_lookup_at, lemma_text_pairs_round_trip,
    put_mapping, put_opt, put_opt_int32, put_opt_text, put_text, put_text_pairs, Encode,
};
use crate::error::{no_variant_of_three, DecodeError, DecodeErrorView, Shape};
use crate::fields::{
    get_flag_or_false, get_mapping, get_opt_int32, get_opt_nested, get_opt_text, get_text,
    get_text_pairs, open_shape,
};
use crate::value::{lemma_mapping_view, views_of, Value, ValueView};
use vstd::prelude::*;

verus! {

/// A step of a job, tried as a checkout, then as a task, then as a template
/// reference.
#[derive(Clone, Debug, PartialEq)]
pub enum Step {
    /// Configure how the pipeline checks out source code
    Checkout(CheckoutStep),
    /// Runs a task
    Step(TaskStep),
    /// A set of steps defined in another file
    Template(TemplateStep),
}

pub ghost enum StepView {
    Checkout(CheckoutStepView),
    Step(TaskStepView),
    Template(TemplateStepView),
}

impl View for Step {
    type V = StepView;

    open spec fn view(&self) -> StepView {
        match self {
            Step::Checkout(x) => StepView::Checkout(x@),
            Step::Step(x) => StepView::Step(x@),
            Step::Template(x) => StepView::Template(x@),
        }
    }
}

/// Configures how the pipeline checks out source code.
#[derive(Clone, Debug, PartialEq, Default)]
pub struct CheckoutStep {
    /// Configures checkout for the specified repository
    pub checkout: Option<String>,
    /// Whether to leave the OAuth token in the Git config after the initial
    /// fetch. The default is not to leave it.
    pub persist_credentials: bool,
}

pub ghost struct CheckoutStepView {
    pub checkout: Option<Seq<char>>,
    pub persist_credentials: bool,
}

impl View for CheckoutStep {
    type V = CheckoutStepView;

    open spec fn view(&self) -> CheckoutStepView {
        CheckoutStepView {
            checkout: opt_text(self.checkout),
            persist_credentials: self.persist_credentials,
        }
    }
}

/// A `task` step runs a task.
#[derive(Clone, Debug, PartialEq, Default)]
pub struct TaskStep {
    /// Evaluate this condition expression to determine whether to run the task
    pub condition: Option<String>,
    /// Human-readable name for the task
    pub display_name: Option<String>,
    /// Variables to map into the process's environment
    pub env: Vec<(String, String)>,
    /// Inputs for the task
    pub inputs: Vec<(String, String)>,
    /// ID of the step
    pub name: Option<String>,
    /// Number of retries if the task fails
    pub retry_count_on_task_failure: Option<i32>,
    /// Environment in which to run the task
    pub target: Option<StepTarget>,
    /// Name of the task to run
    pub task: Option<String>,
}

pub ghost struct TaskStepView {
    pub condition: Option<Seq<char>>,
    pub display_name: Option<Seq<char>>,
    pub env: Seq<(Seq<char>, Seq<char>)>,
    pub inputs: Seq<(Seq<char>, Seq<char>)>,
    pub name: Option<Seq<char>>,
    pub retry_count_on_task_failure: Option<i32>,
    pub target: Option<StepTargetView>,
    pub task: Option<Seq<char>>,
}

impl View for TaskStep {
    type V = TaskStepView;

    open spec fn view(&self) -> TaskStepView {
        TaskStepView {
            condition: opt_text(self.condition),
            display_name: opt_text(self.display_name),
            env: views_of(self.env@),
            inputs: views_of(self.inputs@),
            name: opt_text(self.name),
            retry_count_on_task_failure: self.retry_count_on_task_failure,
            target: opt_view(self.target),
            task: opt_text(self.task),
        }
    }
}

/// Where a task runs: the agent host or a container.
#[derive(Clone, Debug, PartialEq, Default)]
pub struct StepTarget {
    /// Container to target (or 'host' for host machine)
    pub container: String,
}

pub ghost struct StepTargetView {
    pub container: Seq<char>,
}

impl View for StepTarget {
    type V = StepTargetView;

    open spec fn view(&self) -> StepTargetView {
        StepTargetView {
            container: self.container@,
        }
    }
}

/// A set of steps defined in one file and used in another.
#[derive(Clone, Debug, PartialEq, Default)]
pub struct TemplateStep {
    /// Reference to a template for this step
    pub template: Option<String>,
    /// Parameters used in a step template
    pub parameters: Vec<(String, Value)>,
}

pub ghost struct TemplateStepView {
    pub template: Option<Seq<char>>,
    pub parameters: Seq<(Seq<char>, ValueView)>,
}

impl View for TemplateStep {
    type V = TemplateStepView;

    open spec fn view(&self) -> TemplateStepView {
        TemplateStepView {
            template: opt_text(self.template),
            parameters: views_of(self.parameters@),
        }
    }
}

impl Decode for Step {
    /// The first of checkout, task and template reference that accepts the
    /// node; where none does, the failure of each.
    open spec fn decoded(v: ValueView) -> Result<StepView, DecodeErrorView> {
        let checkout = CheckoutStep::decoded(v);
        let task = TaskStep::decoded(v);
        let template = TemplateStep::decoded(v);
        if checkout is Ok {
            Ok(StepView::Checkout(checkout->Ok_0))
        } else if task is Ok {
            Ok(StepView::Step(task->Ok_0))
        } else if template is Ok {
            Ok(StepView::Template(template->Ok_0))
        } else {
            Err(
                DecodeErrorView::NoVariantMatched {
                    path: Seq::empty(),
                    shapes: seq![Shape::Checkout, Shape::Task, Shape::StepTemplate],
                    errors: seq![checkout->Err_0, task->Err_0, template->Err_0],
                },
            )
        }
    }

    fn decode(v: &Value) -> (r: Result<Step, DecodeError>)
        ensures
            result_view(r) == Self::decoded(v@),
    {
        match CheckoutStep::decode(v) {
            Ok(x) => Ok(Step::Checkout(x)),
            Err(e0) => match TaskStep::decode(v) {
                Ok(x) => Ok(Step::Step(x)),
                Err(e1) => match TemplateStep::decode(v) {
                    Ok(x) => Ok(Step::Template(x)),
                    Err(e2) => Err(no_variant_of_three(Shape::Checkout, e0, Shape::Task, e1, Shape::StepTemplate, e2)),
                },
            },
        }
    }
}

impl Step {
    /// A mapping with a key that no candidate shape declares is refused by
    /// every candidate, each time for a key that it does not declare.
    pub proof fn law_undeclared_key_matches_no_shape(m: Seq<(Seq<char>, ValueView)>, i: int)
        requires
            0 <= i < m.len(),
            !CheckoutStep::keys().contains(m[i].0),
            !TaskStep::keys().contains(m[i].0),
            !TemplateStep::keys().contains(m[i].0),
        ensures
            Self::decoded(ValueView::Mapping(m)) matches Err(
                DecodeErrorView::NoVariantMatched { path, shapes, errors },
            ) && path.len() == 0 && errors.len() == 3 && forall|j: int|
                0 <= j < errors.len() ==> #[trigger] errors[j] is UnrecognizedField,
    {
        CheckoutStep::law_undeclared_key_is_refused(m, i);
        TaskStep::law_undeclared_key_is_refused(m, i);
        TemplateStep::law_undeclared_key_is_refused(m, i);
    }
}

impl Encode for Step {
    open spec fn encoded(x: StepView) -> ValueView {
        match x {
            StepView::Checkout(y) => CheckoutStep::encoded(y),
            StepView::Step(y) => TaskStep::encoded(y),
            StepView::Template(y) => TemplateStep::encoded(y),
        }
    }

    fn encode(&self) -> (v: Value)
        ensures
            v@ == Self::encoded(self@),
    {
        match self {
            Step::Checkout(y) => y.encode(),
            Step::Step(y) => y.encode(),
            Step::Template(y) => y.encode(),
        }
    }

    proof fn lemma_encoded_is_not_null(x: StepView)
        ensures
            !(Self::encoded(x) is Null),
    {
        match x {
            StepView::Checkout(y) => CheckoutStep::lemma_encoded_is_not_null(y),
            StepView::Step(y) => TaskStep::lemma_encoded_is_not_null(y),
            StepView::Template(y) => TemplateStep::lemma_encoded_is_not_null(y),
        }
    }

    /// Of a node that is accepted: decoding it, encoding what was read and
    /// decoding that gives what the first decoding gave.
    proof fn round_trip(v: ValueView)
        ensures
            Self::decoded(Self::encoded(Self::decoded(v)->Ok_0)) == Self::decoded(v),
    {
        if CheckoutStep::decoded(v) is Ok {
            CheckoutStep::round_trip(v);
        } else if CheckoutStep::decoded(v) is Err && TaskStep::decoded(v) is Ok {
            TaskStep::round_trip(v);
            let e = TaskStep::entries(TaskStep::decoded(v)->Ok_0);
            reveal_strlit("condition");
            assert("condition"@.len() == 9);
            reveal_strlit("checkout");
            assert("checkout"@.len() == 8);
            reveal_strlit("persist_credentials");
            assert("persist_credentials"@.len() == 19);
            assert(!CheckoutStep::keys().contains(e[0].0));
            CheckoutStep::law_undeclared_key_is_refused(e, 0);
        } else if CheckoutStep::decoded(v) is Err && TaskStep::decoded(v) is Err && TemplateStep::decoded(v) is Ok {
            TemplateStep::round_trip(v);
            let e = TemplateStep::entries(TemplateStep::decoded(v)->Ok_0);
            reveal_strlit("template");
            assert("template"@.len() == 8);
            reveal_strlit("checkout");
            assert("checkout"@.len() == 8);
            reveal_strlit("persist_credentials");
            assert("persist_credentials"@.len() == 19);
            reveal_strlit("condition");
            assert("condition"@.len() == 9);
            reveal_strlit("displayName");
            assert("displayName"@.len() == 11);
            reveal_strlit("env");
            assert("env"@.len() == 3);
            reveal_strlit("inputs");
            assert("inputs"@.len() == 6);
            reveal_strlit("name");
            assert("name"@.len() == 4);
            reveal_strlit("retryCountOnTaskFailure");
            assert("retryCountOnTaskFailure"@.len() == 23);
            reveal_strlit("target");
            assert("target"@.len() == 6);
            reveal_strlit("task");
            assert("task"@.len() == 4);
            assert("template"@[0] != "checkout"@[0]);
            assert(!CheckoutStep::keys().contains(e[0].0));
            CheckoutStep::law_undeclared_key_is_refused(e, 0);
            assert(!TaskStep::keys().contains(e[0].0));
            TaskStep::law_undeclared_key_is_refused(e, 0);
        }
    }
}

impl CheckoutStep {
    /// The keys of a checkout step.
    pub open spec fn keys() -> Seq<Seq<char>> {
        seq![
            "checkout"@,
            "persist_credentials"@,
        ]
    }

    /// The entries of the document form of a checkout step.
    pub open spec fn entries(x: CheckoutStepView) -> Seq<(Seq<char>, ValueView)> {
        seq![
            ("checkout"@, encoded_opt_text(x.checkout)),
            ("persist_credentials"@, ValueView::Bool(x.persist_credentials)),
        ]
    }

    /// The keys of a checkout step differ from one another.
    pub proof fn lemma_keys_distinct()
        ensures
            forall|i: int, j: int|
                0 <= i < j < Self::keys().len() ==> Self::keys()[i] != Self::keys()[j],
    {
        reveal_strlit("checkout");
        assert("checkout"@.len() == 8);
        reveal_strlit("persist_credentials");
        assert("persist_credentials"@.len() == 19);
    }

    /// A mapping with a key outside the keys of a checkout step is refused for
    /// a key outside them, whatever else it holds.
    pub proof fn law_undeclared_key_is_refused(m: Seq<(Seq<char>, ValueView)>, i: int)
        requires
            0 <= i < m.len(),
            !Self::keys().contains(m[i].0),
        ensures
            Self::decoded(ValueView::Mapping(m)) matches Err(
                DecodeErrorView::UnrecognizedField { path, key },
            ) && path.len() == 0 && !Self::keys().contains(key),
    {
        lemma_entries_refused(m, Self::keys(), i);
    }
}

impl Decode for CheckoutStep {
    open spec fn decoded(v: ValueView) -> Result<CheckoutStepView, DecodeErrorView> {
        match opened(v, Self::keys()) {
            Err(e) => Err(e),
            Ok(m) => {
                let checkout = opt_text_field(m, "checkout"@);
                let persist_credentials = flag_field_or_false(m, "persist_credentials"@);
                if checkout is Err {
                    Err(checkout->Err_0)
                } else if persist_credentials is Err {
                    Err(persist_credentials->Err_0)
                } else {
                    Ok(
                        CheckoutStepView {
                            checkout: checkout->Ok_0,
                            persist_credentials: persist_credentials->Ok_0,
                        },
                    )
                }
            },
        }
    }

    fn decode(v: &Value) -> (r: Result<CheckoutStep, DecodeError>)
        ensures
            result_view(r) == Self::decoded(v@),
    {
        let keys = ["checkout", "persist_credentials"];
        assert(key_texts(keys@) =~= Self::keys());
        let m = open_shape(v, &keys)?;
        let checkout = get_opt_text(m, "checkout")?;
        let persist_credentials = get_flag_or_false(m, "persist_credentials")?;
        Ok(CheckoutStep { checkout, persist_credentials })
    }
}

impl Encode for CheckoutStep {
    open spec fn encoded(x: CheckoutStepView) -> ValueView {
        ValueView::Mapping(Self::entries(x))
    }

    fn encode(&self) -> (v: Value)
        ensures
            v@ == Self::encoded(self@),
    {
        let mut entries: Vec<(String, Value)> = Vec::new();
        entries.push(field("checkout", put_opt_text(&self.checkout)));
        entries.push(field("persist_credentials", Value::Bool(self.persist_credentials)));
        proof {
            lemma_mapping_view(entries);
            assert(views_of(entries@) =~= Self::entries(self@));
        }
        Value::Mapping(entries)
    }

    proof fn lemma_encoded_is_not_null(x: CheckoutStepView)
        ensures
            !(Self::encoded(x) is Null),
    {
    }

    /// Of a node that is accepted: decoding it, encoding what was read and
    /// decoding that gives what the first decoding gave.
    proof fn round_trip(v: ValueView)
        ensures
            Self::decoded(Self::encoded(Self::decoded(v)->Ok_0)) == Self::decoded(v),
    {
        let m = opened(v, Self::keys())->Ok_0;
        let x = Self::decoded(v)->Ok_0;
        let e = Self::entries(x);
        Self::lemma_keys_distinct();
        assert(e.len() == Self::keys().len());
        assert forall|i: int| 0 <= i < e.len() implies (#[trigger] e[i]).0 == Self::keys()[i] by {}
        lemma_entries_accepted(e, Self::keys());
        lemma_lookup_at(e, 0);
        lemma_lookup_at(e, 1);
    }
}

impl TaskStep {
    /// The keys of a task step.
    pub open spec fn keys() -> Seq<Seq<char>> {
        seq![
            "condition"@,
            "displayName"@,
            "env"@,
            "inputs"@,
            "name"@,
            "retryCountOnTaskFailure"@,
            "target"@,
            "task"@,
        ]
    }

    /// The entries of the document form of a task step.
    pub open spec fn entries(x: TaskStepView) -> Seq<(Seq<char>, ValueView)> {
        seq![
            ("condition"@, encoded_opt_text(x.condition)),
            ("displayName"@, encoded_opt_text(x.display_name)),
            ("env"@, encoded_text_pairs(x.env)),
            ("inputs"@, encoded_text_pairs(x.inputs)),
            ("name"@, encoded_opt_text(x.name)),
            ("retryCountOnTaskFailure"@, encoded_opt_int32(x.retry_count_on_task_failure)),
            ("target"@, encoded_opt::<StepTarget>(x.target)),
            ("task"@, encoded_opt_text(x.task)),
        ]
    }

    /// The keys of a task step differ from one another.
    pub proof fn lemma_keys_distinct()
        ensures
            forall|i: int, j: int|
                0 <= i < j < Self::keys().len() ==> Self::keys()[i] != Self::keys()[j],
    {
        reveal_strlit("condition");
        assert("condition"@.len() == 9);
        reveal_strlit("displayName");
        assert("displayName"@.len() == 11);
        reveal_strlit("env");
        assert("env"@.len() == 3);
        reveal_strlit("inputs");
        assert("inputs"@.len() == 6);
        reveal_strlit("name");
        assert("name"@.len() == 4);
        reveal_strlit("retryCountOnTaskFailure");
        assert("retryCountOnTaskFailure"@.len() == 23);
        reveal_strlit("target");
        assert("target"@.len() == 6);
        reveal_strlit("task");
        assert("task"@.len() == 4);
        assert("inputs"@[0] != "target"@[0]);
        assert("name"@[0] != "task"@[0]);
    }

    /// A mapping with a key outside the keys of a task step is refused for a
    /// key outside them, whatever else it holds.
    pub proof fn law_undeclared_key_is_refused(m: Seq<(Seq<char>, ValueView)>, i: int)
        requires
            0 <= i < m.len(),
            !Self::keys().contains(m[i].0),
        ensures
            Self::decoded(ValueView::Mapping(m)) matches Err(
                DecodeErrorView::UnrecognizedField { path, key },
            ) && path.len() == 0 && !Self::keys().contains(key),
    {
        lemma_entries_refused(m, Self::keys(), i);
    }
}

impl Decode for TaskStep {
    /// Of the fields of a task only `inputs` is required.
    open spec fn decoded(v: ValueView) -> Result<TaskStepView, DecodeErrorView> {
        match opened(v, Self::keys()) {
            Err(e) => Err(e),
            Ok(m) => {
                let condition = opt_text_field(m, "condition"@);
                let display_name = opt_text_field(m, "displayName"@);
                let env = text_pairs_field(m, "env"@, false);
                let inputs = text_pairs_field(m, "inputs"@, true);
                let name = opt_text_field(m, "name"@);
                let retry_count_on_task_failure = opt_int32_field(m, "retryCountOnTaskFailure"@);
                let target = opt_nested_field::<StepTarget>(m, "target"@);
                let task = opt_text_field(m, "task"@);
                if condition is Err {
                    Err(condition->Err_0)
                } else if display_name is Err {
                    Err(display_name->Err_0)
                } else if env is Err {
                    Err(env->Err_0)
                } else if inputs is Err {
                    Err(inputs->Err_0)
                } else if name is Err {
                    Err(name->Err_0)
                } else if retry_count_on_task_failure is Err {
                    Err(retry_count_on_task_failure->Err_0)
                } else if target is Err {
                    Err(target->Err_0)
                } else if task is Err {
                    Err(task->Err_0)
                } else {
                    Ok(
                        TaskStepView {
                            condition: condition->Ok_0,
                            display_name: display_name->Ok_0,
                            env: env->Ok_0,
                            inputs: inputs->Ok_0,
                            name: name->Ok_0,
                            retry_count_on_task_failure: retry_count_on_task_failure->Ok_0,
                            target: target->Ok_0,
                            task: task->Ok_0,
                        },
                    )
                }
            },
        }
    }

    fn decode(v: &Value) -> (r: Result<TaskStep, DecodeError>)
        ensures
            result_view(r) == Self::decoded(v@),
    {
        let keys = ["condition", "displayName", "env", "inputs", "name", "retryCountOnTaskFailure", "target", "task"];
        assert(key_texts(keys@) =~= Self::keys());
        let m = open_shape(v, &keys)?;
        let condition = get_opt_text(m, "condition")?;
        let display_name = get_opt_text(m, "displayName")?;
        let env = get_text_pairs(m, "env", false)?;
        let inputs = get_text_pairs(m, "inputs", true)?;
        let name = get_opt_text(m, "name")?;
        let retry_count_on_task_failure = get_opt_int32(m, "retryCountOnTaskFailure")?;
        let target = get_opt_nested::<StepTarget>(m, "target")?;
        let task = get_opt_text(m, "task")?;
        Ok(TaskStep { condition, display_name, env, inputs, name, retry_count_on_task_failure, target, task })
    }
}

impl Encode for TaskStep {
    open spec fn encoded(x: TaskStepView) -> ValueView {
        ValueView::Mapping(Self::entries(x))
    }

    fn encode(&self) -> (v: Value)
        ensures
            v@ == Self::encoded(self@),
    {
        let mut entries: Vec<(String, Value)> = Vec::new();
        entries.push(field("condition", put_opt_text(&self.condition)));
        entries.push(field("displayName", put_opt_text(&self.display_name)));
        entries.push(field("env", put_text_pairs(&self.env)));
        entries.push(field("inputs", put_text_pairs(&self.inputs)));
        entries.push(field("name", put_opt_text(&self.name)));
        entries.push(field("retryCountOnTaskFailure", put_opt_int32(&self.retry_count_on_task_failure)));
        entries.push(field("target", put_opt::<StepTarget>(&self.target)));
        entries.push(field("task", put_opt_text(&self.task)));
        proof {
            lemma_mapping_view(entries);
            assert(views_of(entries@) =~= Self::entries(self@));
        }
        Value::Mapping(entries)
    }

    proof fn lemma_encoded_is_not_null(x: TaskStepView)
        ensures
            !(Self::encoded(x) is Null),
    {
    }

    /// Of a node that is accepted: decoding it, encoding what was read and
    /// decoding that gives what the first decoding gave.
    proof fn round_trip(v: ValueView)
        ensures
            Self::decoded(Self::encoded(Self::decoded(v)->Ok_0)) == Self::decoded(v),
    {
        let m = opened(v, Self::keys())->Ok_0;
        let x = Self::decoded(v)->Ok_0;
        let e = Self::entries(x);
        Self::lemma_keys_distinct();
        assert(e.len() == Self::keys().len());
        assert forall|i: int| 0 <= i < e.len() implies (#[trigger] e[i]).0 == Self::keys()[i] by {}
        lemma_entries_accepted(e, Self::keys());
        lemma_lookup_at(e, 0);
        lemma_lookup_at(e, 1);
        lemma_lookup_at(e, 2);
        lemma_lookup_at(e, 3);
        lemma_lookup_at(e, 4);
        lemma_lookup_at(e, 5);
        lemma_lookup_at(e, 6);
        lemma_lookup_at(e, 7);
        lemma_text_pairs_round_trip("env"@, x.env);
        lemma_text_pairs_round_trip("inputs"@, x.inputs);
        if present(m, "target"@) is Some {
            StepTarget::round_trip(present(m, "target"@)->Some_0);
            StepTarget::lemma_encoded_is_not_null(x.target->Some_0);
        }
    }
}

impl StepTarget {
    /// The keys of an execution target.
    pub open spec fn keys() -> Seq<Seq<char>> {
        seq![
            "container"@,
        ]
    }

    /// The entries of the document form of an execution target.
    pub open spec fn entries(x: StepTargetView) -> Seq<(Seq<char>, ValueView)> {
        seq![
            ("container"@, ValueView::Text(x.container)),
        ]
    }

    /// The keys of an execution target differ from one another.
    pub proof fn lemma_keys_distinct()
        ensures
            forall|i: int, j: int|
                0 <= i < j < Self::keys().len() ==> Self::keys()[i] != Self::keys()[j],
    {
        reveal_strlit("container");
        assert("container"@.len() == 9);
    }

    /// A mapping with a key outside the keys of an execution target is refused
    /// for a key outside them, whatever else it holds.
    pub proof fn law_undeclared_key_is_refused(m: Seq<(Seq<char>, ValueView)>, i: int)
        requires
            0 <= i < m.len(),
            !Self::keys().contains(m[i].0),
        ensures
            Self::decoded(ValueView::Mapping(m)) matches Err(
                DecodeErrorView::UnrecognizedField { path, key },
            ) && path.len() == 0 && !Self::keys().contains(key),
    {
        lemma_entries_refused(m, Self::keys(), i);
    }
}

impl Decode for StepTarget {
    open spec fn decoded(v: ValueView) -> Result<StepTargetView, DecodeErrorView> {
        match opened(v, Self::keys()) {
            Err(e) => Err(e),
            Ok(m) => {
                let container = text_field(m, "container"@);
                if container is Err {
                    Err(container->Err_0)
                } else {
                    Ok(
                        StepTargetView {
                            container: container->Ok_0,
                        },
                    )
                }
            },
        }
    }

    fn decode(v: &Value) -> (r: Result<StepTarget, DecodeError>)
        ensures
            result_view(r) == Self::decoded(v@),
    {
        let keys = ["container"];
        assert(key_texts(keys@) =~= Self::keys());
        let m = open_shape(v, &keys)?;
        let container = get_text(m, "container")?;
        Ok(StepTarget { container })
    }
}

impl Encode for StepTarget {
    open spec fn encoded(x: StepTargetView) -> ValueView {
        ValueView::Mapping(Self::entries(x))
    }

    fn encode(&self) -> (v: Value)
        ensures
            v@ == Self::encoded(self@),
    {
        let mut entries: Vec<(String, Value)> = Vec::new();
        entries.push(field("container", put_text(&self.container)));
        proof {
            lemma_mapping_view(entries);
            assert(views_of(entries@) =~= Self::entries(self@));
        }
        Value::Mapping(entries)
    }

    proof fn lemma_encoded_is_not_null(x: StepTargetView)
        ensures
            !(Self::encoded(x) is Null),
    {
    }

    /// Of a node that is accepted: decoding it, encoding what was read and
    /// decoding that gives what the first decoding gave.
    proof fn round_trip(v: ValueView)
        ensures
            Self::decoded(Self::encoded(Self::decoded(v)->Ok_0)) == Self::decoded(v),
    {
        let m = opened(v, Self::keys())->Ok_0;
        let x = Self::decoded(v)->Ok_0;
        let e = Self::entries(x);
        Self::lemma_keys_distinct();
        assert(e.len() == Self::keys().len());
        assert forall|i: int| 0 <= i < e.len() implies (#[trigger] e[i]).0 == Self::keys()[i] by {}
        lemma_entries_accepted(e, Self::keys());
        lemma_lookup_at(e, 0);
    }
}

impl TemplateStep {
    /// The keys of a step template reference.
    pub open spec fn keys() -> Seq<Seq<char>> {
        seq![
            "template"@,
            "parameters"@,
        ]
    }

    /// The entries of the document form of a step template reference.
    pub open spec fn entries(x: TemplateStepView) -> Seq<(Seq<char>, ValueView)> {
        seq![
            ("template"@, encoded_opt_text(x.template)),
            ("parameters"@, ValueView::Mapping(x.parameters)),
        ]
    }

    /// The keys of a step template reference differ from one another.
    pub proof fn lemma_keys_distinct()
        ensures
            forall|i: int, j: int|
                0 <= i < j < Self::keys().len() ==> Self::keys()[i] != Self::keys()[j],
    {
        reveal_strlit("template");
        assert("template"@.len() == 8);
        reveal_strlit("parameters");
        assert("parameters"@.len() == 10);
    }

    /// A mapping with a key outside the keys of a step template reference is
    /// refused for a key outside them, whatever else it holds.
    pub proof fn law_undeclared_key_is_refused(m: Seq<(Seq<char>, ValueView)>, i: int)
        requires
            0 <= i < m.len(),
            !Self::keys().contains(m[i].0),
        ensures
            Self::decoded(ValueView::Mapping(m)) matches Err(
                DecodeErrorView::UnrecognizedField { path, key },
            ) && path.len() == 0 && !Self::keys().contains(key),
    {
        lemma_entries_refused(m, Self::keys(), i);
    }
}

impl Decode for TemplateStep {
    open spec fn decoded(v: ValueView) -> Result<TemplateStepView, DecodeErrorView> {
        match opened(v, Self::keys()) {
            Err(e) => Err(e),
            Ok(m) => {
                let template = opt_text_field(m, "template"@);
                let parameters = mapping_field(m, "parameters"@);
                if template is Err {
                    Err(template->Err_0)
                } else if parameters is Err {
                    Err(parameters->Err_0)
                } else {
                    Ok(
                        TemplateStepView {
                            template: template->Ok_0,
                            parameters: parameters->Ok_0,
                        },
                    )
                }
            },
        }
    }

    fn decode(v: &Value) -> (r: Result<TemplateStep, DecodeError>)
        ensures
            result_view(r) == Self::decoded(v@),
    {
        let keys = ["template", "parameters"];
        assert(key_texts(keys@) =~= Self::keys());
        let m = open_shape(v, &keys)?;
        let template = get_opt_text(m, "template")?;
        let parameters = get_mapping(m, "parameters")?;
        Ok(TemplateStep { template, parameters })
    }
}

impl Encode for TemplateStep {
    open spec fn encoded(x: TemplateStepView) -> ValueView {
        ValueView::Mapping(Self::entries(x))
    }

    fn encode(&self) -> (v: Value)
        ensures
            v@ == Self::encoded(self@),
    {
        let mut entries: Vec<(String, Value)> = Vec::new();
        entries.push(field("template", put_opt_text(&self.template)));
        entries.push(field("parameters", put_mapping(&self.parameters)));
        proof {
            lemma_mapping_view(entries);
            assert(views_of(entries@) =~= Self::entries(self@));
        }
        Value::Mapping(entries)
    }

    proof fn lemma_encoded_is_not_null(x: TemplateStepView)
        ensures
            !(Self::encoded(x) is Null),
    {
    }

    /// Of a node that is accepted: decoding it, encoding what was read and
    /// decoding that gives what the first decoding gave.
    proof fn round_trip(v: ValueView)
        ensures
            Self::decoded(Self::encoded(Self::decoded(v)->Ok_0)) == Self::decoded(v),
    {
        let m = opened(v, Self::keys())->Ok_0;
        let x = Self::decoded(v)->Ok_0;
        let e = Self::entries(x);
        Self::lemma_keys_distinct();
        assert(e.len() == Self::keys().len());
        assert forall|i: int| 0 <= i < e.len() implies (#[trigger] e[i]).0 == Self::keys()[i] by {}
        lemma_entries_accepted(e, Self::keys());
        lemma_lookup_at(e, 0);
        lemma_lookup_at(e, 1);
    }
}

} // verus!
