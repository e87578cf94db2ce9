use azure_pipelines_rs::decode::Decode;
use azure_pipelines_rs::error::{DecodeError, Segment, Shape};
use azure_pipelines_rs::schema::v1::depends::DependsOn;
use azure_pipelines_rs::schema::v1::extends::{Extends, ExtendsParameters, GoProxy};
use azure_pipelines_rs::schema::v1::job::{Job, JobWithSteps, JobWithTemplate};
use azure_pipelines_rs::schema::v1::pipeline::{
    Pipeline, PipelineParameter, PipelineVariable, ValueVariable, VariableGroup,
};
use azure_pipelines_rs::schema::v1::stage::{Stage, StageWithJobs, StageWithTemplate};
use azure_pipelines_rs::schema::v1::step::{CheckoutStep, Step, StepTarget, TaskStep, TemplateStep};
use azure_pipelines_rs::schema::v1::trigger::{PipelineTrigger, Trigger, TriggerItem};
use azure_pipelines_rs::templates::entrypoints::example::{
    ExampleEntrypoint, ExampleEntrypointParameters,
};
use azure_pipelines_rs::templates::parameterized::{template_parameters, Parameterized};
use azure_pipelines_rs::value::{has_distinct_keys, is_well_formed, same_text, Kind, Value};

fn text(t: &str) -> Value {
    Value::Text(t.to_string())
}

fn mapping(entries: Vec<(&str, Value)>) -> Value {
    Value::Mapping(entries.into_iter().map(|(k, v)| (k.to_string(), v)).collect())
}

fn unrecognized(key: &str) -> DecodeError {
    DecodeError::UnrecognizedField { path: vec![], key: key.to_string() }
}

#[test]
fn step_with_checkout_and_task_fields_matches_no_shape() {
    let node = mapping(vec![("checkout", text("self")), ("task", text("Bash@3"))]);
    assert_eq!(
        Step::decode(&node),
        Err(DecodeError::NoVariantMatched {
            path: vec![],
            shapes: vec![Shape::Checkout, Shape::Task, Shape::StepTemplate],
            errors: vec![unrecognized("task"), unrecognized("checkout"), unrecognized("checkout")],
        })
    );
}

#[test]
fn checkout_step_is_decoded() {
    let node = mapping(vec![("checkout", text("self")), ("persist_credentials", Value::Bool(true))]);
    assert_eq!(
        Step::decode(&node),
        Ok(Step::Checkout(CheckoutStep {
            checkout: Some("self".to_string()),
            persist_credentials: true
        }))
    );
}

#[test]
fn empty_mapping_is_a_checkout_step() {
    assert_eq!(Step::decode(&mapping(vec![])), Ok(Step::Checkout(CheckoutStep::default())));
}

#[test]
fn task_step_is_decoded() {
    let node = mapping(vec![
        ("task", text("Bash@3")),
        ("displayName", text("Run")),
        ("inputs", mapping(vec![("script", text("make"))])),
        ("retryCountOnTaskFailure", Value::Integer(3)),
        ("target", mapping(vec![("container", text("host"))])),
        ("condition", Value::Null),
    ]);
    assert_eq!(
        Step::decode(&node),
        Ok(Step::Step(TaskStep {
            condition: None,
            display_name: Some("Run".to_string()),
            env: vec![],
            inputs: vec![("script".to_string(), "make".to_string())],
            name: None,
            retry_count_on_task_failure: Some(3),
            target: Some(StepTarget { container: "host".to_string() }),
            task: Some("Bash@3".to_string()),
        }))
    );
}

#[test]
fn task_step_without_inputs_is_refused() {
    let node = mapping(vec![("task", text("Bash@3"))]);
    assert_eq!(
        TaskStep::decode(&node),
        Err(DecodeError::MissingRequiredField { path: vec![], key: "inputs".to_string() })
    );
}

#[test]
fn retry_count_outside_32_bits_is_a_mismatch() {
    let node = mapping(vec![
        ("inputs", mapping(vec![])),
        ("retryCountOnTaskFailure", Value::Integer(2147483648)),
    ]);
    assert_eq!(
        TaskStep::decode(&node),
        Err(DecodeError::TypeMismatch {
            path: vec![],
            key: "retryCountOnTaskFailure".to_string(),
            expected: Kind::Integer,
            actual: Kind::Integer,
        })
    );
    let node = mapping(vec![
        ("inputs", mapping(vec![])),
        ("retryCountOnTaskFailure", Value::Integer(-2147483648)),
    ]);
    assert_eq!(
        TaskStep::decode(&node).map(|t| t.retry_count_on_task_failure),
        Ok(Some(-2147483648))
    );
}

#[test]
fn template_step_is_decoded() {
    let node = mapping(vec![
        ("template", text("steps.yml")),
        ("parameters", mapping(vec![("depth", Value::Integer(1))])),
    ]);
    assert_eq!(
        Step::decode(&node),
        Ok(Step::Template(TemplateStep {
            template: Some("steps.yml".to_string()),
            parameters: vec![("depth".to_string(), Value::Integer(1))],
        }))
    );
}

#[test]
fn node_that_is_no_mapping_is_a_mismatch_under_the_empty_key() {
    assert_eq!(
        CheckoutStep::decode(&text("self")),
        Err(DecodeError::TypeMismatch {
            path: vec![],
            key: String::new(),
            expected: Kind::Mapping,
            actual: Kind::Text
        })
    );
}

#[test]
fn unknown_key_is_refused_by_a_fixed_shape() {
    let node = mapping(vec![("container", text("host")), ("image", text("x"))]);
    assert_eq!(StepTarget::decode(&node), Err(unrecognized("image")));
}

#[test]
fn first_unknown_key_in_document_order_is_reported() {
    let node = mapping(vec![("zeta", Value::Null), ("container", text("host")), ("alpha", Value::Null)]);
    assert_eq!(StepTarget::decode(&node), Err(unrecognized("zeta")));
}

#[test]
fn unknown_key_is_reported_before_a_missing_field() {
    let node = mapping(vec![("image", text("x"))]);
    assert_eq!(StepTarget::decode(&node), Err(unrecognized("image")));
    assert_eq!(
        StepTarget::decode(&mapping(vec![])),
        Err(DecodeError::MissingRequiredField { path: vec![], key: "container".to_string() })
    );
}

#[test]
fn unknown_key_in_a_stage_matches_no_shape() {
    let node = mapping(vec![("jobs", Value::List(vec![])), ("colour", text("red"))]);
    assert_eq!(
        Stage::decode(&node),
        Err(DecodeError::NoVariantMatched {
            path: vec![],
            shapes: vec![Shape::StageWithJobs, Shape::StageTemplate],
            errors: vec![unrecognized("colour"), unrecognized("jobs")],
        })
    );
}

#[test]
fn stage_without_jobs_is_tried_as_template() {
    let node = mapping(vec![("stage", text("A"))]);
    assert_eq!(
        Stage::decode(&node),
        Err(DecodeError::NoVariantMatched {
            path: vec![],
            shapes: vec![Shape::StageWithJobs, Shape::StageTemplate],
            errors: vec![
                DecodeError::MissingRequiredField { path: vec![], key: "jobs".to_string() },
                unrecognized("stage"),
            ],
        })
    );
    assert_eq!(
        Stage::decode(&mapping(vec![])),
        Ok(Stage::Template(StageWithTemplate::default()))
    );
}

#[test]
fn stage_with_jobs_is_decoded_in_document_order() {
    let node = mapping(vec![
        ("stage", text("Build")),
        ("dependsOn", Value::List(vec![text("Init"), text("Lint")])),
        (
            "jobs",
            Value::List(vec![
                mapping(vec![("job", text("compile")), ("dependsOn", text("fetch"))]),
                mapping(vec![("template", text("jobs.yml"))]),
                mapping(vec![]),
            ]),
        ),
    ]);
    assert_eq!(
        Stage::decode(&node),
        Ok(Stage::Stage(StageWithJobs {
            name: Some("Build".to_string()),
            depends_on: Some(DependsOn::Multi(vec!["Init".to_string(), "Lint".to_string()])),
            jobs: vec![
                Job::Job(JobWithSteps {
                    name: Some("compile".to_string()),
                    depends_on: Some(DependsOn::Single("fetch".to_string())),
                    ..JobWithSteps::default()
                }),
                Job::Template(JobWithTemplate {
                    template: Some("jobs.yml".to_string()),
                    parameters: vec![]
                }),
                Job::Job(JobWithSteps::default()),
            ],
            ..StageWithJobs::default()
        }))
    );
}

#[test]
fn failure_of_a_list_item_is_the_failure_of_the_list() {
    let node = mapping(vec![(
        "jobs",
        Value::List(vec![mapping(vec![]), mapping(vec![("job", Value::Integer(1))])]),
    )]);
    let job_failure = DecodeError::NoVariantMatched {
        path: vec![Segment::Key("jobs".to_string()), Segment::Item(1)],
        shapes: vec![Shape::JobWithSteps, Shape::JobTemplate],
        errors: vec![
            DecodeError::TypeMismatch {
                path: vec![],
                key: "job".to_string(),
                expected: Kind::Text,
                actual: Kind::Integer,
            },
            unrecognized("job"),
        ],
    };
    assert_eq!(StageWithJobs::decode(&node), Err(job_failure));
}

#[test]
fn depends_on_takes_a_name_or_a_list_of_names() {
    assert_eq!(DependsOn::decode(&text("A")), Ok(DependsOn::Single("A".to_string())));
    assert_eq!(DependsOn::decode(&Value::List(vec![])), Ok(DependsOn::Multi(vec![])));
    assert_eq!(
        DependsOn::decode(&Value::List(vec![text("A"), Value::Bool(true)])),
        Err(DecodeError::NoVariantMatched {
            path: vec![],
            shapes: vec![Shape::DependsOnSingle, Shape::DependsOnMulti],
            errors: vec![
                DecodeError::TypeMismatch {
                    path: vec![],
                    key: String::new(),
                    expected: Kind::Text,
                    actual: Kind::List
                },
                DecodeError::TypeMismatch {
                    path: vec![],
                    key: String::new(),
                    expected: Kind::Text,
                    actual: Kind::Bool
                },
            ],
        })
    );
}

#[test]
fn trigger_is_a_text_or_the_full_syntax() {
    assert_eq!(Trigger::decode(&text("none")), Ok(Trigger::Disabled("none".to_string())));
    let key = ["incl", "ude"].concat();
    let full = mapping(vec![(
        "branches",
        mapping(vec![(key.as_str(), Value::List(vec![text("main")]))]),
    )]);
    assert_eq!(
        Trigger::decode(&full),
        Ok(Trigger::Trigger(PipelineTrigger {
            branches: Some(TriggerItem { included: vec!["main".to_string()], excluded: vec![] }),
            paths: None,
        }))
    );
}

#[test]
fn variable_is_a_group_or_a_name_with_a_value() {
    assert_eq!(
        PipelineVariable::decode(&mapping(vec![("group", text("secrets"))])),
        Ok(PipelineVariable::Group(VariableGroup { group: "secrets".to_string() }))
    );
    assert_eq!(
        PipelineVariable::decode(&mapping(vec![("name", text("a")), ("value", text("b"))])),
        Ok(PipelineVariable::Variable(ValueVariable {
            name: "a".to_string(),
            value: "b".to_string()
        }))
    );
}

#[test]
fn required_flag_is_read() {
    assert_eq!(
        GoProxy::decode(&mapping(vec![("enabled", Value::Bool(true))])),
        Ok(GoProxy { enabled: true })
    );
    assert_eq!(
        GoProxy::decode(&mapping(vec![("enabled", Value::Null)])),
        Err(DecodeError::TypeMismatch {
            path: vec![],
            key: "enabled".to_string(),
            expected: Kind::Bool,
            actual: Kind::Null
        })
    );
}

#[test]
fn first_entry_under_a_key_counts() {
    let node = mapping(vec![("container", text("first")), ("container", text("second"))]);
    assert_eq!(StepTarget::decode(&node), Ok(StepTarget { container: "first".to_string() }));
}

#[test]
fn pipeline_is_decoded() {
    let stages = Value::List(vec![mapping(vec![("stage", text("A")), ("jobs", Value::List(vec![]))])]);
    let node = mapping(vec![
        ("name", text("$(Date)")),
        ("trigger", text("none")),
        (
            "parameters",
            Value::List(vec![mapping(vec![
                ("name", text("depth")),
                ("type", text("number")),
                ("default", Value::Integer(1)),
            ])]),
        ),
        (
            "extends",
            mapping(vec![
                ("template", text("entry.yml")),
                ("parameters", mapping(vec![("stages", stages)])),
            ]),
        ),
    ]);
    let expected = Pipeline {
        extends: Extends {
            template: "entry.yml".to_string(),
            parameters: ExtendsParameters {
                containers: vec![],
                custom_build_tags: vec![],
                feature_flags: None,
                stages: vec![Stage::Stage(StageWithJobs {
                    name: Some("A".to_string()),
                    ..StageWithJobs::default()
                })],
            },
        },
        name: Some("$(Date)".to_string()),
        parameters: vec![PipelineParameter {
            name: "depth".to_string(),
            display_name: None,
            parameter_type: "number".to_string(),
            default: Some(Value::Integer(1)),
            values: vec![],
        }],
        pool: None,
        pr: None,
        resources: None,
        trigger: Some(Trigger::Disabled("none".to_string())),
        variables: vec![],
    };
    assert_eq!(Pipeline::decode(&node), Ok(expected));
}

#[test]
fn pipeline_without_extends_is_refused() {
    assert_eq!(
        Pipeline::decode(&mapping(vec![])),
        Err(DecodeError::MissingRequiredField { path: vec![], key: "extends".to_string() })
    );
}

#[test]
fn entry_point_parameters_are_read_from_a_parameter_mapping() {
    let parameters = vec![("stages".to_string(), Value::List(vec![mapping(vec![])]))];
    assert_eq!(
        ExampleEntrypoint::get_parameters(&parameters),
        Ok(ExampleEntrypointParameters {
            stages: vec![Stage::Template(StageWithTemplate::default())]
        })
    );
    let parameters = vec![("stage".to_string(), Value::Null)];
    assert_eq!(ExampleEntrypoint::get_parameters(&parameters), Err(unrecognized("stage")));
}

#[test]
fn texts_are_compared_by_their_characters() {
    assert!(same_text("jobs", "jobs"));
    assert!(!same_text("jobs", "job"));
    assert!(!same_text("jobs", "jobz"));
    assert!(same_text("", ""));
}

#[test]
fn copy_of_a_node_equals_the_node() {
    let node = mapping(vec![
        ("a", Value::List(vec![Value::Null, Value::Bool(true), Value::Real("1.5".to_string())])),
        ("b", mapping(vec![("c", Value::Integer(-3))])),
    ]);
    assert_eq!(node.clone(), node);
    assert_eq!(node.kind(), Kind::Mapping);
    assert_eq!(text("x").as_str(), Some("x"));
    assert_eq!(Value::Null.as_str(), None);
}

#[test]
fn tree_with_a_repeated_key_is_not_well_formed() {
    let twice = mapping(vec![("a", Value::Null), ("b", Value::Null), ("a", Value::Bool(true))]);
    let once = mapping(vec![("a", Value::Null), ("b", Value::Null), ("c", Value::Bool(true))]);
    assert!(!is_well_formed(&twice));
    assert!(is_well_formed(&once));
    assert!(!is_well_formed(&Value::List(vec![once.clone(), twice.clone()])));
    assert!(!is_well_formed(&mapping(vec![("x", Value::List(vec![twice]))])));
    assert!(is_well_formed(&mapping(vec![("x", Value::List(vec![once]))])));
    assert!(is_well_formed(&Value::Null));
    assert!(is_well_formed(&Value::List(vec![])));
}

#[test]
fn distinct_keys_are_told_from_repeated_keys() {
    let entries = |keys: &[&str]| -> Vec<(String, Value)> {
        keys.iter().map(|k| (k.to_string(), Value::Null)).collect()
    };
    assert!(has_distinct_keys(&entries(&[])));
    assert!(has_distinct_keys(&entries(&["a"])));
    assert!(has_distinct_keys(&entries(&["a", "b", "ab"])));
    assert!(!has_distinct_keys(&entries(&["a", "b", "a"])));
    assert!(!has_distinct_keys(&entries(&["b", "a", "a"])));
}

#[test]
fn template_parameters_are_found_under_extends() {
    let stages = Value::List(vec![]);
    let document = mapping(vec![
        ("name", text("x")),
        (
            "extends",
            mapping(vec![
                ("template", text("entry.yml")),
                ("parameters", mapping(vec![("stages", stages.clone())])),
            ]),
        ),
    ]);
    assert_eq!(template_parameters(&document), vec![("stages".to_string(), stages)]);
    assert_eq!(template_parameters(&mapping(vec![("extends", text("entry.yml"))])), vec![]);
    assert_eq!(template_parameters(&mapping(vec![("extends", mapping(vec![]))])), vec![]);
    assert_eq!(template_parameters(&Value::Null), vec![]);
}

#[test]
fn failure_deep_in_a_pipeline_carries_the_way_to_the_node() {
    let stages = Value::List(vec![
        mapping(vec![("jobs", Value::List(vec![]))]),
        mapping(vec![("jobs", Value::List(vec![])), ("colour", text("red"))]),
    ]);
    let node = mapping(vec![(
        "extends",
        mapping(vec![
            ("template", text("entry.yml")),
            ("parameters", mapping(vec![("stages", stages)])),
        ]),
    )]);
    assert_eq!(
        Pipeline::decode(&node),
        Err(DecodeError::NoVariantMatched {
            path: vec![
                Segment::Key("extends".to_string()),
                Segment::Key("parameters".to_string()),
                Segment::Key("stages".to_string()),
                Segment::Item(1),
            ],
            shapes: vec![Shape::StageWithJobs, Shape::StageTemplate],
            errors: vec![unrecognized("colour"), unrecognized("jobs")],
        })
    );
}

#[test]
fn failure_inside_an_optional_field_is_seen_from_its_holder() {
    let node = mapping(vec![
        ("inputs", mapping(vec![])),
        ("target", mapping(vec![("host", Value::Null)])),
    ]);
    assert_eq!(
        TaskStep::decode(&node),
        Err(DecodeError::UnrecognizedField {
            path: vec![Segment::Key("target".to_string())],
            key: "host".to_string()
        })
    );
    assert_eq!(
        unrecognized("host").under(Segment::Item(2)),
        DecodeError::UnrecognizedField { path: vec![Segment::Item(2)], key: "host".to_string() }
    );
}
