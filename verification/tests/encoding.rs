use azure_pipelines_rs::decode::Decode;
use azure_pipelines_rs::encode::Encode;
use azure_pipelines_rs::schema::v1::depends::DependsOn;
use azure_pipelines_rs::schema::v1::extends::{
    Extends, ExtendsParameters, FeatureFlags, GoProxy, GolangFeatureFlags,
};
use azure_pipelines_rs::schema::v1::job::{Job, JobWithSteps, JobWithTemplate};
use azure_pipelines_rs::schema::v1::pipeline::{
    ContainerResource, Pipeline, PipelineParameter, PipelineResource, PipelineResources,
    PipelineVariable, RepositoryResource, ValueVariable, VariableGroup,
};
use azure_pipelines_rs::schema::v1::stage::{Stage, StageWithJobs, StageWithTemplate};
use azure_pipelines_rs::schema::v1::step::{CheckoutStep, Step, StepTarget, TaskStep, TemplateStep};
use azure_pipelines_rs::schema::v1::trigger::{
    PipelineResourceTrigger, PipelineTrigger, ResourceTrigger, Trigger, TriggerItem,
};
use azure_pipelines_rs::templates::entrypoints::example::ExampleEntrypointParameters;
use azure_pipelines_rs::value::Value;

fn text(t: &str) -> Value {
    Value::Text(t.to_string())
}

fn entry(key: &str, v: Value) -> (String, Value) {
    (key.to_string(), v)
}

fn some(t: &str) -> Option<String> {
    Some(t.to_string())
}

fn sample_steps() -> Vec<Step> {
    vec![
        Step::Checkout(CheckoutStep { checkout: some("self"), persist_credentials: true }),
        Step::Checkout(CheckoutStep::default()),
        Step::Step(TaskStep {
            condition: some("succeeded()"),
            display_name: some("Build"),
            env: vec![("CI".to_string(), "1".to_string())],
            inputs: vec![("script".to_string(), "make".to_string())],
            name: some("build"),
            retry_count_on_task_failure: Some(2),
            target: Some(StepTarget { container: "host".to_string() }),
            task: some("Bash@3"),
        }),
        Step::Step(TaskStep::default()),
        Step::Template(TemplateStep {
            template: some("steps.yml"),
            parameters: vec![entry("depth", Value::Integer(1)), entry("ratio", Value::Real("0.5".to_string()))],
        }),
        Step::Template(TemplateStep::default()),
    ]
}

fn sample_stages() -> Vec<Stage> {
    vec![
        Stage::Stage(StageWithJobs {
            name: some("Build"),
            display_name: some("Build it"),
            depends_on: Some(DependsOn::Multi(vec![])),
            condition: None,
            pool: some("default"),
            variables: vec![entry("a", Value::List(vec![Value::Null, Value::Bool(false)]))],
            jobs: vec![
                Job::Job(JobWithSteps {
                    name: some("compile"),
                    depends_on: Some(DependsOn::Single("fetch".to_string())),
                    timeout_in_minutes: some("10"),
                    steps: sample_steps(),
                    ..JobWithSteps::default()
                }),
                Job::Job(JobWithSteps::default()),
                Job::Template(JobWithTemplate {
                    template: some("jobs.yml"),
                    parameters: vec![entry("jobNameOverride", text("pack"))],
                }),
                Job::Template(JobWithTemplate::default()),
            ],
        }),
        Stage::Stage(StageWithJobs::default()),
        Stage::Template(StageWithTemplate {
            template: some("stages.yml"),
            parameters: vec![entry("x", Value::Mapping(vec![]))],
        }),
        Stage::Template(StageWithTemplate::default()),
    ]
}

fn sample_pipeline() -> Pipeline {
    let filter = TriggerItem { included: vec!["main".to_string()], excluded: vec!["wip/*".to_string()] };
    Pipeline {
        extends: Extends {
            template: "entry.yml".to_string(),
            parameters: ExtendsParameters {
                containers: vec![("linux".to_string(), "ubuntu:22.04".to_string())],
                custom_build_tags: vec!["nightly".to_string()],
                feature_flags: Some(FeatureFlags {
                    golang: GolangFeatureFlags { internal_module_proxy: GoProxy { enabled: true } },
                }),
                stages: sample_stages(),
            },
        },
        name: some("$(Date)"),
        parameters: vec![
            PipelineParameter {
                name: "depth".to_string(),
                display_name: some("Depth"),
                parameter_type: "number".to_string(),
                default: Some(Value::Integer(1)),
                values: vec!["1".to_string(), "2".to_string()],
            },
            PipelineParameter {
                name: "mode".to_string(),
                display_name: None,
                parameter_type: "string".to_string(),
                default: None,
                values: vec![],
            },
        ],
        pool: some("default"),
        pr: some("none"),
        resources: Some(PipelineResources {
            containers: vec![ContainerResource {
                name: "linux".to_string(),
                endpoint: None,
                image: "ubuntu:22.04".to_string(),
            }],
            pipelines: vec![
                PipelineResource {
                    pipeline: "upstream".to_string(),
                    source: "lib".to_string(),
                    trigger: Some(ResourceTrigger::Simple("true".to_string())),
                },
                PipelineResource {
                    pipeline: "other".to_string(),
                    source: "tool".to_string(),
                    trigger: Some(ResourceTrigger::Full(PipelineResourceTrigger {
                        branches: Some(filter.clone()),
                        tags: None,
                    })),
                },
            ],
            repositories: vec![RepositoryResource {
                alias: "templates".to_string(),
                repository_type: "git".to_string(),
                name: "org/templates".to_string(),
                repository_ref: "refs/heads/main".to_string(),
            }],
        }),
        trigger: Some(Trigger::Trigger(PipelineTrigger { branches: Some(filter), paths: None })),
        variables: vec![
            PipelineVariable::Group(VariableGroup { group: "secrets".to_string() }),
            PipelineVariable::Variable(ValueVariable {
                name: "a".to_string(),
                value: "b".to_string(),
            }),
        ],
    }
}

#[test]
fn record_is_written_with_every_key_in_order() {
    let stage = StageWithTemplate { template: some("stages.yml"), parameters: vec![] };
    assert_eq!(
        stage.encode(),
        Value::Mapping(vec![entry("template", text("stages.yml")), entry("parameters", Value::Mapping(vec![]))])
    );
    let step = CheckoutStep::default();
    assert_eq!(
        step.encode(),
        Value::Mapping(vec![entry("checkout", Value::Null), entry("persist_credentials", Value::Bool(false))])
    );
}

#[test]
fn job_with_steps_is_written_under_its_document_keys() {
    let job = JobWithSteps { name: some("compile"), ..JobWithSteps::default() };
    assert_eq!(
        job.encode(),
        Value::Mapping(vec![
            entry("job", text("compile")),
            entry("displayName", Value::Null),
            entry("dependsOn", Value::Null),
            entry("condition", Value::Null),
            entry("pool", Value::Null),
            entry("timeoutInMinutes", Value::Null),
            entry("variables", Value::Mapping(vec![])),
            entry("steps", Value::List(vec![])),
        ])
    );
}

#[test]
fn depends_on_is_written_as_text_or_list() {
    assert_eq!(DependsOn::Single("A".to_string()).encode(), text("A"));
    assert_eq!(
        DependsOn::Multi(vec!["A".to_string(), "B".to_string()]).encode(),
        Value::List(vec![text("A"), text("B")])
    );
}

#[test]
fn trigger_filter_is_written_under_its_document_keys() {
    let filter = TriggerItem { included: vec!["main".to_string()], excluded: vec![] };
    let key = ["incl", "ude"].concat();
    assert_eq!(
        filter.encode(),
        Value::Mapping(vec![entry(&key, Value::List(vec![text("main")])), entry("exclude", Value::List(vec![]))])
    );
    assert_eq!(Trigger::Disabled("none".to_string()).encode(), text("none"));
}

#[test]
fn retry_count_is_written_as_an_integer() {
    let task = TaskStep { retry_count_on_task_failure: Some(-7), ..TaskStep::default() };
    match task.encode() {
        Value::Mapping(entries) => assert_eq!(entries[5], entry("retryCountOnTaskFailure", Value::Integer(-7))),
        other => panic!("not a mapping: {:?}", other),
    }
}

#[test]
fn steps_are_read_back_from_their_document_form() {
    for step in sample_steps() {
        assert_eq!(Step::decode(&step.encode()), Ok(step));
    }
}

#[test]
fn stages_are_read_back_from_their_document_form() {
    for stage in sample_stages() {
        assert_eq!(Stage::decode(&stage.encode()), Ok(stage));
    }
}

#[test]
fn pipeline_is_read_back_from_its_document_form() {
    let pipeline = sample_pipeline();
    assert_eq!(Pipeline::decode(&pipeline.encode()), Ok(pipeline));
}

#[test]
fn entry_point_parameters_are_read_back_from_their_document_form() {
    let parameters = ExampleEntrypointParameters { stages: sample_stages() };
    assert_eq!(ExampleEntrypointParameters::decode(&parameters.encode()), Ok(parameters));
}

#[test]
fn decoding_encoding_and_decoding_again_changes_nothing() {
    let node = Value::Mapping(vec![
        entry("jobs", Value::List(vec![Value::Mapping(vec![entry("pool", Value::Null)])])),
        entry("stage", text("A")),
    ]);
    let first = Stage::decode(&node).unwrap();
    let second = Stage::decode(&first.encode()).unwrap();
    assert_eq!(first, second);
    assert_ne!(first.encode(), node);
}

#[test]
fn null_default_of_a_parameter_is_read_as_no_default() {
    let node = Value::Mapping(vec![
        entry("name", text("depth")),
        entry("type", text("number")),
        entry("default", Value::Null),
    ]);
    let first = PipelineParameter::decode(&node).unwrap();
    assert_eq!(first.default, None);
    assert_eq!(PipelineParameter::decode(&first.encode()), Ok(first));
}
