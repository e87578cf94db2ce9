use azure_pipelines_rs::schema::v1::depends::DependsOn;
use azure_pipelines_rs::schema::v1::job::{Job, JobWithSteps, JobWithTemplate};
use azure_pipelines_rs::schema::v1::stage::{Stage, StageWithJobs, StageWithTemplate};
use azure_pipelines_rs::validator::dependencies::{
    unresolved_message, validate_dependencies, validate_job_depends, validate_stage_depends, Scope,
};
use azure_pipelines_rs::value::Value;

fn stage(name: Option<&str>, depends_on: Option<DependsOn>, jobs: Vec<Job>) -> Stage {
    Stage::Stage(StageWithJobs {
        name: name.map(|n| n.to_string()),
        depends_on,
        jobs,
        ..StageWithJobs::default()
    })
}

fn job(name: Option<&str>, depends_on: Option<DependsOn>) -> Job {
    Job::Job(JobWithSteps {
        name: name.map(|n| n.to_string()),
        depends_on,
        ..JobWithSteps::default()
    })
}

fn job_template(parameters: Vec<(String, Value)>) -> Job {
    Job::Template(JobWithTemplate { template: Some("jobs.yml".to_string()), parameters })
}

fn single(name: &str) -> Option<DependsOn> {
    Some(DependsOn::Single(name.to_string()))
}

fn multi(names: &[&str]) -> Option<DependsOn> {
    Some(DependsOn::Multi(names.iter().map(|n| n.to_string()).collect()))
}

#[test]
fn no_stages_pass() {
    assert_eq!(validate_dependencies(&[]), Ok(()));
}

#[test]
fn stage_depending_on_earlier_stage_passes() {
    let stages = vec![stage(Some("A"), None, vec![]), stage(Some("B"), single("A"), vec![])];
    assert_eq!(validate_dependencies(&stages), Ok(()));
    assert_eq!(validate_stage_depends(&stages), Ok(()));
}

#[test]
fn stage_depending_on_later_stage_fails() {
    let stages = vec![stage(Some("B"), single("A"), vec![]), stage(Some("A"), None, vec![])];
    assert_eq!(
        validate_dependencies(&stages),
        Err("stage B depends on non-existent stage A".to_string())
    );
}

#[test]
fn stage_depending_on_itself_fails() {
    let stages = vec![stage(Some("A"), single("A"), vec![])];
    assert_eq!(
        validate_stage_depends(&stages),
        Err("stage A depends on non-existent stage A".to_string())
    );
}

#[test]
fn stage_with_list_of_earlier_stages_passes() {
    let stages = vec![
        stage(Some("A"), None, vec![]),
        stage(Some("B"), multi(&[]), vec![]),
        stage(Some("C"), multi(&["A", "B"]), vec![]),
    ];
    assert_eq!(validate_dependencies(&stages), Ok(()));
}

#[test]
fn first_unresolved_name_of_a_list_is_reported() {
    let stages = vec![
        stage(Some("A"), None, vec![]),
        stage(Some("D"), multi(&["A", "B", "C"]), vec![]),
        stage(Some("E"), single("Z"), vec![]),
    ];
    assert_eq!(
        validate_dependencies(&stages),
        Err("stage D depends on non-existent stage B".to_string())
    );
}

#[test]
fn unnamed_stage_is_reported_without_a_name() {
    let stages = vec![stage(None, single("A"), vec![])];
    assert_eq!(
        validate_dependencies(&stages),
        Err("stage None depends on non-existent stage A".to_string())
    );
}

#[test]
fn stage_template_introduces_no_name() {
    let template = Stage::Template(StageWithTemplate {
        template: Some("A".to_string()),
        parameters: vec![("stage".to_string(), Value::Text("A".to_string()))],
    });
    let stages = vec![template, stage(Some("B"), single("A"), vec![])];
    assert_eq!(
        validate_dependencies(&stages),
        Err("stage B depends on non-existent stage A".to_string())
    );
}

#[test]
fn job_depending_on_earlier_job_passes() {
    let stages = vec![stage(
        Some("A"),
        None,
        vec![job(Some("build"), None), job(Some("test"), single("build"))],
    )];
    assert_eq!(validate_dependencies(&stages), Ok(()));
    assert_eq!(validate_job_depends(&stages), Ok(()));
}

#[test]
fn job_depending_on_later_job_fails() {
    let stages = vec![stage(
        Some("A"),
        None,
        vec![job(Some("test"), single("build")), job(Some("build"), None)],
    )];
    assert_eq!(
        validate_dependencies(&stages),
        Err("job test depends on non-existent job build".to_string())
    );
}

#[test]
fn job_names_do_not_cross_stages() {
    let stages = vec![
        stage(Some("A"), None, vec![job(Some("build"), None)]),
        stage(Some("B"), single("A"), vec![job(Some("test"), single("build"))]),
    ];
    assert_eq!(validate_stage_depends(&stages), Ok(()));
    assert_eq!(
        validate_dependencies(&stages),
        Err("job test depends on non-existent job build".to_string())
    );
}

#[test]
fn job_may_not_depend_on_a_stage_name() {
    let stages = vec![
        stage(Some("A"), None, vec![]),
        stage(Some("B"), None, vec![job(Some("test"), single("A"))]),
    ];
    assert_eq!(
        validate_dependencies(&stages),
        Err("job test depends on non-existent job A".to_string())
    );
}

#[test]
fn job_template_with_name_override_can_be_depended_on() {
    let stages = vec![stage(
        Some("A"),
        None,
        vec![
            job_template(vec![(
                "jobNameOverride".to_string(),
                Value::Text("compile".to_string()),
            )]),
            job(Some("test"), single("compile")),
        ],
    )];
    assert_eq!(validate_dependencies(&stages), Ok(()));
}

#[test]
fn job_template_without_name_override_cannot_be_depended_on() {
    let stages = vec![stage(
        Some("A"),
        None,
        vec![job_template(vec![]), job(Some("test"), single("compile"))],
    )];
    assert_eq!(
        validate_dependencies(&stages),
        Err("job test depends on non-existent job compile".to_string())
    );
}

#[test]
fn name_override_that_is_no_text_introduces_no_name() {
    let stages = vec![stage(
        Some("A"),
        None,
        vec![
            job_template(vec![("jobNameOverride".to_string(), Value::Integer(7))]),
            job(None, single("7")),
        ],
    )];
    assert_eq!(
        validate_job_depends(&stages),
        Err("job None depends on non-existent job 7".to_string())
    );
}

#[test]
fn stage_failure_is_reported_before_job_failure() {
    let stages = vec![
        stage(Some("A"), None, vec![job(Some("test"), single("build"))]),
        stage(Some("B"), single("C"), vec![]),
    ];
    assert_eq!(
        validate_dependencies(&stages),
        Err("stage B depends on non-existent stage C".to_string())
    );
    assert_eq!(
        validate_job_depends(&stages),
        Err("job test depends on non-existent job build".to_string())
    );
}

#[test]
fn message_names_scope_dependent_and_target() {
    assert_eq!(
        unresolved_message(Scope::Job, &Some("pack".to_string()), "build"),
        "job pack depends on non-existent job build"
    );
    assert_eq!(
        unresolved_message(Scope::Stage, &None, "build"),
        "stage None depends on non-existent stage build"
    );
}
