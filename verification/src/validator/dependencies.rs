//! Every `dependsOn` reference must name an entity that was introduced
//! earlier in the same scope: a stage may depend on stages before it, a job
//! on jobs before it in its own stage.

use crate::decode::{lookup, opt_text, opt_view};
use crate::fields::find;
use crate::schema::v1::depends::{DependsOn, DependsOnView};
use crate::schema::v1::job::{Job, JobView};
use crate::schema::v1::stage::{Stage, StageView};
use crate::value::{views_of, ValueView};
use vstd::hash_set::StringHashSet;
use vstd::prelude::*;
use vstd::string::StringExecFns;

verus! {

/// The kind of entity that a scope holds.
#[derive(Clone, Copy, Debug, PartialEq, Eq, Structural)]
pub enum Scope {
    Stage,
    Job,
}

/// What the validator reads of one entity of a scope.
pub ghost struct ScopeEntry {
    /// The name it goes by in failure messages.
    pub label: Option<Seq<char>>,
    /// The names it depends on, in the order they are written.
    pub depends_on: Seq<Seq<char>>,
    /// The name that later entities of the scope may depend on.
    pub introduces: Option<Seq<char>>,
}

/// The names that a `dependsOn` property holds; none where it is absent.
pub open spec fn predecessors(d: Option<DependsOnView>) -> Seq<Seq<char>> {
    match d {
        Some(d) => d.names(),
        None => Seq::empty(),
    }
}

/// A stage with jobs depends on what it says and introduces its name. A
/// stage template reference is opaque: it depends on nothing and
/// introduces nothing.
pub open spec fn stage_entry(s: StageView) -> ScopeEntry {
    match s {
        StageView::Stage(s) => ScopeEntry {
            label: s.name,
            depends_on: predecessors(s.depends_on),
            introduces: s.name,
        },
        StageView::Template(_) => ScopeEntry {
            label: None,
            depends_on: Seq::empty(),
            introduces: None,
        },
    }
}

/// The name that a job template reference goes by: the text under
/// `jobNameOverride` in its parameters, if there is one.
pub open spec fn name_override(parameters: Seq<(Seq<char>, ValueView)>) -> Option<Seq<char>> {
    match lookup(parameters, "jobNameOverride"@) {
        Some(ValueView::Text(name)) => Some(name),
        _ => None,
    }
}

/// A job with steps depends on what it says and introduces its name. A job
/// template reference depends on nothing and introduces its name override.
pub open spec fn job_entry(j: JobView) -> ScopeEntry {
    match j {
        JobView::Job(j) => ScopeEntry {
            label: j.name,
            depends_on: predecessors(j.depends_on),
            introduces: j.name,
        },
        JobView::Template(t) => ScopeEntry {
            label: None,
            depends_on: Seq::empty(),
            introduces: name_override(t.parameters),
        },
    }
}

/// The scope of the stages of a pipeline.
pub open spec fn stage_scope(stages: Seq<StageView>) -> Seq<ScopeEntry> {
    Seq::new(stages.len(), |i: int| stage_entry(stages[i]))
}

/// The scope of a list of jobs.
pub open spec fn jobs_scope(jobs: Seq<JobView>) -> Seq<ScopeEntry> {
    Seq::new(jobs.len(), |j: int| job_entry(jobs[j]))
}

/// The scope of the jobs of one stage. Each stage has a scope of its own; that
/// of a stage template reference is empty.
pub open spec fn job_scope(stage: StageView) -> Seq<ScopeEntry> {
    match stage {
        StageView::Stage(s) => jobs_scope(s.jobs),
        StageView::Template(_) => Seq::empty(),
    }
}

/// The names introduced by the entities before position `i`.
pub open spec fn names_before(scope: Seq<ScopeEntry>, i: int) -> Set<Seq<char>> {
    Set::new(
        |name: Seq<char>|
            exists|j: int| 0 <= j < i && j < scope.len() && scope[j].introduces == Some(name),
    )
}

/// Reference `k` of entity `i` names nothing that was introduced before `i`.
pub open spec fn unresolved(scope: Seq<ScopeEntry>, i: int, k: int) -> bool {
    &&& 0 <= i < scope.len()
    &&& 0 <= k < scope[i].depends_on.len()
    &&& !names_before(scope, i).contains(scope[i].depends_on[k])
}

/// Every reference of the scope names an entity introduced before it.
pub open spec fn resolved(scope: Seq<ScopeEntry>) -> bool {
    forall|i: int, k: int| !unresolved(scope, i, k)
}

/// Reference `k` of entity `i` is the first unresolved one of the scope, in
/// document order.
pub open spec fn first_unresolved(scope: Seq<ScopeEntry>, i: int, k: int) -> bool {
    &&& unresolved(scope, i, k)
    &&& forall|i2: int, k2: int| i2 < i || (i2 == i && k2 < k) ==> !unresolved(scope, i2, k2)
}

/// The word for an entity of a scope.
pub open spec fn scope_word(scope: Scope) -> Seq<char> {
    match scope {
        Scope::Stage => "stage"@,
        Scope::Job => "job"@,
    }
}

/// How a failure message calls the dependent entity: by its name, and `None`
/// where it has none.
pub open spec fn label_text(label: Option<Seq<char>>) -> Seq<char> {
    match label {
        Some(name) => name,
        None => "None"@,
    }
}

/// The failure message for a dependent entity and the name it does not find.
pub open spec fn message_text(scope: Scope, label: Option<Seq<char>>, missing: Seq<char>) -> Seq<
    char,
> {
    scope_word(scope) + " "@ + label_text(label) + " depends on non-existent "@ + scope_word(scope)
        + " "@ + missing
}

/// `message` reports the first unresolved reference of `scope`.
pub open spec fn reports_first(kind: Scope, scope: Seq<ScopeEntry>, message: Seq<char>) -> bool {
    exists|i: int, k: int|
        #![trigger unresolved(scope, i, k)]
        first_unresolved(scope, i, k) && message == message_text(
            kind,
            scope[i].label,
            scope[i].depends_on[k],
        )
}

/// Every job reference of every stage is resolved within its stage.
pub open spec fn jobs_resolved(stages: Seq<StageView>) -> bool {
    forall|s: int| 0 <= s < stages.len() ==> resolved(#[trigger] job_scope(stages[s]))
}

/// `message` reports the first unresolved job reference of the first stage
/// that has one.
pub open spec fn reports_first_job(stages: Seq<StageView>, message: Seq<char>) -> bool {
    exists|s: int|
        #![trigger job_scope(stages[s])]
        {
            &&& 0 <= s < stages.len()
            &&& forall|s2: int| 0 <= s2 < s ==> resolved(#[trigger] job_scope(stages[s2]))
            &&& reports_first(Scope::Job, job_scope(stages[s]), message)
        }
}

/// What validation returns: nothing where every reference is resolved;
/// otherwise the message for the first unresolved stage reference or, where
/// the stages are in order, for the first unresolved job reference.
pub open spec fn validated(stages: Seq<StageView>, r: Result<(), Seq<char>>) -> bool {
    match r {
        Ok(()) => resolved(stage_scope(stages)) && jobs_resolved(stages),
        Err(message) => {
            ||| reports_first(Scope::Stage, stage_scope(stages), message)
            ||| (resolved(stage_scope(stages)) && reports_first_job(stages, message))
        },
    }
}

/// The text of a validator's result.
pub open spec fn outcome(r: Result<(), String>) -> Result<(), Seq<char>> {
    match r {
        Ok(()) => Ok(()),
        Err(message) => Err(message@),
    }
}

/// The failure message for a dependent entity and the name it does not find.
pub fn unresolved_message(scope: Scope, label: &Option<String>, missing: &str) -> (message: String)
    ensures
        message@ == message_text(scope, opt_text(*label), missing@),
{
    let word = match scope {
        Scope::Stage => "stage",
        Scope::Job => "job",
    };
    let mut message = String::from_str(word);
    message.append(" ");
    match label {
        Some(name) => message.append(name.as_str()),
        None => message.append("None"),
    }
    message.append(" depends on non-existent ");
    message.append(word);
    message.append(" ");
    message.append(missing);
    message
}

/// The first name of `depends_on` that `seen` does not hold.
#[verifier::loop_isolation(false)]
fn first_unseen<'a>(depends_on: &'a Option<DependsOn>, seen: &StringHashSet) -> (r: Option<
    (&'a String, Ghost<int>),
>)
    ensures
        match r {
            Some((name, k)) => {
                &&& 0 <= k@ < predecessors(opt_view(*depends_on)).len()
                &&& predecessors(opt_view(*depends_on))[k@] == name@
                &&& !seen@.contains(name@)
                &&& forall|k2: int|
                    0 <= k2 < k@ ==> seen@.contains(predecessors(opt_view(*depends_on))[k2])
            },
            None => forall|k: int|
                0 <= k < predecessors(opt_view(*depends_on)).len() ==> seen@.contains(
                    predecessors(opt_view(*depends_on))[k],
                ),
        },
{
    match depends_on {
        None => None,
        Some(DependsOn::Single(other)) => {
            if !seen.contains(other.as_str()) {
                Some((other, Ghost(0)))
            } else {
                None
            }
        },
        Some(DependsOn::Multi(others)) => {
            let mut k: usize = 0;
            while k < others.len()
                invariant
                    k <= others@.len(),
                    forall|k2: int| 0 <= k2 < k ==> seen@.contains(others@[k2]@),
                decreases others@.len() - k,
            {
                if !seen.contains(others[k].as_str()) {
                    return Some((&others[k], Ghost(k as int)));
                }
                k += 1;
            }
            None
        },
    }
}

/// Checks the references between stages, in document order, and reports the
/// first that is unresolved.
pub fn validate_stage_depends(stages: &[Stage]) -> (r: Result<(), String>)
    ensures
        match r {
            Ok(()) => resolved(stage_scope(views_of(stages@))),
            Err(message) => reports_first(Scope::Stage, stage_scope(views_of(stages@)), message@),
        },
{
    let ghost scope = stage_scope(views_of(stages@));
    let mut stage_names = StringHashSet::new();
    let mut i: usize = 0;
    assert(stage_names@ =~= names_before(scope, 0));
    while i < stages.len()
        invariant
            i <= stages@.len(),
            scope == stage_scope(views_of(stages@)),
            stage_names@ == names_before(scope, i as int),
            forall|i2: int, k: int| i2 < i ==> !unresolved(scope, i2, k),
        decreases stages@.len() - i,
    {
        assert(scope[i as int] == stage_entry(stages@[i as int]@));
        if let Stage::Stage(stage) = &stages[i] {
            if let Some((other, k)) = first_unseen(&stage.depends_on, &stage_names) {
                assert(first_unresolved(scope, i as int, k@));
                return Err(unresolved_message(Scope::Stage, &stage.name, other.as_str()));
            }
            if let Some(name) = &stage.name {
                stage_names.insert(name.clone());
            }
        }
        assert(stage_names@ =~= names_before(scope, i + 1)) by {
            lemma_names_step(scope, i as int);
        }
        i += 1;
    }
    Ok(())
}

/// The names before position `i + 1` are those before `i` and the one that
/// entity `i` introduces.
pub proof fn lemma_names_step(scope: Seq<ScopeEntry>, i: int)
    requires
        0 <= i < scope.len(),
    ensures
        names_before(scope, i + 1) == match scope[i].introduces {
            Some(name) => names_before(scope, i).insert(name),
            None => names_before(scope, i),
        },
{
    let next = names_before(scope, i + 1);
    let expected = match scope[i].introduces {
        Some(name) => names_before(scope, i).insert(name),
        None => names_before(scope, i),
    };
    assert forall|name: Seq<char>| next.contains(name) <==> expected.contains(name) by {
        if next.contains(name) {
            let j = choose|j: int|
                0 <= j < i + 1 && j < scope.len() && scope[j].introduces == Some(name);
            if j < i {
                assert(names_before(scope, i).contains(name));
            }
        }
        if expected.contains(name) {
            if names_before(scope, i).contains(name) {
                let j = choose|j: int|
                    0 <= j < i && j < scope.len() && scope[j].introduces == Some(name);
                assert(0 <= j < i + 1 && j < scope.len() && scope[j].introduces == Some(name));
            } else {
                assert(scope[i].introduces == Some(name));
            }
        }
    }
    assert(next =~= expected);
}

/// Checks the references between the jobs of one stage, in document order,
/// and reports the first that is unresolved.
pub fn validate_jobs_of_stage(jobs: &Vec<Job>) -> (r: Result<(), String>)
    ensures
        match r {
            Ok(()) => resolved(jobs_scope(views_of(jobs@))),
            Err(message) => reports_first(Scope::Job, jobs_scope(views_of(jobs@)), message@),
        },
{
    let ghost scope = jobs_scope(views_of(jobs@));
    let mut job_names = StringHashSet::new();
    let mut i: usize = 0;
    assert(job_names@ =~= names_before(scope, 0));
    while i < jobs.len()
        invariant
            i <= jobs@.len(),
            scope == jobs_scope(views_of(jobs@)),
            job_names@ == names_before(scope, i as int),
            forall|i2: int, k: int| i2 < i ==> !unresolved(scope, i2, k),
        decreases jobs@.len() - i,
    {
        assert(scope[i as int] == job_entry(jobs@[i as int]@));
        match &jobs[i] {
            Job::Job(job) => {
                if let Some((other, k)) = first_unseen(&job.depends_on, &job_names) {
                    assert(first_unresolved(scope, i as int, k@));
                    return Err(unresolved_message(Scope::Job, &job.name, other.as_str()));
                }
                if let Some(name) = &job.name {
                    job_names.insert(name.clone());
                }
            },
            Job::Template(job) => {
                if let Some(name) = find(&job.parameters, "jobNameOverride") {
                    if let Some(name) = name.as_str() {
                        job_names.insert(name.to_owned());
                    }
                }
            },
        }
        assert(job_names@ =~= names_before(scope, i + 1)) by {
            lemma_names_step(scope, i as int);
        }
        i += 1;
    }
    Ok(())
}

/// Checks the references between jobs, stage by stage: the names seen start
/// afresh in every stage.
pub fn validate_job_depends(stages: &[Stage]) -> (r: Result<(), String>)
    ensures
        match r {
            Ok(()) => jobs_resolved(views_of(stages@)),
            Err(message) => reports_first_job(views_of(stages@), message@),
        },
{
    let ghost sv = views_of(stages@);
    let mut s: usize = 0;
    while s < stages.len()
        invariant
            s <= stages@.len(),
            sv == views_of(stages@),
            forall|s2: int| 0 <= s2 < s ==> resolved(#[trigger] job_scope(sv[s2])),
        decreases stages@.len() - s,
    {
        if let Stage::Stage(stage) = &stages[s] {
            assert(job_scope(sv[s as int]) == jobs_scope(views_of(stage.jobs@)));
            match validate_jobs_of_stage(&stage.jobs) {
                Ok(()) => {},
                Err(message) => {
                    assert(reports_first(Scope::Job, job_scope(sv[s as int]), message@));
                    return Err(message);
                },
            }
        } else {
            assert(job_scope(sv[s as int]) =~= Seq::<ScopeEntry>::empty());
        }
        s += 1;
    }
    Ok(())
}

/// Validates the `dependsOn` references of a list of stages: first those
/// between stages, then those between the jobs of each stage.
pub fn validate_dependencies(stages: &[Stage]) -> (r: Result<(), String>)
    ensures
        validated(views_of(stages@), outcome(r)),
{
    match validate_stage_depends(stages) {
        Err(message) => Err(message),
        Ok(()) => validate_job_depends(stages),
    }
}

} // verus!
