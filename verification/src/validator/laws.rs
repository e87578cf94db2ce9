//! What holds of validation on every list of stages.

use crate::schema::v1::stage::StageView;
use crate::validator::dependencies::{
    first_unresolved, job_scope, jobs_resolved, message_text, names_before, reports_first,
    reports_first_job, resolved, stage_scope, unresolved, validated, Scope, ScopeEntry,
};
use vstd::prelude::*;

verus! {

/// Position `(i, k)` comes no later than `(i2, k2)` in document order.
pub open spec fn no_later(i: int, k: int, i2: int, k2: int) -> bool {
    i < i2 || (i == i2 && k <= k2)
}

/// A scope with an unresolved reference has a first one, and it comes no
/// later than the given one.
pub proof fn lemma_first_unresolved_exists(scope: Seq<ScopeEntry>, i: int, k: int) -> (first: (
    int,
    int,
))
    requires
        unresolved(scope, i, k),
    ensures
        first_unresolved(scope, first.0, first.1),
        no_later(first.0, first.1, i, k),
    decreases i, k,
{
    if exists|i2: int, k2: int| (i2 < i || (i2 == i && k2 < k)) && unresolved(scope, i2, k2) {
        let (i2, k2) = choose|i2: int, k2: int|
            (i2 < i || (i2 == i && k2 < k)) && unresolved(scope, i2, k2);
        lemma_first_unresolved_exists(scope, i2, k2)
    } else {
        (i, k)
    }
}

/// A scope has at most one first unresolved reference.
pub proof fn lemma_first_unresolved_unique(
    scope: Seq<ScopeEntry>,
    i: int,
    k: int,
    i2: int,
    k2: int,
)
    requires
        first_unresolved(scope, i, k),
        first_unresolved(scope, i2, k2),
    ensures
        i == i2,
        k == k2,
{
}

/// The failure message ends with the name that was not found.
pub proof fn law_message_names_missing(scope: Scope, label: Option<Seq<char>>, missing: Seq<char>)
    ensures
        message_text(scope, label, missing).len() >= missing.len(),
        message_text(scope, label, missing).subrange(
            message_text(scope, label, missing).len() - missing.len(),
            message_text(scope, label, missing).len() as int,
        ) == missing,
{
    let message = message_text(scope, label, missing);
    assert(message.subrange(message.len() - missing.len(), message.len() as int) =~= missing);
}

/// Where every stage reference names a stage introduced earlier in the list,
/// and every job reference names a job introduced earlier in the same stage,
/// validation succeeds.
pub proof fn law_backward_references_pass(stages: Seq<StageView>, r: Result<(), Seq<char>>)
    requires
        validated(stages, r),
        forall|i: int, k: int|
            #![trigger stage_scope(stages)[i].depends_on[k]]
            0 <= i < stages.len() && 0 <= k < stage_scope(stages)[i].depends_on.len()
                ==> exists|j: int|
                0 <= j < i && #[trigger] stage_scope(stages)[j].introduces == Some(
                    stage_scope(stages)[i].depends_on[k],
                ),
        forall|s: int, i: int, k: int|
            #![trigger job_scope(stages[s])[i].depends_on[k]]
            0 <= s < stages.len() && 0 <= i < job_scope(stages[s]).len() && 0 <= k < job_scope(
                stages[s],
            )[i].depends_on.len() ==> exists|j: int|
                0 <= j < i && #[trigger] job_scope(stages[s])[j].introduces == Some(
                    job_scope(stages[s])[i].depends_on[k],
                ),
    ensures
        r is Ok,
{
    let scope = stage_scope(stages);
    assert forall|i: int, k: int| !unresolved(scope, i, k) by {
        if 0 <= i < scope.len() && 0 <= k < scope[i].depends_on.len() {
            let name = stage_scope(stages)[i].depends_on[k];
            let j = choose|j: int|
                0 <= j < i && #[trigger] stage_scope(stages)[j].introduces == Some(name);
            assert(names_before(scope, i).contains(name));
        }
    }
    assert forall|s: int| 0 <= s < stages.len() implies resolved(
        #[trigger] job_scope(stages[s]),
    ) by {
        let jobs = job_scope(stages[s]);
        assert forall|i: int, k: int| !unresolved(jobs, i, k) by {
            if 0 <= i < jobs.len() && 0 <= k < jobs[i].depends_on.len() {
                let name = job_scope(stages[s])[i].depends_on[k];
                let j = choose|j: int|
                    0 <= j < i && #[trigger] job_scope(stages[s])[j].introduces == Some(name);
                assert(names_before(jobs, i).contains(name));
            }
        }
    }
    assert(resolved(scope) && jobs_resolved(stages));
}

/// A stage reference to a name that no earlier stage introduces makes
/// validation fail, wherever else the name is introduced; the message
/// reports the first unresolved stage reference, which comes no later.
pub proof fn law_unresolved_stage_reference_fails(
    stages: Seq<StageView>,
    r: Result<(), Seq<char>>,
    i: int,
    k: int,
)
    requires
        validated(stages, r),
        0 <= i < stages.len(),
        0 <= k < stage_scope(stages)[i].depends_on.len(),
        forall|j: int|
            0 <= j < i ==> #[trigger] stage_scope(stages)[j].introduces != Some(
                stage_scope(stages)[i].depends_on[k],
            ),
    ensures
        r is Err,
        reports_first(Scope::Stage, stage_scope(stages), r->Err_0),
{
    let scope = stage_scope(stages);
    assert(unresolved(scope, i, k));
    let first = lemma_first_unresolved_exists(scope, i, k);
    assert(!resolved(scope));
}

/// Where the first unresolved stage reference is reference `k` of stage
/// `i`, validation fails with the message that names it.
pub proof fn law_failure_names_stage_reference(
    stages: Seq<StageView>,
    r: Result<(), Seq<char>>,
    i: int,
    k: int,
)
    requires
        validated(stages, r),
        first_unresolved(stage_scope(stages), i, k),
    ensures
        r == Err::<(), Seq<char>>(
            message_text(
                Scope::Stage,
                stage_scope(stages)[i].label,
                stage_scope(stages)[i].depends_on[k],
            ),
        ),
{
    let scope = stage_scope(stages);
    assert(!resolved(scope));
    let message = r->Err_0;
    let (i2, k2) = choose|i2: int, k2: int|
        #![trigger unresolved(scope, i2, k2)]
        first_unresolved(scope, i2, k2) && message == message_text(
            Scope::Stage,
            scope[i2].label,
            scope[i2].depends_on[k2],
        );
    lemma_first_unresolved_unique(scope, i, k, i2, k2);
}

/// Job names do not cross stage boundaries: a job reference to a name that
/// no earlier job of the same stage introduces makes validation fail,
/// whatever the jobs of other stages are called.
pub proof fn law_job_names_are_scoped_to_their_stage(
    stages: Seq<StageView>,
    r: Result<(), Seq<char>>,
    s: int,
    i: int,
    k: int,
)
    requires
        validated(stages, r),
        0 <= s < stages.len(),
        0 <= i < job_scope(stages[s]).len(),
        0 <= k < job_scope(stages[s])[i].depends_on.len(),
        forall|j: int|
            0 <= j < i ==> #[trigger] job_scope(stages[s])[j].introduces != Some(
                job_scope(stages[s])[i].depends_on[k],
            ),
    ensures
        r is Err,
{
    assert(unresolved(job_scope(stages[s]), i, k));
    assert(!resolved(job_scope(stages[s])));
}

/// Where the stage references are in order and the first unresolved job
/// reference is reference `k` of job `i` of stage `s`, validation fails with
/// the message that names it.
pub proof fn law_failure_names_job_reference(
    stages: Seq<StageView>,
    r: Result<(), Seq<char>>,
    s: int,
    i: int,
    k: int,
)
    requires
        validated(stages, r),
        resolved(stage_scope(stages)),
        0 <= s < stages.len(),
        forall|s2: int| 0 <= s2 < s ==> resolved(#[trigger] job_scope(stages[s2])),
        first_unresolved(job_scope(stages[s]), i, k),
    ensures
        r == Err::<(), Seq<char>>(
            message_text(
                Scope::Job,
                job_scope(stages[s])[i].label,
                job_scope(stages[s])[i].depends_on[k],
            ),
        ),
{
    let jobs = job_scope(stages[s]);
    assert(!resolved(jobs));
    assert(r is Err);
    let message = r->Err_0;
    assert(!reports_first(Scope::Stage, stage_scope(stages), message)) by {
        if reports_first(Scope::Stage, stage_scope(stages), message) {
            let (i0, k0) = choose|i0: int, k0: int|
                #![trigger unresolved(stage_scope(stages), i0, k0)]
                first_unresolved(stage_scope(stages), i0, k0) && message == message_text(
                    Scope::Stage,
                    stage_scope(stages)[i0].label,
                    stage_scope(stages)[i0].depends_on[k0],
                );
            assert(unresolved(stage_scope(stages), i0, k0));
        }
    }
    assert(reports_first_job(stages, message));
    let s1 = choose|s1: int|
        #![trigger job_scope(stages[s1])]
        {
            &&& 0 <= s1 < stages.len()
            &&& forall|s2: int| 0 <= s2 < s1 ==> resolved(#[trigger] job_scope(stages[s2]))
            &&& reports_first(Scope::Job, job_scope(stages[s1]), message)
        };
    let jobs1 = job_scope(stages[s1]);
    let (i1, k1) = choose|i1: int, k1: int|
        #![trigger unresolved(jobs1, i1, k1)]
        first_unresolved(jobs1, i1, k1) && message == message_text(
            Scope::Job,
            jobs1[i1].label,
            jobs1[i1].depends_on[k1],
        );
    assert(!resolved(jobs1));
    assert(s1 == s);
    lemma_first_unresolved_unique(jobs, i, k, i1, k1);
}

} // verus!
