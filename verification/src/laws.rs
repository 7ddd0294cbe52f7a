//! Laws of the store, stated and proved over the same spec functions its
//! operation contracts use: what creation, listing, partial update, deletion
//! and the completion bookkeeping guarantee in combination.

use vstd::prelude::*;

use crate::models::{
    priority_of_text, priority_text, status_of_text, status_text, CreateProject, CreateTask,
    ProjectView, TaskPriority, TaskStatus, TaskView, UpdateProject, UpdateTask,
};
use crate::store::{
    apply_project_update, apply_task_update, completion_update, lemma_filter_members,
    made_project, made_task, StoreView,
};
use crate::timeline::{in_today_window, in_upcoming_window, spec_day_start};

verus! {

broadcast use
    vstd::seq_lib::group_filter_ensures,
    vstd::seq_lib::group_to_multiset_ensures,
;

/// Filtering leaves a sequence unchanged when every element already
/// satisfies the predicate.
proof fn lemma_filter_fixed<A>(s: Seq<A>, pred: spec_fn(A) -> bool)
    requires
        forall|i: int| 0 <= i < s.len() ==> pred(#[trigger] s[i]),
    ensures
        s.filter(pred) == s,
    decreases s.len(),
{
    reveal(Seq::filter);
    if s.len() > 0 {
        let r = s.drop_last();
        lemma_filter_fixed(r, pred);
        assert(pred(s.last()));
        assert(r.push(s.last()) =~= s);
    } else {
        assert(s.filter(pred) =~= s);
    }
}

/// Creating a project in an empty store and then listing the projects
/// yields exactly one entry, equal to the created value, whose creation and
/// update stamps agree. The premises are what `create_project_with` and
/// `get_projects` ensure on an empty store.
pub proof fn lemma_create_then_list_project(
    s: StoreView,
    data: CreateProject,
    id: Seq<char>,
    now: int,
    out: Seq<ProjectView>,
)
    requires
        s.projects.len() == 0,
        out.to_multiset() == s.projects.push(made_project(data, id, now)).to_multiset(),
    ensures
        out =~= seq![made_project(data, id, now)],
        made_project(data, id, now).created_at == made_project(data, id, now).updated_at,
{
    let p = made_project(data, id, now);
    assert(s.projects =~= Seq::<ProjectView>::empty());
    assert(s.projects.push(p) =~= seq![p]);
    assert(out.to_multiset().len() == 1);
    assert(out.len() == 1);
    assert(s.projects.push(p).to_multiset().contains(p));
    assert(out.contains(p));
}

/// Updating a project with only `color` supplied changes the colour and the
/// update stamp, and leaves the name, the description, the identifier and
/// the creation stamp untouched; when the clock has advanced past the prior
/// update stamp, the new stamp strictly exceeds it.
pub proof fn lemma_color_only_update(p: ProjectView, u: UpdateProject, now: int)
    requires
        p.updated_at >= p.created_at,
        u.name is None,
        u.description is None,
        u.color is Some,
    ensures
        apply_project_update(p, u, now).color == (u.color->0)@,
        now >= p.created_at ==> apply_project_update(p, u, now).updated_at == now,
        apply_project_update(p, u, now).name == p.name,
        apply_project_update(p, u, now).description == p.description,
        apply_project_update(p, u, now).id == p.id,
        apply_project_update(p, u, now).created_at == p.created_at,
        now > p.updated_at ==> apply_project_update(p, u, now).updated_at > p.updated_at,
{
}

/// After deleting a project, no remaining task references it and no
/// remaining project carries its identifier: the rows `delete_project`
/// keeps, filtered for that project, are none.
pub proof fn lemma_delete_project_removes(s: StoreView, id: Seq<char>)
    ensures
        s.tasks.filter(|t: TaskView| t.project_id != Some(id)).filter(
            |t: TaskView| t.project_id == Some(id),
        ) =~= Seq::<TaskView>::empty(),
        s.projects.filter(|p: ProjectView| p.id != id).filter(|p: ProjectView| p.id == id)
            =~= Seq::<ProjectView>::empty(),
{
    let keep_t = |t: TaskView| t.project_id != Some(id);
    let gone_t = |t: TaskView| t.project_id == Some(id);
    let f1 = s.tasks.filter(keep_t);
    let f2 = f1.filter(gone_t);
    if f2.len() > 0 {
        assert(gone_t(f2[0]));
        lemma_filter_members(f1, gone_t);
        assert(f1.contains(f2[0]));
        let i = choose|i: int| 0 <= i < f1.len() && f1[i] == f2[0];
        assert(keep_t(f1[i]));
        assert(false);
    }
    let keep_p = |p: ProjectView| p.id != id;
    let gone_p = |p: ProjectView| p.id == id;
    let g1 = s.projects.filter(keep_p);
    let g2 = g1.filter(gone_p);
    if g2.len() > 0 {
        assert(gone_p(g2[0]));
        lemma_filter_members(g1, gone_p);
        assert(g1.contains(g2[0]));
        let i = choose|i: int| 0 <= i < g1.len() && g1[i] == g2[0];
        assert(keep_p(g1[i]));
        assert(false);
    }
}

/// Deleting a project a second time is a no-op: the rows a repeated delete
/// keeps are exactly the rows the first delete kept.
pub proof fn lemma_delete_project_idempotent(s: StoreView, id: Seq<char>)
    ensures
        s.tasks.filter(|t: TaskView| t.project_id != Some(id)).filter(
            |t: TaskView| t.project_id != Some(id),
        ) == s.tasks.filter(|t: TaskView| t.project_id != Some(id)),
        s.projects.filter(|p: ProjectView| p.id != id).filter(|p: ProjectView| p.id != id)
            == s.projects.filter(|p: ProjectView| p.id != id),
{
    lemma_filter_fixed(
        s.tasks.filter(|t: TaskView| t.project_id != Some(id)),
        |t: TaskView| t.project_id != Some(id),
    );
    lemma_filter_fixed(
        s.projects.filter(|p: ProjectView| p.id != id),
        |p: ProjectView| p.id != id,
    );
}

/// A freshly created task is not completed and carries no completion stamp.
pub proof fn lemma_new_task_not_completed(data: CreateTask, id: Seq<char>, now: int)
    ensures
        !made_task(data, id, now).completed,
        made_task(data, id, now).completed_at is None,
{
}

/// The completion bookkeeping: marking a task complete sets the completion
/// stamp to the clock of that call; marking it complete again leaves the
/// stamp unchanged; marking it incomplete clears the stamp.
pub proof fn lemma_completion_bookkeeping(t: TaskView, now1: int, now2: int, now3: int)
    requires
        t.completed_at is None,
    ensures
        ({
            let a = completion_update(t, true, now1);
            let b = completion_update(a, true, now2);
            let c = completion_update(b, false, now3);
            &&& a.completed && a.completed_at == Some(now1)
            &&& b.completed && b.completed_at == Some(now1)
            &&& !c.completed && c.completed_at is None
        }),
{
}

/// The boundaries of the derived windows, for any moment `now` after the
/// epoch: a due date at the very start of today's calendar day, at 23:59:59
/// UTC, or at the day's very last millisecond lies in the today window; one
/// second past midnight tomorrow lies in the upcoming window and not in the
/// today window; the start of the eighth day lies in neither.
pub proof fn lemma_window_boundaries(now: int)
    requires
        0 <= now,
    ensures
        in_today_window(spec_day_start(now), now),
        in_today_window(spec_day_start(now) + 86_399_000, now),
        in_today_window(spec_day_start(now) + 86_400_000 - 1, now),
        !in_today_window(spec_day_start(now) + 86_400_000 + 1000, now),
        in_upcoming_window(spec_day_start(now) + 86_400_000 + 1000, now),
        !in_today_window(spec_day_start(now) + 8 * 86_400_000, now),
        !in_upcoming_window(spec_day_start(now) + 8 * 86_400_000, now),
{
}

/// Round trip for projects: the value creation builds carries the request's
/// fields unchanged beside the assigned identifier and stamps, and a listing
/// taken right after creation contains it.
pub proof fn lemma_project_round_trip(
    s: StoreView,
    data: CreateProject,
    id: Seq<char>,
    now: int,
    out: Seq<ProjectView>,
)
    requires
        out.to_multiset() == s.projects.push(made_project(data, id, now)).to_multiset(),
    ensures
        out.contains(made_project(data, id, now)),
        made_project(data, id, now).id == id,
        made_project(data, id, now).name == data.name@,
        made_project(data, id, now).description == crate::models::text_opt(data.description),
        made_project(data, id, now).color == data.color@,
        made_project(data, id, now).created_at == now,
        made_project(data, id, now).updated_at == now,
{
    let p = made_project(data, id, now);
    assert(s.projects.push(p).to_multiset().contains(p));
}

/// Round trip for tasks: the value creation builds carries the request's
/// fields unchanged beside the assigned identifier, stamps and completion
/// defaults, and a listing taken right after creation contains it.
pub proof fn lemma_task_round_trip(
    s: StoreView,
    data: CreateTask,
    id: Seq<char>,
    now: int,
    out: Seq<TaskView>,
)
    requires
        out.to_multiset() == s.tasks.push(made_task(data, id, now)).to_multiset(),
    ensures
        out.contains(made_task(data, id, now)),
        made_task(data, id, now).id == id,
        made_task(data, id, now).title == data.title@,
        made_task(data, id, now).description == crate::models::text_opt(data.description),
        made_task(data, id, now).project_id == crate::models::text_opt(data.project_id),
        made_task(data, id, now).status == data.status,
        made_task(data, id, now).priority == data.priority,
        made_task(data, id, now).due_date == crate::models::time_opt(data.due_date),
        made_task(data, id, now).created_at == now,
        made_task(data, id, now).updated_at == now,
{
    let t = made_task(data, id, now);
    assert(s.tasks.push(t).to_multiset().contains(t));
}

/// The status codec round-trips: decoding the text a status encodes to
/// yields that status again.
pub proof fn lemma_status_codec_round_trip(s: TaskStatus)
    ensures
        status_of_text(status_text(s)) == s,
{
    reveal_strlit("todo");
    reveal_strlit("in_progress");
    reveal_strlit("done");
    assert("todo"@.len() == 4);
    assert("in_progress"@.len() == 11);
    assert("done"@.len() == 4);
    assert("todo"@ != "done"@) by {
        assert("todo"@[0] == 't');
        assert("done"@[0] == 'd');
    }
}

/// The priority codec round-trips: decoding the text a priority encodes to
/// yields that priority again.
pub proof fn lemma_priority_codec_round_trip(p: TaskPriority)
    ensures
        priority_of_text(priority_text(p)) == p,
{
    reveal_strlit("low");
    reveal_strlit("medium");
    reveal_strlit("high");
    assert("low"@.len() == 3);
    assert("medium"@.len() == 6);
    assert("high"@.len() == 4);
}

/// The stamp invariant of the data model: a partial update keeps
/// `updated_at >= created_at` whatever clock value it is given. (A freshly
/// created entity has its stamps equal by `made_project` and `made_task`.)
pub proof fn lemma_stamps_ordered(
    p: ProjectView,
    u: UpdateProject,
    t: TaskView,
    v: UpdateTask,
    now: int,
)
    ensures
        apply_project_update(p, u, now).updated_at >= apply_project_update(p, u, now).created_at,
        apply_task_update(t, v, now).updated_at >= apply_task_update(t, v, now).created_at,
{
}

/// Marking a task complete is no separate code path: a partial update that
/// supplies only `completed` produces exactly the completion transition.
pub proof fn lemma_mark_complete_is_update(t: TaskView, u: UpdateTask, now: int)
    requires
        u.title is None,
        u.description is None,
        u.project_id is None,
        u.status is None,
        u.priority is None,
        u.due_date is None,
        u.completed is Some,
    ensures
        apply_task_update(t, u, now) == completion_update(t, u.completed->0, now),
{
    assert(apply_task_update(t, u, now) =~= completion_update(t, u.completed->0, now));
}

} // verus!
