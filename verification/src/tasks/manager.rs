//! The task registry and lifecycle state machine. Every mutation
//! passes through one of the operations below; each applies at most
//! one state change and yields at most one event for the caller to
//! broadcast. A task in a terminal state is never changed again.
//!
//! The registry carries a ghost log of every event it ever yielded;
//! well-formedness ties the log to the tasks, which makes the
//! per-task event ordering a registry invariant.

use crate::errors::AppError;
use crate::tasks::types::{
    event_id, is_terminal, is_terminal_event, opt_result_eq, spec_new_task, spec_task_type,
    task_eq, Task,
    TaskConfig, TaskEvent, TaskId, TaskResult, TaskStatus,
};
use crate::utils::{new_raw_id, now_millis};
use vstd::prelude::*;

verus! {

/// Index of the first task with the given id, if any.
pub open spec fn spec_find_task(tasks: Seq<Task>, id: TaskId) -> Option<int>
    decreases tasks.len(),
{
    if tasks.len() == 0 {
        None
    } else if tasks[0].id == id {
        Some(0int)
    } else {
        match spec_find_task(tasks.drop_first(), id) {
            None => None,
            Some(i) => Some(i + 1),
        }
    }
}

pub proof fn lemma_find_task_first(tasks: Seq<Task>, id: TaskId, k: int)
    requires
        0 <= k < tasks.len(),
        tasks[k].id == id,
        forall|j: int| 0 <= j < k ==> tasks[j].id != id,
    ensures
        spec_find_task(tasks, id) == Some(k),
    decreases k,
{
    if k > 0 {
        lemma_find_task_first(tasks.drop_first(), id, k - 1);
    }
}

pub proof fn lemma_find_task_none(tasks: Seq<Task>, id: TaskId)
    requires
        forall|j: int| 0 <= j < tasks.len() ==> tasks[j].id != id,
    ensures
        spec_find_task(tasks, id) == None::<int>,
    decreases tasks.len(),
{
    if tasks.len() > 0 {
        lemma_find_task_none(tasks.drop_first(), id);
    }
}

pub proof fn lemma_find_task_in_range(tasks: Seq<Task>, id: TaskId)
    requires
        spec_find_task(tasks, id) is Some,
    ensures
        0 <= spec_find_task(tasks, id)->Some_0 < tasks.len(),
        tasks[spec_find_task(tasks, id)->Some_0].id == id,
    decreases tasks.len(),
{
    if tasks.len() > 0 && tasks[0].id != id {
        lemma_find_task_in_range(tasks.drop_first(), id);
    }
}

pub proof fn lemma_find_task_absent(tasks: Seq<Task>, id: TaskId)
    requires
        spec_find_task(tasks, id) == None::<int>,
    ensures
        forall|j: int| 0 <= j < tasks.len() ==> tasks[j].id != id,
    decreases tasks.len(),
{
    if tasks.len() > 0 && tasks[0].id != id {
        lemma_find_task_absent(tasks.drop_first(), id);
        assert forall|j: int| 0 <= j < tasks.len() implies tasks[j].id != id by {
            if j > 0 {
                assert(tasks.drop_first()[j - 1] == tasks[j]);
            }
        }
    }
}

/// All registered tasks carry distinct ids.
pub open spec fn ids_distinct(tasks: Seq<Task>) -> bool {
    forall|i: int, j: int| 0 <= i < j < tasks.len() ==> tasks[i].id != tasks[j].id
}

/// The events of the log that concern one task, oldest first.
pub open spec fn events_for(log: Seq<TaskEvent>, id: TaskId) -> Seq<TaskEvent>
    decreases log.len(),
{
    if log.len() == 0 {
        Seq::<TaskEvent>::empty()
    } else {
        let rest = events_for(log.drop_last(), id);
        if event_id(log.last()) == id {
            rest.push(log.last())
        } else {
            rest
        }
    }
}

pub proof fn lemma_events_for_push(log: Seq<TaskEvent>, e: TaskEvent, id: TaskId)
    ensures
        events_for(log.push(e), id) == (if event_id(e) == id {
            events_for(log, id).push(e)
        } else {
            events_for(log, id)
        }),
{
    assert(log.push(e).drop_last() =~= log);
    assert(log.push(e).last() == e);
}

/// The event ordering every subscriber observes for one task: the
/// `Create` comes first and only first, a terminal event can only
/// come last and has come exactly when the task's state is terminal,
/// and the reported progress never decreases and never exceeds the
/// task's current progress.
pub open spec fn per_task_ordered(es: Seq<TaskEvent>, status: TaskStatus, progress: u8) -> bool {
    &&& es.len() >= 1
    &&& es[0] is Create
    &&& (forall|k: int| 1 <= k < es.len() ==> !((#[trigger] es[k]) is Create))
    &&& (forall|k: int|
        0 <= k < es.len() && is_terminal_event(#[trigger] es[k]) ==> k == es.len() - 1)
    &&& (is_terminal(status) <==> is_terminal_event(es.last()))
    &&& (forall|k1: int, k2: int|
        0 <= k1 < k2 < es.len() && (#[trigger] es[k1]) is Progress && (#[trigger] es[k2])
            is Progress ==> es[k1]->Progress_progress <= es[k2]->Progress_progress)
    &&& (forall|k: int|
        0 <= k < es.len() && (#[trigger] es[k]) is Progress ==> es[k]->Progress_progress
            <= progress)
}

/// The task registry.
pub struct TaskManager {
    pub(crate) tasks: Vec<Task>,
    pub(crate) log: Ghost<Seq<TaskEvent>>,
}

impl TaskManager {
    /// The registered tasks, in creation order.
    pub closed spec fn tasks_view(self) -> Seq<Task> {
        self.tasks@
    }

    /// Every event ever yielded, in the order yielded.
    pub closed spec fn log_view(self) -> Seq<TaskEvent> {
        self.log@
    }

    /// Registry invariant: distinct ids; progress within 0..=100;
    /// each task's event history is well ordered; events concern
    /// registered tasks only.
    pub open spec fn wf(self) -> bool {
        &&& ids_distinct(self.tasks_view())
        &&& (forall|i: int|
            0 <= i < self.tasks_view().len() ==> (#[trigger] self.tasks_view()[i]).progress
                <= 100)
        &&& (forall|i: int|
            0 <= i < self.tasks_view().len() ==> per_task_ordered(
                events_for(self.log_view(), (#[trigger] self.tasks_view()[i]).id),
                self.tasks_view()[i].status,
                self.tasks_view()[i].progress,
            ))
        &&& (forall|id: TaskId|
            spec_find_task(self.tasks_view(), id) is None ==> #[trigger] events_for(
                self.log_view(),
                id,
            ).len() == 0)
    }

    /// An empty registry.
    pub fn new() -> (r: TaskManager)
        ensures
            r.wf(),
            r.tasks_view() == Seq::<Task>::empty(),
            r.log_view() == Seq::<TaskEvent>::empty(),
    {
        let r = TaskManager { tasks: Vec::new(), log: Ghost(Seq::empty()) };
        proof {
            assert forall|id: TaskId| #[trigger]
                events_for(r.log_view(), id).len() == 0 by {}
        }
        r
    }

    fn find(&self, id: TaskId) -> (r: Option<usize>)
        ensures
            match r {
                Some(j) => j < self.tasks_view().len() && spec_find_task(self.tasks_view(), id)
                    == Some(j as int) && self.tasks_view()[j as int].id == id,
                None => spec_find_task(self.tasks_view(), id) == None::<int>,
            },
    {
        let mut i: usize = 0;
        while i < self.tasks.len()
            invariant
                i <= self.tasks@.len(),
                forall|j: int| 0 <= j < i ==> self.tasks@[j].id != id,
            decreases self.tasks@.len() - i,
        {
            if self.tasks[i].id == id {
                proof {
                    lemma_find_task_first(self.tasks@, id, i as int);
                }
                return Some(i);
            }
            i = i + 1;
        }
        proof {
            lemma_find_task_none(self.tasks@, id);
        }
        None
    }

    /// Register a fresh task under a caller-chosen id and yield its
    /// `Create` event. An id already in use is rejected.
    pub fn create_task_at(&mut self, id: TaskId, config: TaskConfig, now: i64) -> (r: Result<
        TaskEvent,
        AppError,
    >)
        requires
            old(self).wf(),
        ensures
            final(self).wf(),
            match r {
                Ok(ev) => {
                    &&& spec_find_task(old(self).tasks_view(), id) is None
                    &&& final(self).tasks_view() == old(self).tasks_view().push(
                        spec_new_task(id, config, now),
                    )
                    &&& ev is Create
                    &&& task_eq(ev->Create_task, spec_new_task(id, config, now))
                    &&& final(self).log_view() == old(self).log_view().push(ev)
                },
                Err(e) => {
                    &&& spec_find_task(old(self).tasks_view(), id) is Some
                    &&& final(self).tasks_view() == old(self).tasks_view()
                    &&& final(self).log_view() == old(self).log_view()
                    &&& e is Internal
                },
            },
    {
        match self.find(id) {
            Some(_) => Err(AppError::Internal("task id collision".to_owned())),
            None => {
                proof {
                    lemma_find_task_absent(self.tasks@, id);
                }
                let task = Task::new(id, config, now);
                let ev = TaskEvent::Create { task: task.duplicate() };
                let ghost oldm = *self;
                self.tasks.push(task);
                proof {
                    self.log@ = oldm.log@.push(ev);
                    lemma_push_preserves_wf_create(oldm, *self, id, ev);
                }
                Ok(ev)
            },
        }
    }

    /// Register a fresh task under a newly drawn id.
    pub fn create_task(&mut self, config: TaskConfig) -> (r: Result<(TaskId, TaskEvent), AppError>)
        requires
            old(self).wf(),
        ensures
            final(self).wf(),
            match r {
                Ok((id, ev)) => {
                    &&& spec_find_task(old(self).tasks_view(), id) is None
                    &&& final(self).tasks_view().len() == old(self).tasks_view().len() + 1
                    &&& (forall|i: int|
                        0 <= i < old(self).tasks_view().len() ==> final(self).tasks_view()[i]
                            == old(self).tasks_view()[i])
                    &&& final(self).tasks_view().last().id == id
                    &&& final(self).tasks_view().last().task_type == spec_task_type(config)
                    &&& final(self).tasks_view().last().status is Pending
                    &&& final(self).tasks_view().last().progress == 0
                    &&& final(self).tasks_view().last().config == config
                    &&& final(self).tasks_view().last().result is None
                    &&& final(self).tasks_view().last().error_message is None
                    &&& final(self).tasks_view().last().started_at is None
                    &&& final(self).tasks_view().last().completed_at is None
                    &&& final(self).tasks_view().last().created_at == final(self).tasks_view(
                    ).last().updated_at
                    &&& ev is Create
                    &&& task_eq(ev->Create_task, final(self).tasks_view().last())
                    &&& final(self).log_view() == old(self).log_view().push(ev)
                },
                Err(e) => final(self).tasks_view() == old(self).tasks_view()
                    && final(self).log_view() == old(self).log_view(),
            },
    {
        let id = new_raw_id();
        let now = now_millis();
        match self.create_task_at(id, config, now) {
            Ok(ev) => Ok((id, ev)),
            Err(e) => Err(e),
        }
    }

    /// Record task progress and yield the `Progress` event. An absent
    /// task is a lost race and is ignored; a terminal task is never
    /// changed (terminal immutability); a value below the progress
    /// already recorded is ignored, so a subscriber never sees
    /// progress decrease.
    pub fn update_progress(&mut self, id: TaskId, progress: u8, now: i64) -> (r: Option<
        TaskEvent,
    >)
        requires
            old(self).wf(),
            progress <= 100,
        ensures
            final(self).wf(),
            match spec_find_task(old(self).tasks_view(), id) {
                None => r is None && final(self).tasks_view() == old(self).tasks_view()
                    && final(self).log_view() == old(self).log_view(),
                Some(j) => {
                    let t = old(self).tasks_view()[j];
                    if is_terminal(t.status) {
                        r is None && final(self).tasks_view() == old(self).tasks_view()
                            && final(self).log_view() == old(self).log_view()
                    } else {
                        let applied = if progress > t.progress {
                            progress
                        } else {
                            t.progress
                        };
                        let t2 = Task {
                            progress: applied,
                            updated_at: if now > t.updated_at {
                                now
                            } else {
                                t.updated_at
                            },
                            ..t
                        };
                        &&& final(self).tasks_view() == old(self).tasks_view().update(j, t2)
                        &&& r == Some(
                            TaskEvent::Progress {
                                task_id: id,
                                progress: applied,
                                status: t.status,
                            },
                        )
                        &&& final(self).log_view() == old(self).log_view().push(r->Some_0)
                    }
                },
            },
    {
        let j = match self.find(id) {
            None => {
                return None;
            },
            Some(j) => j,
        };
        if is_terminal_status(&self.tasks[j].status) {
            return None;
        }
        let ghost oldm = *self;
        let mut t = self.tasks.remove(j);
        let st = t.status;
        if progress > t.progress {
            t.progress = progress;
        }
        let applied = t.progress;
        if now > t.updated_at {
            t.updated_at = now;
        }
        let ev = TaskEvent::Progress { task_id: id, progress: applied, status: st };
        self.tasks.insert(j, t);
        proof {
            lemma_remove_insert_is_update(oldm.tasks@, j as int, self.tasks@[j as int]);
            self.log@ = oldm.log@.push(ev);
            lemma_update_preserves_wf(oldm, *self, j as int, ev);
        }
        Some(ev)
    }

    /// Record a task's transition to `Running` and yield the `Status`
    /// event; the first such transition stamps `started_at`. Only the
    /// `Pending → Running` transition is accepted; anything else is
    /// ignored.
    pub fn update_status(&mut self, id: TaskId, status: TaskStatus, now: i64) -> (r: Option<
        TaskEvent,
    >)
        requires
            old(self).wf(),
        ensures
            final(self).wf(),
            match spec_find_task(old(self).tasks_view(), id) {
                None => r is None && final(self).tasks_view() == old(self).tasks_view()
                    && final(self).log_view() == old(self).log_view(),
                Some(j) => {
                    let t = old(self).tasks_view()[j];
                    if is_terminal(t.status) || !(status is Running) {
                        r is None && final(self).tasks_view() == old(self).tasks_view()
                            && final(self).log_view() == old(self).log_view()
                    } else {
                        let t2 = Task {
                            status,
                            updated_at: if now > t.updated_at {
                                now
                            } else {
                                t.updated_at
                            },
                            started_at: if t.started_at is None {
                                Some(now)
                            } else {
                                t.started_at
                            },
                            ..t
                        };
                        &&& final(self).tasks_view() == old(self).tasks_view().update(j, t2)
                        &&& r == Some(TaskEvent::Status { task_id: id, status })
                        &&& final(self).log_view() == old(self).log_view().push(r->Some_0)
                    }
                },
            },
    {
        let running = match status {
            TaskStatus::Running => true,
            _ => false,
        };
        let j = match self.find(id) {
            None => {
                return None;
            },
            Some(j) => j,
        };
        if is_terminal_status(&self.tasks[j].status) || !running {
            return None;
        }
        let ghost oldm = *self;
        let mut t = self.tasks.remove(j);
        t.status = status;
        if now > t.updated_at {
            t.updated_at = now;
        }
        t.started_at = match t.started_at {
            None => Some(now),
            Some(s) => Some(s),
        };
        let ev = TaskEvent::Status { task_id: id, status };
        self.tasks.insert(j, t);
        proof {
            lemma_remove_insert_is_update(oldm.tasks@, j as int, self.tasks@[j as int]);
            self.log@ = oldm.log@.push(ev);
            lemma_update_preserves_wf(oldm, *self, j as int, ev);
        }
        Some(ev)
    }

    /// Record completion: force progress to 100, attach the result,
    /// stamp the completion time, and yield the `Complete` event.
    pub fn complete_task(&mut self, id: TaskId, result: Option<TaskResult>, now: i64) -> (r:
        Option<TaskEvent>)
        requires
            old(self).wf(),
        ensures
            final(self).wf(),
            match spec_find_task(old(self).tasks_view(), id) {
                None => r is None && final(self).tasks_view() == old(self).tasks_view()
                    && final(self).log_view() == old(self).log_view(),
                Some(j) => {
                    let t = old(self).tasks_view()[j];
                    if is_terminal(t.status) {
                        r is None && final(self).tasks_view() == old(self).tasks_view()
                            && final(self).log_view() == old(self).log_view()
                    } else {
                        let t2 = Task {
                            status: TaskStatus::Completed,
                            progress: 100,
                            result: result,
                            completed_at: Some(now),
                            updated_at: if now > t.updated_at {
                                now
                            } else {
                                t.updated_at
                            },
                            ..t
                        };
                        &&& final(self).tasks_view() == old(self).tasks_view().update(j, t2)
                        &&& (r matches Some(ev) && ev matches TaskEvent::Complete {
                            task_id,
                            result: r2,
                        } && task_id == id && opt_result_eq(r2, result))
                        &&& final(self).log_view() == old(self).log_view().push(r->Some_0)
                    }
                },
            },
    {
        let j = match self.find(id) {
            None => {
                return None;
            },
            Some(j) => j,
        };
        if is_terminal_status(&self.tasks[j].status) {
            return None;
        }
        let ghost oldm = *self;
        let mut t = self.tasks.remove(j);
        let dup = match &result {
            Some(x) => Some(x.duplicate()),
            None => None,
        };
        t.status = TaskStatus::Completed;
        t.progress = 100;
        t.result = result;
        t.completed_at = Some(now);
        if now > t.updated_at {
            t.updated_at = now;
        }
        let ev = TaskEvent::Complete { task_id: id, result: dup };
        self.tasks.insert(j, t);
        proof {
            lemma_remove_insert_is_update(oldm.tasks@, j as int, self.tasks@[j as int]);
            self.log@ = oldm.log@.push(ev);
            lemma_update_preserves_wf(oldm, *self, j as int, ev);
        }
        Some(ev)
    }

    /// Record failure: attach the error text, stamp the completion
    /// time, and yield the `Fail` event.
    pub fn fail_task(&mut self, id: TaskId, error: String, now: i64) -> (r: Option<TaskEvent>)
        requires
            old(self).wf(),
        ensures
            final(self).wf(),
            match spec_find_task(old(self).tasks_view(), id) {
                None => r is None && final(self).tasks_view() == old(self).tasks_view()
                    && final(self).log_view() == old(self).log_view(),
                Some(j) => {
                    let t = old(self).tasks_view()[j];
                    if is_terminal(t.status) {
                        r is None && final(self).tasks_view() == old(self).tasks_view()
                            && final(self).log_view() == old(self).log_view()
                    } else {
                        let t2 = Task {
                            status: TaskStatus::Failed,
                            error_message: Some(error),
                            completed_at: Some(now),
                            updated_at: if now > t.updated_at {
                                now
                            } else {
                                t.updated_at
                            },
                            ..t
                        };
                        &&& final(self).tasks_view() == old(self).tasks_view().update(j, t2)
                        &&& (r matches Some(ev) && ev matches TaskEvent::Fail {
                            task_id,
                            error: e2,
                        } && task_id == id && e2@ == error@)
                        &&& final(self).log_view() == old(self).log_view().push(r->Some_0)
                    }
                },
            },
    {
        let j = match self.find(id) {
            None => {
                return None;
            },
            Some(j) => j,
        };
        if is_terminal_status(&self.tasks[j].status) {
            return None;
        }
        let ghost oldm = *self;
        let mut t = self.tasks.remove(j);
        let ecopy = error.clone();
        t.status = TaskStatus::Failed;
        t.error_message = Some(error);
        t.completed_at = Some(now);
        if now > t.updated_at {
            t.updated_at = now;
        }
        let ev = TaskEvent::Fail { task_id: id, error: ecopy };
        self.tasks.insert(j, t);
        proof {
            lemma_remove_insert_is_update(oldm.tasks@, j as int, self.tasks@[j as int]);
            self.log@ = oldm.log@.push(ev);
            lemma_update_preserves_wf(oldm, *self, j as int, ev);
        }
        Some(ev)
    }

    /// Read one task.
    pub fn get_task(&self, id: TaskId) -> (r: Option<&Task>)
        ensures
            match r {
                Some(t) => spec_find_task(self.tasks_view(), id) is Some && *t == self.tasks_view(
                )[spec_find_task(self.tasks_view(), id)->Some_0],
                None => spec_find_task(self.tasks_view(), id) is None,
            },
    {
        match self.find(id) {
            Some(j) => Some(&self.tasks[j]),
            None => None,
        }
    }

    /// Read all tasks, in creation order.
    pub fn get_all_tasks(&self) -> (r: &Vec<Task>)
        ensures
            r@ == self.tasks_view(),
    {
        &self.tasks
    }
}

impl Default for TaskManager {
    fn default() -> (r: TaskManager)
        ensures
            r.wf(),
            r.tasks_view() == Seq::<Task>::empty(),
            r.log_view() == Seq::<TaskEvent>::empty(),
    {
        TaskManager::new()
    }
}

/// Whether a status is terminal.
fn is_terminal_status(s: &TaskStatus) -> (r: bool)
    ensures
        r == is_terminal(*s),
{
    match s {
        TaskStatus::Completed => true,
        TaskStatus::Failed => true,
        _ => false,
    }
}

/// Removing an element and inserting another at the same place is a
/// point update.
proof fn lemma_remove_insert_is_update<A>(s: Seq<A>, j: int, v: A)
    requires
        0 <= j < s.len(),
    ensures
        s.remove(j).insert(j, v) =~= s.update(j, v),
{
    s.remove_ensures(j);
}

/// Updating one non-terminal task and logging one matching
/// non-`Create` event preserves the registry invariant.
proof fn lemma_update_preserves_wf(oldm: TaskManager, newm: TaskManager, j: int, e: TaskEvent)
    requires
        oldm.wf(),
        0 <= j < oldm.tasks_view().len(),
        !is_terminal(oldm.tasks_view()[j].status),
        newm.tasks_view().len() == oldm.tasks_view().len(),
        forall|i: int|
            0 <= i < oldm.tasks_view().len() && i != j ==> newm.tasks_view()[i]
                == oldm.tasks_view()[i],
        newm.tasks_view()[j].id == oldm.tasks_view()[j].id,
        newm.tasks_view()[j].progress <= 100,
        newm.tasks_view()[j].progress >= oldm.tasks_view()[j].progress,
        newm.log_view() == oldm.log_view().push(e),
        !(e is Create),
        event_id(e) == oldm.tasks_view()[j].id,
        is_terminal_event(e) <==> is_terminal(newm.tasks_view()[j].status),
        e is Progress ==> e->Progress_progress == newm.tasks_view()[j].progress,
    ensures
        newm.wf(),
{
    let id = oldm.tasks_view()[j].id;
    assert forall|a: int, b: int|
        0 <= a < b < newm.tasks_view().len() implies newm.tasks_view()[a].id != newm.tasks_view(
    )[b].id by {
        assert(newm.tasks_view()[a].id == oldm.tasks_view()[a].id);
        assert(newm.tasks_view()[b].id == oldm.tasks_view()[b].id);
    }
    assert forall|i: int|
        0 <= i < newm.tasks_view().len() implies (#[trigger] newm.tasks_view()[i]).progress
        <= 100 by {
        if i != j {
            assert(newm.tasks_view()[i] == oldm.tasks_view()[i]);
        }
    }
    assert forall|i: int| 0 <= i < newm.tasks_view().len() implies per_task_ordered(
        events_for(newm.log_view(), (#[trigger] newm.tasks_view()[i]).id),
        newm.tasks_view()[i].status,
        newm.tasks_view()[i].progress,
    ) by {
        lemma_events_for_push(oldm.log_view(), e, newm.tasks_view()[i].id);
        if i != j {
            assert(newm.tasks_view()[i] == oldm.tasks_view()[i]);
            assert(oldm.tasks_view()[i].id != id);
        } else {
            let es0 = events_for(oldm.log_view(), id);
            let es = es0.push(e);
            assert(per_task_ordered(
                es0,
                oldm.tasks_view()[j].status,
                oldm.tasks_view()[j].progress,
            ));
            assert(!is_terminal_event(es0.last()));
            assert forall|k: int|
                0 <= k < es.len() && is_terminal_event(#[trigger] es[k]) implies k == es.len()
                - 1 by {
                if k < es0.len() {
                    assert(es[k] == es0[k]);
                    assert(k == es0.len() - 1);
                    assert(es0[k] == es0.last());
                }
            }
            assert(es[0] == es0[0]);
            assert forall|k: int| 1 <= k < es.len() implies !((#[trigger] es[k]) is Create) by {
                if k < es0.len() {
                    assert(es[k] == es0[k]);
                }
            }
            assert forall|k: int|
                0 <= k < es.len() && (#[trigger] es[k]) is Progress implies es[
            k]->Progress_progress <= newm.tasks_view()[j].progress by {
                if k < es0.len() {
                    assert(es[k] == es0[k]);
                    assert(es0[k]->Progress_progress <= oldm.tasks_view()[j].progress);
                }
            }
            assert forall|k1: int, k2: int|
                0 <= k1 < k2 < es.len() && (#[trigger] es[k1]) is Progress && (#[trigger] es[k2])
                    is Progress implies es[k1]->Progress_progress
                <= es[k2]->Progress_progress by {
                assert(es[k1] == es0[k1]);
                if k2 < es0.len() {
                    assert(es[k2] == es0[k2]);
                } else {
                    assert(es[k2] == e);
                    assert(es0[k1]->Progress_progress <= oldm.tasks_view()[j].progress);
                }
            }
        }
    }
    assert forall|id2: TaskId|
        spec_find_task(newm.tasks_view(), id2) is None implies #[trigger] events_for(
        newm.log_view(),
        id2,
    ).len() == 0 by {
        lemma_events_for_push(oldm.log_view(), e, id2);
        lemma_find_task_absent(newm.tasks_view(), id2);
        assert(newm.tasks_view()[j].id != id2);
        assert forall|k: int| 0 <= k < oldm.tasks_view().len() implies oldm.tasks_view()[k].id
            != id2 by {
            assert(oldm.tasks_view()[k].id == newm.tasks_view()[k].id);
        }
        lemma_find_task_none(oldm.tasks_view(), id2);
    }
}

/// Event ordering per task: for every registered task, the log shows
/// its `Create` first, then only `Progress` and `Status` events with
/// non-decreasing progress, and a terminal event exactly once, last,
/// exactly when the task's state is terminal.
pub proof fn lemma_event_ordering(m: TaskManager, id: TaskId)
    requires
        m.wf(),
        spec_find_task(m.tasks_view(), id) is Some,
    ensures
        per_task_ordered(
            events_for(m.log_view(), id),
            m.tasks_view()[spec_find_task(m.tasks_view(), id)->Some_0].status,
            m.tasks_view()[spec_find_task(m.tasks_view(), id)->Some_0].progress,
        ),
{
    lemma_find_task_in_range(m.tasks_view(), id);
}

/// Registering a fresh task preserves the registry invariant.
proof fn lemma_push_preserves_wf_create(
    oldm: TaskManager,
    newm: TaskManager,
    id: TaskId,
    e: TaskEvent,
)
    requires
        oldm.wf(),
        spec_find_task(oldm.tasks_view(), id) == None::<int>,
        newm.tasks_view().len() == oldm.tasks_view().len() + 1,
        forall|i: int|
            0 <= i < oldm.tasks_view().len() ==> newm.tasks_view()[i] == oldm.tasks_view()[i],
        newm.tasks_view().last().id == id,
        newm.tasks_view().last().status == TaskStatus::Pending,
        newm.tasks_view().last().progress <= 100,
        newm.log_view() == oldm.log_view().push(e),
        e is Create,
        event_id(e) == id,
    ensures
        newm.wf(),
{
    let t = newm.tasks_view().last();
    lemma_find_task_absent(oldm.tasks_view(), id);
    assert forall|i: int, j: int|
        0 <= i < j < newm.tasks_view().len() implies newm.tasks_view()[i].id != newm.tasks_view(
    )[j].id by {
        if j < newm.tasks_view().len() - 1 {
            assert(newm.tasks_view()[i] == oldm.tasks_view()[i]);
            assert(newm.tasks_view()[j] == oldm.tasks_view()[j]);
        } else {
            assert(newm.tasks_view()[i] == oldm.tasks_view()[i]);
        }
    }
    assert forall|i: int|
        0 <= i < newm.tasks_view().len() implies (#[trigger] newm.tasks_view()[i]).progress
        <= 100 by {
        if i < newm.tasks_view().len() - 1 {
            assert(newm.tasks_view()[i] == oldm.tasks_view()[i]);
        }
    }
    assert forall|i: int| 0 <= i < newm.tasks_view().len() implies per_task_ordered(
        events_for(newm.log_view(), (#[trigger] newm.tasks_view()[i]).id),
        newm.tasks_view()[i].status,
        newm.tasks_view()[i].progress,
    ) by {
        lemma_events_for_push(oldm.log_view(), e, newm.tasks_view()[i].id);
        if i < newm.tasks_view().len() - 1 {
            assert(newm.tasks_view()[i] == oldm.tasks_view()[i]);
            assert(newm.tasks_view()[i].id != id);
        } else {
            assert(newm.tasks_view()[i] == t);
            assert(events_for(oldm.log_view(), id).len() == 0);
            let es = events_for(newm.log_view(), id);
            assert(es =~= Seq::<TaskEvent>::empty().push(e));
            assert(es[0] == e);
            assert(es.last() == e);
        }
    }
    assert forall|id2: TaskId|
        spec_find_task(newm.tasks_view(), id2) is None implies #[trigger] events_for(
        newm.log_view(),
        id2,
    ).len() == 0 by {
        lemma_events_for_push(oldm.log_view(), e, id2);
        lemma_find_task_absent(newm.tasks_view(), id2);
        assert(newm.tasks_view()[newm.tasks_view().len() - 1].id == id);
        assert(id2 != id);
        assert forall|j: int| 0 <= j < oldm.tasks_view().len() implies oldm.tasks_view()[j].id
            != id2 by {
            assert(newm.tasks_view()[j] == oldm.tasks_view()[j]);
        }
        lemma_find_task_none(oldm.tasks_view(), id2);
    }
}

} // verus!
