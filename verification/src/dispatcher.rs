//! The per-worker task dispatcher.
//!
//! A worker owns one runner per language and a table of pending tasks. A
//! task starts on one runner, may hop between runners or through the
//! host-side dynamic handler, and terminates when a message targets the main
//! loop or when cancellation is confirmed by the task's active runner. This
//! module is the state machine alone: every decision is a function from the
//! task table and one event to the new table and the sends to make; the
//! surrounding process loop performs the sends.

use vstd::prelude::*;

use crate::comms::{
    Language, MessageTarget, RunnerTaskMsg, StateInterimSync, TargetedTaskMessage, TaskId,
    TaskMessage, target_of_language,
};

verus! {

/// Errors of the worker layer.
#[derive(Debug, PartialEq, Eq)]
pub enum WorkerError {
    Unique(String),
    /// A message whose target makes no sense where it arrived.
    UnexpectedTarget(MessageTarget),
    /// A task was spawned under an identifier that is already pending.
    TaskAlreadyExists(TaskId),
}

/// How far a cancellation has come: which runners confirmed it, or no
/// cancellation at all.
#[derive(Debug, PartialEq, Eq)]
pub enum CancelState {
    Active(Vec<Language>),
    Inactive,
}

impl Default for CancelState {
    /// A fresh task is not being cancelled.
    fn default() -> (r: CancelState)
        ensures
            r is Inactive,
    {
        CancelState::Inactive
    }
}

/// The worker-owned part of a task.
#[derive(Debug, PartialEq, Eq)]
pub struct WorkerTask {
    pub task_id: TaskId,
    pub package_id: crate::comms::PackageId,
}

/// One pending task: the task itself, the runner it is currently on, and
/// the cancellation progress.
#[derive(Debug, PartialEq, Eq)]
pub struct PendingWorkerTask {
    pub inner: WorkerTask,
    pub active_runner: Language,
    pub cancelling: CancelState,
}

impl PendingWorkerTask {
    pub fn new(inner: WorkerTask, active_runner: Language) -> (r: PendingWorkerTask)
        ensures
            r.inner == inner,
            r.active_runner == active_runner,
            r.cancelling is Inactive,
    {
        PendingWorkerTask { inner, active_runner, cancelling: CancelState::Inactive }
    }
}

/// The worker's table of pending tasks, keyed by task id.
#[derive(Debug, PartialEq, Eq)]
pub struct PendingWorkerTasks {
    pub inner: Vec<PendingWorkerTask>,
}

/// Whether a task of this id is pending.
pub open spec fn contains_task(s: Seq<PendingWorkerTask>, id: TaskId) -> bool {
    exists|i: int| 0 <= i < s.len() && s[i].inner.task_id == id
}

/// Task ids are unique in the table.
pub open spec fn tasks_wf(s: Seq<PendingWorkerTask>) -> bool {
    forall|i: int, j: int|
        0 <= i < j < s.len() ==> s[i].inner.task_id != s[j].inner.task_id
}

/// The table with the named task dropped.
pub open spec fn spec_remove_task(s: Seq<PendingWorkerTask>, id: TaskId) -> Seq<PendingWorkerTask>
    decreases s,
{
    if s.len() == 0 {
        Seq::empty()
    } else {
        let rest = spec_remove_task(s.drop_last(), id);
        if s.last().inner.task_id == id {
            rest
        } else {
            rest.push(s.last())
        }
    }
}

/// The pending task under this id (meaningful only when it is pending).
pub open spec fn spec_get_task(s: Seq<PendingWorkerTask>, id: TaskId) -> PendingWorkerTask
    decreases s,
{
    if s.len() == 0 {
        arbitrary()
    } else if s.last().inner.task_id == id {
        s.last()
    } else {
        spec_get_task(s.drop_last(), id)
    }
}

/// The table with the named task's active runner switched.
pub open spec fn spec_set_active(s: Seq<PendingWorkerTask>, id: TaskId, lang: Language) -> Seq<
    PendingWorkerTask,
> {
    Seq::new(
        s.len(),
        |i: int|
            if s[i].inner.task_id == id {
                PendingWorkerTask {
                    inner: s[i].inner,
                    active_runner: lang,
                    cancelling: s[i].cancelling,
                }
            } else {
                s[i]
            },
    )
}

/// One send the process loop must perform on the dispatcher's behalf.
#[derive(Debug, PartialEq, Eq)]
pub enum SendAction {
    /// Forward a task message to the named runner.
    ForwardTask { language: Language, msg: RunnerTaskMsg },
    /// Report the task's terminal result to the worker pool.
    SendResult { task_id: TaskId, payload: TaskMessage },
    /// Report the task as cancelled to the worker pool.
    SendCancelled { task_id: TaskId },
    /// Ask the named runner to cancel the task.
    CancelRunner { language: Language, task_id: TaskId },
}

impl PendingWorkerTasks {
    /// An empty table.
    pub fn new() -> (r: PendingWorkerTasks)
        ensures
            r.inner@ == Seq::<PendingWorkerTask>::empty(),
            tasks_wf(r.inner@),
    {
        let r = PendingWorkerTasks { inner: Vec::new() };
        proof {
            assert(r.inner@ =~= Seq::<PendingWorkerTask>::empty());
        }
        r
    }

    pub fn len(&self) -> (r: usize)
        ensures
            r == self.inner@.len(),
    {
        self.inner.len()
    }

    /// Whether a task of this id is pending.
    pub fn contains(&self, task_id: TaskId) -> (r: bool)
        ensures
            r == contains_task(self.inner@, task_id),
    {
        let mut i: usize = 0;
        while i < self.inner.len()
            invariant
                0 <= i <= self.inner@.len(),
                forall|k: int| 0 <= k < i ==> (#[trigger] self.inner@[k]).inner.task_id != task_id,
            decreases self.inner@.len() - i,
        {
            if self.inner[i].inner.task_id == task_id {
                return true;
            }
            i = i + 1;
        }
        false
    }

    /// Start a task: the task's start message must name a language runner;
    /// a start aimed at the main loop or the dynamic handler is a protocol
    /// error, and a second task under a pending id is refused. On success
    /// the task becomes pending on that runner and the start message is
    /// forwarded to it.
    pub fn spawn_task(&mut self, task: WorkerTask, init_msg: TargetedTaskMessage, sync: StateInterimSync, group_index: Option<u32>) -> (r: Result<
        SendAction,
        WorkerError,
    >)
        requires
            tasks_wf(old(self).inner@),
        ensures
            tasks_wf(final(self).inner@),
            r is Err <==> init_msg.target is Main || init_msg.target is Dynamic || contains_task(
                old(self).inner@,
                task.task_id,
            ),
            r is Err ==> *final(self) == *old(self),
            r matches Err(e) ==> ((e is UnexpectedTarget && (init_msg.target is Main
                || init_msg.target is Dynamic)) || (e is TaskAlreadyExists && contains_task(
                old(self).inner@,
                task.task_id,
            ))),
            r matches Ok(a) ==> {
                &&& a matches SendAction::ForwardTask { language, msg } ==> target_of_language(
                    language,
                ) == init_msg.target && msg.task_id == task.task_id && msg.payload
                    == init_msg.payload
                &&& a is ForwardTask
                &&& final(self).inner@ == old(self).inner@.push(
                    PendingWorkerTask {
                        inner: task,
                        active_runner: (a->ForwardTask_language),
                        cancelling: CancelState::Inactive,
                    },
                )
            },
    {
        let language = match init_msg.target {
            MessageTarget::Python => Language::Python,
            MessageTarget::JavaScript => Language::JavaScript,
            MessageTarget::Rust => Language::Rust,
            MessageTarget::Main | MessageTarget::Dynamic => {
                return Err(WorkerError::UnexpectedTarget(init_msg.target));
            },
        };
        if self.contains(task.task_id) {
            return Err(WorkerError::TaskAlreadyExists(task.task_id));
        }
        let msg = RunnerTaskMsg {
            package_id: task.package_id,
            task_id: task.task_id,
            sync,
            payload: init_msg.payload,
            group_index,
        };
        let ghost before = self.inner@;
        let ghost tid = task.task_id;
        self.inner.push(PendingWorkerTask::new(task, language));
        proof {
            assert forall|i: int, j: int|
                0 <= i < j < self.inner@.len() implies self.inner@[i].inner.task_id
                != self.inner@[j].inner.task_id by {
                if j == self.inner@.len() - 1 {
                    assert(!contains_task(before, tid));
                }
            }
        }
        Ok(SendAction::ForwardTask { language, msg })
    }

    /// A runner addressed a task message to another language runner:
    /// forward it there and remember that runner as the task's active one.
    /// A message for an unknown task is still forwarded; there is just no
    /// table entry to update.
    pub fn route_to_language(&mut self, language: Language, msg: RunnerTaskMsg) -> (r: SendAction)
        requires
            tasks_wf(old(self).inner@),
        ensures
            tasks_wf(final(self).inner@),
            final(self).inner@ == spec_set_active(old(self).inner@, msg.task_id, language),
            r matches SendAction::ForwardTask { language: l, msg: m } ==> l == language && m == msg,
            r is ForwardTask,
            contains_task(final(self).inner@, msg.task_id) ==> spec_get_task(
                final(self).inner@,
                msg.task_id,
            ).active_runner == language,
    {
        let task_id = msg.task_id;
        let ghost before = self.inner@;
        let mut i: usize = 0;
        while i < self.inner.len()
            invariant
                0 <= i <= self.inner@.len(),
                tasks_wf(before),
                self.inner@.len() == before.len(),
                forall|k: int| i <= k < before.len() ==> #[trigger] self.inner@[k] == before[k],
                forall|k: int|
                    0 <= k < i ==> #[trigger] self.inner@[k] == (if before[k].inner.task_id
                        == task_id {
                        PendingWorkerTask {
                            inner: before[k].inner,
                            active_runner: language,
                            cancelling: before[k].cancelling,
                        }
                    } else {
                        before[k]
                    }),
            decreases self.inner@.len() - i,
        {
            if self.inner[i].inner.task_id == task_id {
                let entry = &mut self.inner[i];
                entry.active_runner = language;
            }
            i = i + 1;
        }
        proof {
            assert(self.inner@ =~= spec_set_active(before, task_id, language));
            if contains_task(self.inner@, task_id) {
                lemma_get_task(self.inner@, task_id);
            }
        }
        SendAction::ForwardTask { language, msg }
    }
}

impl PendingWorkerTasks {
    /// Take the named task out of the table, handing it back if it was
    /// pending.
    fn remove_task(&mut self, task_id: TaskId) -> (found: Option<PendingWorkerTask>)
        requires
            tasks_wf(old(self).inner@),
        ensures
            tasks_wf(final(self).inner@),
            final(self).inner@ == spec_remove_task(old(self).inner@, task_id),
            found is Some <==> contains_task(old(self).inner@, task_id),
            found matches Some(t) ==> t == spec_get_task(old(self).inner@, task_id)
                && t.inner.task_id == task_id,
            !contains_task(old(self).inner@, task_id) ==> final(self).inner@ == old(self).inner@,
            !contains_task(final(self).inner@, task_id),
            forall|id2: TaskId|
                id2 != task_id ==> (contains_task(final(self).inner@, id2) <==> contains_task(
                    old(self).inner@,
                    id2,
                )),
    {
        let mut drained: Vec<PendingWorkerTask> = Vec::new();
        core::mem::swap(&mut self.inner, &mut drained);
        let ghost before = drained@;
        let mut found: Option<PendingWorkerTask> = None;
        let ghost mut i: int = 0;
        proof {
            assert(before.take(0) =~= Seq::<PendingWorkerTask>::empty());
            assert(self.inner@ =~= spec_remove_task(before.take(0), task_id));
            assert(drained@ =~= before.skip(0));
        }
        while drained.len() > 0
            invariant
                0 <= i <= before.len(),
                i + drained@.len() == before.len(),
                drained@ =~= before.skip(i),
                tasks_wf(before),
                self.inner@ == spec_remove_task(before.take(i), task_id),
                found is Some <==> contains_task(before.take(i), task_id),
                found matches Some(t) ==> t == spec_get_task(before.take(i), task_id)
                    && t.inner.task_id == task_id,
            decreases drained@.len(),
        {
            let t = drained.remove(0);
            proof {
                assert(t == before[i]);
                i = i + 1;
                assert(drained@ =~= before.skip(i));
                assert(before.take(i).drop_last() =~= before.take(i - 1));
                assert(before.take(i).last() == before[i - 1]);
            }
            if t.inner.task_id == task_id {
                found = Some(t);
            } else {
                self.inner.push(t);
            }
            proof {
                assert(self.inner@ =~= spec_remove_task(before.take(i), task_id));
                if found is Some {
                    assert(spec_get_task(before.take(i), task_id) == found->0);
                }
            }
        }
        proof {
            assert(before.take(before.len() as int) =~= before);
            lemma_remove_task_props(before, task_id);
        }
        found
    }

    /// Terminate a pending task: drop it from the table, report its result
    /// to the pool, and ask every runner but the one that finished it to
    /// cancel it. For an id that is not pending nothing happens.
    pub fn finish_task(&mut self, task_id: TaskId, source: Language, message: TaskMessage) -> (r:
        Vec<SendAction>)
        requires
            tasks_wf(old(self).inner@),
        ensures
            tasks_wf(final(self).inner@),
            final(self).inner@ == spec_remove_task(old(self).inner@, task_id),
            !contains_task(final(self).inner@, task_id),
            contains_task(old(self).inner@, task_id) ==> r@ =~= seq![
                SendAction::SendResult { task_id, payload: message },
            ] + cancel_others_actions(task_id, source),
            !contains_task(old(self).inner@, task_id) ==> final(self).inner@ == old(self).inner@
                && r@ =~= Seq::<SendAction>::empty(),
    {
        let found = self.remove_task(task_id);
        let mut actions: Vec<SendAction> = Vec::new();
        match found {
            Some(_task) => {
                actions.push(SendAction::SendResult { task_id, payload: message });
                let ghost first = actions@;
                push_cancel_others(&mut actions, task_id, source);
                proof {
                    assert(actions@ =~= first + cancel_others_actions(task_id, source));
                }
            },
            None => {},
        }
        actions
    }

    /// Apply the host-side dynamic handler's answer for a pending task: a
    /// language target forwards the next payload to that runner, which
    /// becomes the task's active runner; a main target terminates the task;
    /// a second dynamic target is a protocol error. An unknown id is
    /// ignored.
    pub fn run_task_handler_on_outbound(&mut self, task_id: TaskId, next: TargetedTaskMessage, source: Language, sync: StateInterimSync, group_index: Option<u32>) -> (r: Result<
        Vec<SendAction>,
        WorkerError,
    >)
        requires
            tasks_wf(old(self).inner@),
        ensures
            tasks_wf(final(self).inner@),
            !contains_task(old(self).inner@, task_id) ==> *final(self) == *old(self) && (r matches
                Ok(a) && a@ =~= Seq::<SendAction>::empty()),
            contains_task(old(self).inner@, task_id) ==> {
                &&& r is Err <==> next.target is Dynamic
                &&& r matches Err(e) ==> e is UnexpectedTarget && *final(self) == *old(self)
                &&& (next.target is Rust || next.target is Python || next.target is JavaScript)
                    ==> {
                    &&& final(self).inner@ == spec_set_active(
                        old(self).inner@,
                        task_id,
                        language_of_target(next.target),
                    )
                    &&& spec_get_task(final(self).inner@, task_id).active_runner
                        == language_of_target(next.target)
                    &&& r matches Ok(a) ==> a@.len() == 1 && (a@[0] matches
                        SendAction::ForwardTask { language, msg } && target_of_language(language)
                        == next.target && msg.payload == next.payload && msg.task_id == task_id)
                }
                &&& next.target is Main ==> {
                    &&& final(self).inner@ == spec_remove_task(old(self).inner@, task_id)
                    &&& r matches Ok(a) ==> a@ =~= seq![
                        SendAction::SendResult { task_id, payload: next.payload },
                    ] + cancel_others_actions(task_id, source)
                }
            },
    {
        if !self.contains(task_id) {
            return Ok(Vec::new());
        }
        let package_id = self.package_id_of(task_id);
        match next.target {
            MessageTarget::Rust | MessageTarget::Python | MessageTarget::JavaScript => {
                let language = match next.target {
                    MessageTarget::Rust => Language::Rust,
                    MessageTarget::Python => Language::Python,
                    _ => Language::JavaScript,
                };
                let msg = RunnerTaskMsg {
                    package_id,
                    task_id,
                    sync,
                    payload: next.payload,
                    group_index,
                };
                let action = self.route_to_language(language, msg);
                let mut actions: Vec<SendAction> = Vec::new();
                actions.push(action);
                proof {
                    lemma_set_active_contains(old(self).inner@, task_id, language_of_target(next.target));
                }
                Ok(actions)
            },
            MessageTarget::Dynamic => Err(WorkerError::UnexpectedTarget(MessageTarget::Dynamic)),
            MessageTarget::Main => Ok(self.finish_task(task_id, source, next.payload)),
        }
    }

    /// The package id of a pending task.
    #[verifier::loop_isolation(false)]
    fn package_id_of(&self, task_id: TaskId) -> (r: crate::comms::PackageId)
        requires
            tasks_wf(self.inner@),
            contains_task(self.inner@, task_id),
        ensures
            r == spec_get_task(self.inner@, task_id).inner.package_id,
    {
        let mut i: usize = 0;
        proof {
            lemma_get_task(self.inner@, task_id);
        }
        while i < self.inner.len()
            invariant
                0 <= i <= self.inner@.len(),
                contains_task(self.inner@, task_id),
                forall|k: int| 0 <= k < i ==> (#[trigger] self.inner@[k]).inner.task_id != task_id,
            decreases self.inner@.len() - i,
        {
            if self.inner[i].inner.task_id == task_id {
                proof {
                    lemma_get_task_at(self.inner@, task_id, i as int);
                }
                return self.inner[i].inner.package_id;
            }
            i = i + 1;
        }
        proof {
            let w = choose|k: int|
                0 <= k < self.inner@.len() && self.inner@[k].inner.task_id == task_id;
            assert(false);
        }
        0
    }
}

impl PendingWorkerTasks {
    /// An external cancellation request: mark the task as cancelling —
    /// seeded with its active runner, so that a prompt confirmation from
    /// that runner completes the cancellation — and ask every runner to
    /// cancel it. Cancelling a task that is no longer pending (it may have
    /// completed already) changes nothing and still succeeds.
    pub fn cancel_task(&mut self, task_id: TaskId) -> (r: Vec<SendAction>)
        requires
            tasks_wf(old(self).inner@),
        ensures
            tasks_wf(final(self).inner@),
            r@ =~= seq![
                SendAction::CancelRunner { language: Language::Python, task_id },
                SendAction::CancelRunner { language: Language::JavaScript, task_id },
                SendAction::CancelRunner { language: Language::Rust, task_id },
            ],
            !contains_task(old(self).inner@, task_id) ==> final(self).inner@ == old(self).inner@,
            final(self).inner@.len() == old(self).inner@.len(),
            forall|k: int|
                0 <= k < old(self).inner@.len() ==> {
                    let o = #[trigger] old(self).inner@[k];
                    let n = final(self).inner@[k];
                    &&& n.inner == o.inner
                    &&& n.active_runner == o.active_runner
                    &&& (o.inner.task_id != task_id ==> n == o)
                    &&& (o.inner.task_id == task_id ==> (n.cancelling matches CancelState::Active(
                        langs,
                    ) && langs@ =~= seq![o.active_runner]))
                },
    {
        let ghost before = self.inner@;
        let mut i: usize = 0;
        while i < self.inner.len()
            invariant
                0 <= i <= self.inner@.len(),
                self.inner@.len() == before.len(),
                forall|k: int| i <= k < before.len() ==> #[trigger] self.inner@[k] == before[k],
                forall|k: int|
                    0 <= k < i ==> {
                        let o = #[trigger] before[k];
                        let n = self.inner@[k];
                        &&& n.inner == o.inner
                        &&& n.active_runner == o.active_runner
                        &&& (o.inner.task_id != task_id ==> n == o)
                        &&& (o.inner.task_id == task_id ==> (n.cancelling matches
                            CancelState::Active(langs) && langs@ =~= seq![o.active_runner]))
                    },
            decreases self.inner@.len() - i,
        {
            if self.inner[i].inner.task_id == task_id {
                let active = self.inner[i].active_runner;
                let mut langs: Vec<Language> = Vec::new();
                langs.push(active);
                let ghost langs_view = langs@;
                let entry = &mut self.inner[i];
                entry.cancelling = CancelState::Active(langs);
                proof {
                    assert(langs_view =~= seq![before[i as int].active_runner]);
                }
            }
            i = i + 1;
        }
        proof {
            assert(tasks_wf(self.inner@)) by {
                assert(forall|k: int|
                    0 <= k < before.len() ==> (#[trigger] self.inner@[k]).inner.task_id
                        == before[k].inner.task_id);
            }
            if !contains_task(before, task_id) {
                assert(self.inner@ =~= before);
            }
        }
        let mut actions: Vec<SendAction> = Vec::new();
        actions.push(SendAction::CancelRunner { language: Language::Python, task_id });
        actions.push(SendAction::CancelRunner { language: Language::JavaScript, task_id });
        actions.push(SendAction::CancelRunner { language: Language::Rust, task_id });
        actions
    }

    /// A runner confirmed that it cancelled the task: record the
    /// confirmation; when it came from the task's active runner, the task
    /// is done for — it leaves the table and the pool is told the task was
    /// cancelled. A confirmation for an unknown task is ignored without
    /// error.
    pub fn handle_cancel_task_confirmation(&mut self, task_id: TaskId, source: Language) -> (r: Vec<
        SendAction,
    >)
        requires
            tasks_wf(old(self).inner@),
        ensures
            tasks_wf(final(self).inner@),
            !contains_task(old(self).inner@, task_id) ==> *final(self) == *old(self) && r@ =~= Seq::<
                SendAction,
            >::empty(),
            contains_task(old(self).inner@, task_id) && spec_get_task(
                old(self).inner@,
                task_id,
            ).active_runner == source ==> final(self).inner@ == spec_remove_task(
                old(self).inner@,
                task_id,
            ) && r@ =~= seq![SendAction::SendCancelled { task_id }],
            contains_task(old(self).inner@, task_id) && spec_get_task(
                old(self).inner@,
                task_id,
            ).active_runner != source ==> r@ =~= Seq::<SendAction>::empty()
                && final(self).inner@.len() == old(self).inner@.len() && forall|k: int|
                0 <= k < old(self).inner@.len() ==> {
                    let o = #[trigger] old(self).inner@[k];
                    let n = final(self).inner@[k];
                    &&& n.inner == o.inner
                    &&& n.active_runner == o.active_runner
                    &&& (o.inner.task_id != task_id ==> n == o)
                    &&& (o.inner.task_id == task_id ==> (n.cancelling matches CancelState::Active(
                        langs,
                    ) && langs@.contains(source)))
                },
    {
        let ghost before = self.inner@;
        let mut idx: usize = self.inner.len();
        let mut i: usize = 0;
        while i < self.inner.len()
            invariant
                0 <= i <= self.inner@.len(),
                idx == self.inner@.len() || (idx < i && self.inner@[idx as int].inner.task_id
                    == task_id),
                idx == self.inner@.len() ==> forall|k: int|
                    0 <= k < i ==> (#[trigger] self.inner@[k]).inner.task_id != task_id,
            decreases self.inner@.len() - i,
        {
            if idx == self.inner.len() {
                if self.inner[i].inner.task_id == task_id {
                    idx = i;
                }
            }
            i = i + 1;
        }
        if idx == self.inner.len() {
            return Vec::new();
        }
        proof {
            lemma_get_task_at(before, task_id, idx as int);
        }
        let active = self.inner[idx].active_runner;
        let is_active_source = language_eq(active, source);
        let entry = &mut self.inner[idx];
        let mut previous = CancelState::Inactive;
        core::mem::swap(&mut entry.cancelling, &mut previous);
        let new_state = match previous {
            CancelState::Active(langs) => {
                let mut langs = langs;
                let ghost langs_before = langs@;
                if !vec_contains_language(&langs, source) {
                    langs.push(source);
                    proof {
                        assert(langs@.last() == source);
                        assert(langs@.contains(source));
                    }
                }
                CancelState::Active(langs)
            },
            CancelState::Inactive => {
                let mut confirmed: Vec<Language> = Vec::new();
                confirmed.push(source);
                proof {
                    assert(confirmed@.last() == source);
                    assert(confirmed@.contains(source));
                }
                CancelState::Active(confirmed)
            },
        };
        proof {
            assert(new_state is Active && new_state->Active_0@.contains(source));
        }
        entry.cancelling = new_state;
        let ghost marked = self.inner@;
        proof {
            assert(marked.len() == before.len());
            assert(forall|k: int|
                0 <= k < before.len() && k != idx ==> #[trigger] marked[k] == before[k]);
            assert(marked[idx as int].inner == before[idx as int].inner);
            assert(marked[idx as int].active_runner == before[idx as int].active_runner);
            assert(marked[idx as int].cancelling is Active
                && marked[idx as int].cancelling->Active_0@.contains(source));
            assert(tasks_wf(marked)) by {
                assert(forall|k: int|
                    0 <= k < before.len() ==> (#[trigger] marked[k]).inner.task_id
                        == before[k].inner.task_id);
            }
        }
        if is_active_source {
            let _ = self.remove_task(task_id);
            proof {
                lemma_remove_task_at(marked, task_id, idx as int);
                lemma_remove_task_at(before, task_id, idx as int);
                assert(marked.take(idx as int) =~= before.take(idx as int));
                assert(marked.skip(idx + 1) =~= before.skip(idx + 1));
                assert(self.inner@ =~= spec_remove_task(before, task_id));
            }
            let mut actions: Vec<SendAction> = Vec::new();
            actions.push(SendAction::SendCancelled { task_id });
            proof {
                assert(actions@ =~= seq![SendAction::SendCancelled { task_id }]);
            }
            actions
        } else {
            Vec::new()
        }
    }
}

/// Where the id sits at a single known position, removal is exactly cutting
/// that position out.
pub proof fn lemma_remove_task_at(s: Seq<PendingWorkerTask>, id: TaskId, at: int)
    requires
        tasks_wf(s),
        0 <= at < s.len(),
        s[at].inner.task_id == id,
    ensures
        spec_remove_task(s, id) =~= s.take(at) + s.skip(at + 1),
    decreases s,
{
    let prev = s.drop_last();
    assert(tasks_wf(prev)) by {
        assert(forall|i: int| 0 <= i < prev.len() ==> prev[i] == s[i]);
    }
    if at == s.len() - 1 {
        assert(!contains_task(prev, id)) by {
            if contains_task(prev, id) {
                let w = choose|i: int| 0 <= i < prev.len() && prev[i].inner.task_id == id;
                assert(s[w].inner.task_id == s[at].inner.task_id);
            }
        }
        lemma_remove_task_props(prev, id);
        assert(spec_remove_task(s, id) =~= prev);
        assert(s.take(at) + s.skip(at + 1) =~= prev);
    } else {
        assert(s.last().inner.task_id != id) by {
            assert(s[at].inner.task_id != s[s.len() - 1].inner.task_id);
        }
        assert(prev[at] == s[at]);
        lemma_remove_task_at(prev, id, at);
        assert(prev.take(at) =~= s.take(at));
        assert(spec_remove_task(s, id) =~= (prev.take(at) + prev.skip(at + 1)).push(s.last()));
        assert((prev.take(at) + prev.skip(at + 1)).push(s.last()) =~= s.take(at) + s.skip(at + 1));
    }
}

/// Whether two languages are the same.
fn language_eq(a: Language, b: Language) -> (r: bool)
    ensures
        r == (a == b),
{
    match (a, b) {
        (Language::Rust, Language::Rust) => true,
        (Language::Python, Language::Python) => true,
        (Language::JavaScript, Language::JavaScript) => true,
        _ => false,
    }
}

/// Whether the list holds the language.
fn vec_contains_language(v: &Vec<Language>, l: Language) -> (r: bool)
    ensures
        r == v@.contains(l),
{
    let mut i: usize = 0;
    while i < v.len()
        invariant
            0 <= i <= v@.len(),
            forall|k: int| 0 <= k < i ==> v@[k] != l,
        decreases v@.len() - i,
    {
        if language_eq(v[i], l) {
            return true;
        }
        i = i + 1;
    }
    false
}

/// The language a runner-naming target stands for (meaningful only for
/// those three targets).
pub open spec fn language_of_target(t: MessageTarget) -> Language {
    match t {
        MessageTarget::Rust => Language::Rust,
        MessageTarget::Python => Language::Python,
        MessageTarget::JavaScript => Language::JavaScript,
        _ => Language::Rust,
    }
}

/// Cancel requests for the two runners other than `source`, in language
/// order.
pub open spec fn cancel_others_actions(task_id: TaskId, source: Language) -> Seq<SendAction> {
    match source {
        Language::Rust => seq![
            SendAction::CancelRunner { language: Language::Python, task_id },
            SendAction::CancelRunner { language: Language::JavaScript, task_id },
        ],
        Language::Python => seq![
            SendAction::CancelRunner { language: Language::Rust, task_id },
            SendAction::CancelRunner { language: Language::JavaScript, task_id },
        ],
        Language::JavaScript => seq![
            SendAction::CancelRunner { language: Language::Rust, task_id },
            SendAction::CancelRunner { language: Language::Python, task_id },
        ],
    }
}

/// Push cancel requests for every language but `source`.
fn push_cancel_others(actions: &mut Vec<SendAction>, task_id: TaskId, source: Language)
    ensures
        final(actions)@ =~= old(actions)@ + cancel_others_actions(task_id, source),
{
    let ghost before = actions@;
    if !matches!(source, Language::Rust) {
        actions.push(SendAction::CancelRunner { language: Language::Rust, task_id });
    }
    if !matches!(source, Language::Python) {
        actions.push(SendAction::CancelRunner { language: Language::Python, task_id });
    }
    if !matches!(source, Language::JavaScript) {
        actions.push(SendAction::CancelRunner { language: Language::JavaScript, task_id });
    }
    proof {
        assert(actions@ =~= before + cancel_others_actions(task_id, source));
    }
}

/// `spec_set_active` touches only the named task and keeps the table's
/// well-formedness and membership.
pub proof fn lemma_set_active_contains(s: Seq<PendingWorkerTask>, id: TaskId, lang: Language)
    requires
        tasks_wf(s),
        contains_task(s, id),
    ensures
        tasks_wf(spec_set_active(s, id, lang)),
        contains_task(spec_set_active(s, id, lang), id),
        spec_get_task(spec_set_active(s, id, lang), id).active_runner == lang,
    decreases s,
{
    let r = spec_set_active(s, id, lang);
    assert(forall|i: int| 0 <= i < s.len() ==> r[i].inner.task_id == s[i].inner.task_id);
    let w = choose|i: int| 0 <= i < s.len() && s[i].inner.task_id == id;
    assert(r[w].inner.task_id == id);
    lemma_get_task_at(r, id, w);
}

/// When exactly one position holds the id, the lookup returns it.
pub proof fn lemma_get_task_at(s: Seq<PendingWorkerTask>, id: TaskId, at: int)
    requires
        tasks_wf(s),
        0 <= at < s.len(),
        s[at].inner.task_id == id,
    ensures
        spec_get_task(s, id) == s[at],
    decreases s,
{
    if s.last().inner.task_id == id {
        assert(at == s.len() - 1);
    } else {
        assert(at < s.len() - 1);
        assert(s.drop_last()[at] == s[at]);
        lemma_get_task_at(s.drop_last(), id, at);
    }
}

/// Removing an id keeps well-formedness, drops exactly that id, and leaves
/// every other id's membership alone.
pub proof fn lemma_remove_task_props(s: Seq<PendingWorkerTask>, id: TaskId)
    requires
        tasks_wf(s),
    ensures
        tasks_wf(spec_remove_task(s, id)),
        !contains_task(spec_remove_task(s, id), id),
        !contains_task(s, id) ==> spec_remove_task(s, id) =~= s,
        forall|id2: TaskId|
            id2 != id ==> (contains_task(spec_remove_task(s, id), id2) <==> contains_task(s, id2)),
    decreases s,
{
    if s.len() == 0 {
        assert(spec_remove_task(s, id) =~= Seq::<PendingWorkerTask>::empty());
    } else {
        let prev = s.drop_last();
        assert(tasks_wf(prev)) by {
            assert(forall|i: int| 0 <= i < prev.len() ==> prev[i] == s[i]);
        }
        lemma_remove_task_props(prev, id);
        let rest = spec_remove_task(prev, id);
        if s.last().inner.task_id == id {
            assert(spec_remove_task(s, id) == rest);
            assert(!contains_task(prev, id)) by {
                if contains_task(prev, id) {
                    let w = choose|i: int| 0 <= i < prev.len() && prev[i].inner.task_id == id;
                    assert(s[w].inner.task_id == s[s.len() - 1].inner.task_id);
                }
            }
            assert forall|id2: TaskId|
                id2 != id implies (contains_task(spec_remove_task(s, id), id2) <==> contains_task(
                s,
                id2,
            )) by {
                if contains_task(s, id2) {
                    let w = choose|i: int| 0 <= i < s.len() && s[i].inner.task_id == id2;
                    assert(w < s.len() - 1);
                    assert(prev[w].inner.task_id == id2);
                }
            }
        } else {
            let r = spec_remove_task(s, id);
            assert(r == rest.push(s.last()));
            assert(tasks_wf(r)) by {
                assert forall|i: int, j: int|
                    0 <= i < j < r.len() implies r[i].inner.task_id != r[j].inner.task_id by {
                    if j == r.len() - 1 {
                        if contains_task(rest, s.last().inner.task_id) {
                            assert(contains_task(prev, s.last().inner.task_id));
                            let w = choose|k: int|
                                0 <= k < prev.len() && prev[k].inner.task_id
                                    == s.last().inner.task_id;
                            assert(s[w].inner.task_id == s[s.len() - 1].inner.task_id);
                        }
                        assert(r[i].inner.task_id != r[j].inner.task_id) by {
                            if r[i].inner.task_id == s.last().inner.task_id {
                                assert(contains_task(rest, s.last().inner.task_id));
                            }
                        }
                    }
                }
            }
            assert(!contains_task(r, id)) by {
                if contains_task(r, id) {
                    let w = choose|i: int| 0 <= i < r.len() && r[i].inner.task_id == id;
                    if w < rest.len() {
                        assert(contains_task(rest, id));
                    }
                }
            }
            if !contains_task(s, id) {
                assert(!contains_task(prev, id)) by {
                    if contains_task(prev, id) {
                        let w = choose|i: int| 0 <= i < prev.len() && prev[i].inner.task_id == id;
                        assert(s[w].inner.task_id == id);
                    }
                }
                assert(rest =~= prev);
                assert(spec_remove_task(s, id) =~= s);
            }
            assert forall|id2: TaskId|
                id2 != id implies (contains_task(r, id2) <==> contains_task(s, id2)) by {
                if contains_task(s, id2) {
                    let w = choose|i: int| 0 <= i < s.len() && s[i].inner.task_id == id2;
                    if w == s.len() - 1 {
                        assert(r[r.len() - 1].inner.task_id == id2);
                    } else {
                        assert(prev[w].inner.task_id == id2);
                        assert(contains_task(prev, id2));
                        assert(contains_task(rest, id2));
                        let v = choose|i: int| 0 <= i < rest.len() && rest[i].inner.task_id == id2;
                        assert(r[v].inner.task_id == id2);
                    }
                }
                if contains_task(r, id2) {
                    let w = choose|i: int| 0 <= i < r.len() && r[i].inner.task_id == id2;
                    if w == r.len() - 1 {
                        assert(s[s.len() - 1].inner.task_id == id2);
                    } else {
                        assert(r[w] == rest[w]);
                        assert(rest[w].inner.task_id == id2);
                        assert(contains_task(rest, id2));
                        assert(contains_task(prev, id2));
                        let v = choose|i: int| 0 <= i < prev.len() && prev[i].inner.task_id == id2;
                        assert(s[v].inner.task_id == id2);
                    }
                }
            }
        }
    }
}

/// For a pending id, the looked-up task is in the table and carries that
/// id.
pub proof fn lemma_get_task(s: Seq<PendingWorkerTask>, id: TaskId)
    requires
        contains_task(s, id),
    ensures
        exists|i: int|
            0 <= i < s.len() && s[i] == spec_get_task(s, id) && s[i].inner.task_id == id,
        spec_get_task(s, id).inner.task_id == id,
    decreases s,
{
    if s.last().inner.task_id == id {
        assert(s[s.len() - 1] == spec_get_task(s, id));
    } else {
        assert(contains_task(s.drop_last(), id)) by {
            let w = choose|i: int| 0 <= i < s.len() && s[i].inner.task_id == id;
            assert(s.drop_last()[w] == s[w]);
        }
        lemma_get_task(s.drop_last(), id);
        let w = choose|i: int|
            0 <= i < s.drop_last().len() && s.drop_last()[i] == spec_get_task(s.drop_last(), id)
                && s.drop_last()[i].inner.task_id == id;
        assert(s[w] == spec_get_task(s, id));
    }
}

} // verus!
