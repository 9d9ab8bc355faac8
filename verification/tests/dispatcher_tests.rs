use sim_engine::comms::{
    Language, MessageTarget, StateInterimSync, TargetedTaskMessage, TaskMessage,
};
use sim_engine::dispatcher::{
    CancelState, PendingWorkerTasks, SendAction, WorkerError, WorkerTask,
};

fn sync() -> StateInterimSync {
    StateInterimSync {
        group_indices: vec![],
        agent_pool_metaversions: vec![],
        message_pool_metaversions: vec![],
    }
}

fn msg(payload: &str) -> TaskMessage {
    TaskMessage::new(payload.to_string())
}

fn start(target: MessageTarget, payload: &str) -> TargetedTaskMessage {
    TargetedTaskMessage { target, payload: msg(payload) }
}

fn spawn(tasks: &mut PendingWorkerTasks, id: u128, target: MessageTarget) -> SendAction {
    tasks
        .spawn_task(
            WorkerTask { task_id: id, package_id: 1 },
            start(target, "start"),
            sync(),
            None,
        )
        .unwrap()
}

#[test]
fn spawn_forwards_to_target_runner() {
    let mut tasks = PendingWorkerTasks::new();
    let action = spawn(&mut tasks, 7, MessageTarget::Python);
    match action {
        SendAction::ForwardTask { language, msg } => {
            assert_eq!(language, Language::Python);
            assert_eq!(msg.task_id, 7);
            assert_eq!(msg.payload.payload_json, "start");
        }
        other => panic!("unexpected action: {:?}", other),
    }
    assert!(tasks.contains(7));
    assert_eq!(tasks.inner[0].active_runner, Language::Python);
    assert!(matches!(tasks.inner[0].cancelling, CancelState::Inactive));
}

#[test]
fn spawn_with_main_target_is_error() {
    let mut tasks = PendingWorkerTasks::new();
    let err = tasks
        .spawn_task(
            WorkerTask { task_id: 1, package_id: 0 },
            start(MessageTarget::Main, "start"),
            sync(),
            None,
        )
        .unwrap_err();
    assert!(matches!(err, WorkerError::UnexpectedTarget(MessageTarget::Main)));
    assert_eq!(tasks.len(), 0);
}

#[test]
fn duplicate_task_id_insert_fails_deterministically() {
    let mut tasks = PendingWorkerTasks::new();
    spawn(&mut tasks, 7, MessageTarget::Python);
    for _ in 0..3 {
        let err = tasks
            .spawn_task(
                WorkerTask { task_id: 7, package_id: 2 },
                start(MessageTarget::JavaScript, "again"),
                sync(),
                None,
            )
            .unwrap_err();
        assert!(matches!(err, WorkerError::TaskAlreadyExists(7)));
        assert_eq!(tasks.len(), 1);
    }
}

#[test]
fn dynamic_language_switch() {
    // Task starts on the first scripting runner; its reply went to the
    // dynamic handler, whose answer targets the second scripting runner.
    let mut tasks = PendingWorkerTasks::new();
    spawn(&mut tasks, 42, MessageTarget::Python);

    let actions = tasks
        .run_task_handler_on_outbound(
            42,
            start(MessageTarget::JavaScript, "switched-payload"),
            Language::Python,
            sync(),
            None,
        )
        .unwrap();

    assert_eq!(actions.len(), 1);
    match &actions[0] {
        SendAction::ForwardTask { language, msg } => {
            assert_eq!(*language, Language::JavaScript);
            assert_eq!(msg.task_id, 42);
            assert_eq!(msg.payload.payload_json, "switched-payload");
        }
        other => panic!("unexpected action: {:?}", other),
    }
    assert!(tasks.contains(42));
    assert_eq!(tasks.inner[0].active_runner, Language::JavaScript);
}

#[test]
fn dynamic_target_from_handler_is_error() {
    let mut tasks = PendingWorkerTasks::new();
    spawn(&mut tasks, 42, MessageTarget::Python);
    let err = tasks
        .run_task_handler_on_outbound(
            42,
            start(MessageTarget::Dynamic, "loop"),
            Language::Python,
            sync(),
            None,
        )
        .unwrap_err();
    assert!(matches!(err, WorkerError::UnexpectedTarget(MessageTarget::Dynamic)));
    assert!(tasks.contains(42));
}

#[test]
fn completion_cancels_other_runners() {
    let mut tasks = PendingWorkerTasks::new();
    spawn(&mut tasks, 42, MessageTarget::Python);

    let actions = tasks.finish_task(42, Language::Python, msg("result"));

    assert_eq!(actions.len(), 3);
    match &actions[0] {
        SendAction::SendResult { task_id, payload } => {
            assert_eq!(*task_id, 42);
            assert_eq!(payload.payload_json, "result");
        }
        other => panic!("unexpected action: {:?}", other),
    }
    assert!(matches!(
        actions[1],
        SendAction::CancelRunner { language: Language::Rust, task_id: 42 }
    ));
    assert!(matches!(
        actions[2],
        SendAction::CancelRunner { language: Language::JavaScript, task_id: 42 }
    ));
    assert!(!tasks.contains(42));
}

#[test]
fn completion_through_dynamic_handler_cancels_others() {
    let mut tasks = PendingWorkerTasks::new();
    spawn(&mut tasks, 9, MessageTarget::JavaScript);
    let actions = tasks
        .run_task_handler_on_outbound(
            9,
            start(MessageTarget::Main, "final"),
            Language::JavaScript,
            sync(),
            None,
        )
        .unwrap();
    assert_eq!(actions.len(), 3);
    assert!(matches!(&actions[0], SendAction::SendResult { task_id: 9, .. }));
    assert!(!tasks.contains(9));
}

#[test]
fn cancelling_completed_task_is_noop_success() {
    let mut tasks = PendingWorkerTasks::new();
    spawn(&mut tasks, 5, MessageTarget::Python);
    let done = tasks.finish_task(5, Language::Python, msg("done"));
    assert_eq!(done.len(), 3);
    assert!(!tasks.contains(5));

    // Cancelling the already-completed task changes nothing and succeeds.
    let actions = tasks.cancel_task(5);
    assert_eq!(actions.len(), 3);
    for a in &actions {
        assert!(matches!(a, SendAction::CancelRunner { task_id: 5, .. }));
    }
    assert_eq!(tasks.len(), 0);
}

#[test]
fn cancel_seeds_the_active_runner() {
    let mut tasks = PendingWorkerTasks::new();
    spawn(&mut tasks, 5, MessageTarget::Python);
    tasks.cancel_task(5);
    match &tasks.inner[0].cancelling {
        CancelState::Active(langs) => assert_eq!(langs.as_slice(), &[Language::Python]),
        CancelState::Inactive => panic!("expected an active cancellation"),
    }
    // The active runner's confirmation completes the cancellation.
    let actions = tasks.handle_cancel_task_confirmation(5, Language::Python);
    assert_eq!(actions.len(), 1);
    assert!(matches!(actions[0], SendAction::SendCancelled { task_id: 5 }));
    assert!(!tasks.contains(5));
}

#[test]
fn confirmation_from_other_runner_keeps_task() {
    let mut tasks = PendingWorkerTasks::new();
    spawn(&mut tasks, 5, MessageTarget::Python);
    tasks.cancel_task(5);
    let actions = tasks.handle_cancel_task_confirmation(5, Language::JavaScript);
    assert!(actions.is_empty());
    assert!(tasks.contains(5));
    match &tasks.inner[0].cancelling {
        CancelState::Active(langs) => {
            assert!(langs.contains(&Language::Python));
            assert!(langs.contains(&Language::JavaScript));
        }
        CancelState::Inactive => panic!("expected an active cancellation"),
    }
}

#[test]
fn cancel_confirmation_for_unknown_task_is_ignored() {
    let mut tasks = PendingWorkerTasks::new();
    spawn(&mut tasks, 5, MessageTarget::Python);
    let actions = tasks.handle_cancel_task_confirmation(999, Language::Python);
    assert!(actions.is_empty());
    assert_eq!(tasks.len(), 1);
    assert!(tasks.contains(5));
}

#[test]
fn route_to_language_updates_active_runner() {
    let mut tasks = PendingWorkerTasks::new();
    spawn(&mut tasks, 3, MessageTarget::Rust);
    let action = tasks.route_to_language(
        Language::JavaScript,
        sim_engine::comms::RunnerTaskMsg {
            package_id: 1,
            task_id: 3,
            sync: sync(),
            payload: msg("hop"),
            group_index: Some(2),
        },
    );
    assert!(matches!(action, SendAction::ForwardTask { language: Language::JavaScript, .. }));
    assert_eq!(tasks.inner[0].active_runner, Language::JavaScript);
}
