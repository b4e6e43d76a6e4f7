use grunner::command_actions::GrunnerAction;
use grunner::task_subscription::{
    completion_sound, ActionEvent, ActionProgress, ActionResult, ActionState, StreamId,
};

fn run_machine(events: &[ActionEvent]) -> (Vec<ActionProgress>, ActionState) {
    let mut state = ActionState::Ready;
    let mut trace: Vec<ActionProgress> = Vec::new();
    for e in events {
        let (emitted, next) = state.advance(*e);
        if let Some(p) = emitted {
            trace.push(p);
        }
        state = next;
    }
    (trace, state)
}

#[test]
fn successful_run_emits_starting_then_completed() {
    let (trace, state) = run_machine(&[
        ActionEvent::Spawned,
        ActionEvent::StreamClosed(StreamId::Stdout),
        ActionEvent::StreamClosed(StreamId::Stderr),
        ActionEvent::Exited(true),
    ]);
    assert_eq!(
        trace,
        vec![
            ActionProgress::Starting,
            ActionProgress::Completed(ActionResult::Success)
        ]
    );
    assert_eq!(state, ActionState::Done);
}

#[test]
fn failing_run_emits_completed_fail() {
    let (trace, _) = run_machine(&[
        ActionEvent::Spawned,
        ActionEvent::StreamClosed(StreamId::Stderr),
        ActionEvent::StreamClosed(StreamId::Stdout),
        ActionEvent::Exited(false),
    ]);
    assert_eq!(
        trace,
        vec![
            ActionProgress::Starting,
            ActionProgress::Completed(ActionResult::Fail)
        ]
    );
}

#[test]
fn each_line_emits_one_continuing() {
    let (trace, _) = run_machine(&[
        ActionEvent::Spawned,
        ActionEvent::LineRead(StreamId::Stdout),
        ActionEvent::LineRead(StreamId::Stderr),
        ActionEvent::StreamClosed(StreamId::Stdout),
        ActionEvent::LineRead(StreamId::Stderr),
        ActionEvent::StreamClosed(StreamId::Stderr),
        ActionEvent::Exited(true),
    ]);
    assert_eq!(
        trace,
        vec![
            ActionProgress::Starting,
            ActionProgress::Continuing,
            ActionProgress::Continuing,
            ActionProgress::Continuing,
            ActionProgress::Completed(ActionResult::Success)
        ]
    );
}

#[test]
fn one_closed_stream_does_not_finish_the_run() {
    let (_, state) = run_machine(&[
        ActionEvent::Spawned,
        ActionEvent::StreamClosed(StreamId::Stdout),
    ]);
    assert_eq!(
        state,
        ActionState::InProgress {
            out_open: false,
            err_open: true
        }
    );
}

#[test]
fn spawn_failure_is_a_lone_error() {
    let (trace, state) = run_machine(&[ActionEvent::SpawnFailed]);
    assert_eq!(trace, vec![ActionProgress::Error]);
    assert_eq!(state, ActionState::Done);
}

#[test]
fn read_failure_ends_the_run_at_once() {
    let (trace, state) = run_machine(&[
        ActionEvent::Spawned,
        ActionEvent::LineRead(StreamId::Stdout),
        ActionEvent::ReadFailed,
    ]);
    assert_eq!(
        trace,
        vec![
            ActionProgress::Starting,
            ActionProgress::Continuing,
            ActionProgress::Error
        ]
    );
    assert_eq!(state, ActionState::Done);
}

#[test]
fn nothing_follows_a_terminal_event() {
    let (trace, state) = run_machine(&[
        ActionEvent::SpawnFailed,
        ActionEvent::Spawned,
        ActionEvent::LineRead(StreamId::Stdout),
        ActionEvent::Exited(true),
    ]);
    assert_eq!(trace, vec![ActionProgress::Error]);
    assert_eq!(state, ActionState::Done);
}

#[test]
fn completion_sound_follows_the_verdict() {
    let act = GrunnerAction {
        name: "build".to_string(),
        execute: "make".to_string(),
        args: Vec::new(),
        use_options: Vec::new(),
        success_sound: Some("yay.ogg".to_string()),
        fail_sound: Some("boo.ogg".to_string()),
        options: Vec::new(),
    };
    assert_eq!(
        completion_sound(&act, ActionResult::Success),
        Some("yay.ogg".to_string())
    );
    assert_eq!(
        completion_sound(&act, ActionResult::Fail),
        Some("boo.ogg".to_string())
    );
    let silent = GrunnerAction {
        success_sound: None,
        fail_sound: None,
        ..act
    };
    assert_eq!(completion_sound(&silent, ActionResult::Success), None);
    assert_eq!(completion_sound(&silent, ActionResult::Fail), None);
}
