use collection_framework::events::{CollectorName, SchedulerEvent};
use collection_framework::injection::{
    failed_window, injector_args, InjectAction, InjectEvent, InjectPhase, INJECTION_ATTEMPTS,
    INJECTION_RETRY_DELAY_MS,
};

/// Answers each action with an event, and lists the actions.
fn carry_out(mut answer: impl FnMut(InjectAction) -> InjectEvent) -> (Vec<InjectAction>, bool) {
    let mut phase = InjectPhase::Configuring;
    let mut done = Vec::new();
    loop {
        let action = phase.action();
        if let InjectPhase::Done(injected) = phase {
            assert_eq!(action, InjectAction::Finish);
            return (done, injected);
        }
        done.push(action);
        phase = phase.step(answer(action));
    }
}

fn exits_with(exit: Option<bool>) -> impl FnMut(InjectAction) -> InjectEvent {
    move |action| match action {
        InjectAction::WriteConfig => InjectEvent::Configured(true),
        InjectAction::Start => InjectEvent::Started(true),
        InjectAction::Wait => InjectEvent::Exited(exit),
        InjectAction::Pause => InjectEvent::Paused,
        InjectAction::Report => InjectEvent::Reported,
        InjectAction::Finish => unreachable!(),
    }
}

#[test]
fn an_injector_that_succeeds_is_started_once() {
    let (done, injected) = carry_out(exits_with(Some(true)));
    assert!(injected);
    assert_eq!(done, [InjectAction::WriteConfig, InjectAction::Start, InjectAction::Wait]);
}

#[test]
fn an_injector_that_fails_is_started_three_times_with_pauses_between() {
    assert_eq!(INJECTION_ATTEMPTS, 3);
    assert_eq!(INJECTION_RETRY_DELAY_MS, 200);
    let (done, injected) = carry_out(exits_with(Some(false)));
    assert!(!injected);
    assert_eq!(
        done,
        [
            InjectAction::WriteConfig,
            InjectAction::Start,
            InjectAction::Wait,
            InjectAction::Pause,
            InjectAction::Start,
            InjectAction::Wait,
            InjectAction::Pause,
            InjectAction::Start,
            InjectAction::Wait,
            InjectAction::Report,
        ]
    );
}

#[test]
fn an_injector_that_cannot_be_waited_for_is_not_started_again() {
    let (done, injected) = carry_out(exits_with(None));
    assert!(!injected);
    assert_eq!(
        done,
        [
            InjectAction::WriteConfig,
            InjectAction::Start,
            InjectAction::Wait,
            InjectAction::Report,
        ]
    );
}

#[test]
fn an_injector_that_does_not_start_is_not_started_again() {
    let mut other = exits_with(Some(true));
    let (done, injected) = carry_out(|action| match action {
        InjectAction::Start => InjectEvent::Started(false),
        action => other(action),
    });
    assert!(!injected);
    assert_eq!(done, [InjectAction::WriteConfig, InjectAction::Start, InjectAction::Report]);
}

#[test]
fn nothing_is_injected_without_a_config() {
    let mut other = exits_with(Some(true));
    let (done, injected) = carry_out(|action| match action {
        InjectAction::WriteConfig => InjectEvent::Configured(false),
        action => other(action),
    });
    assert!(!injected);
    assert_eq!(done, [InjectAction::WriteConfig, InjectAction::Report]);
}

#[test]
fn a_failed_window_is_told_as_one() {
    assert_eq!(
        failed_window(4242),
        SchedulerEvent::CollectFailed(CollectorName::CUPTI, 4242)
    );
}

#[test]
fn the_injector_is_told_the_target_and_the_output() {
    assert_eq!(
        injector_args(4242, "/out dir"),
        ["cupti-inject", "--target-pid", "4242", "--output", "/out dir"]
    );
}
