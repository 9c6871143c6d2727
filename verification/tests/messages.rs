use collection_framework::constants::{
    FAILED_CUPTI_COLLECTOR, FINISH_CUPTI_COLLECTOR, START_CUPTI_COLLECTOR, START_PYKI_COLLECTOR,
    STOP_CUPTI_COLLECTOR, STOP_PYKI_COLLECTOR,
};
use collection_framework::events::{CollectorName, SchedulerEvent};
use collection_framework::messages::{
    connection_step, event_for_bytes, event_for_text, listener_step, scheduler_event_for,
    ConnectionEvent, ConnectionStep, ListenerEvent, ListenerStep,
};

#[test]
fn cuprof_lifecycle_messages_map_to_scheduler_events() {
    assert!(matches!(
        scheduler_event_for(START_CUPTI_COLLECTOR, 42),
        Some(SchedulerEvent::StartPendingCollector(
            CollectorName::CUPTI,
            42
        ))
    ));
    assert!(matches!(
        scheduler_event_for(STOP_CUPTI_COLLECTOR, 42),
        Some(SchedulerEvent::StopCollector(CollectorName::CUPTI, 42))
    ));
    assert!(matches!(
        scheduler_event_for(FINISH_CUPTI_COLLECTOR, 42),
        Some(SchedulerEvent::WritingFinish(CollectorName::CUPTI, 42))
    ));
}

#[test]
fn cuprof_failed_write_is_terminal_and_not_silently_dropped() {
    assert!(matches!(
        scheduler_event_for(FAILED_CUPTI_COLLECTOR, 42),
        Some(SchedulerEvent::CollectFailed(CollectorName::CUPTI, 42))
    ));
}

#[test]
fn pyki_lifecycle_messages_map_to_scheduler_events() {
    assert!(matches!(
        scheduler_event_for(START_PYKI_COLLECTOR, 42),
        Some(SchedulerEvent::StartPendingCollector(
            CollectorName::Pyki,
            42
        ))
    ));
    assert!(matches!(
        scheduler_event_for(STOP_PYKI_COLLECTOR, 42),
        Some(SchedulerEvent::StopCollector(CollectorName::Pyki, 42))
    ));
}

#[test]
fn the_socket_pid_is_carried_into_the_event() {
    assert!(matches!(
        scheduler_event_for(FINISH_CUPTI_COLLECTOR, 4242),
        Some(SchedulerEvent::WritingFinish(CollectorName::CUPTI, 4242))
    ));
}

#[test]
fn unknown_or_empty_message_is_ignored() {
    assert!(scheduler_event_for("", 7).is_none());
    assert!(scheduler_event_for("CUPTIProfilingWhatever", 7).is_none());
    assert!(scheduler_event_for("cuptiprofilingstart", 7).is_none());
}

#[test]
fn the_messages_are_those_of_the_wire() {
    assert_eq!(START_PYKI_COLLECTOR, "STARTPYKICOLLECTOR");
    assert_eq!(STOP_PYKI_COLLECTOR, "STOPPYKICOLLECTOR");
    assert_eq!(START_CUPTI_COLLECTOR, "CUPTIProfilingStart");
    assert_eq!(STOP_CUPTI_COLLECTOR, "CUPTIProfilingStop");
    assert_eq!(FINISH_CUPTI_COLLECTOR, "CUPTIProfilingWriterOver");
    assert_eq!(FAILED_CUPTI_COLLECTOR, "CUPTIProfilingFailed");
}

#[test]
fn zeros_behind_a_message_are_ignored() {
    let stop = Some(SchedulerEvent::StopCollector(CollectorName::CUPTI, 7));
    assert_eq!(event_for_text("CUPTIProfilingStop\0\0", 7), stop);
    assert_eq!(event_for_bytes(b"CUPTIProfilingStop", 7), stop);
    assert_eq!(event_for_bytes(b"CUPTIProfilingStop\0", 7), stop);
    assert_eq!(event_for_bytes(b"CUPTIProfilingStop\0\0\0", 7), stop);
    assert_eq!(event_for_bytes(b"\0CUPTIProfilingStop", 7), None);
    assert_eq!(event_for_bytes(b"CUPTIProfilingStop\n", 7), None);
    assert_eq!(event_for_bytes(b"CUPTIProfilingStop\0x", 7), None);
    assert_eq!(event_for_bytes(b"\0\0", 7), None);
}

#[test]
fn bytes_that_are_no_text_are_no_message() {
    assert_eq!(event_for_bytes(b"CUPTIProfilingStop\xff", 7), None);
    assert_eq!(event_for_bytes(b"\xffCUPTIProfilingStop\0", 7), None);
    assert_eq!(event_for_bytes("CUPTIProfilingStop\u{e9}".as_bytes(), 7), None);
}

#[test]
fn a_connection_is_given_up_only_at_its_end() {
    let data = |bytes: &[u8]| ConnectionEvent::Data(bytes.to_vec());
    assert_eq!(
        connection_step(&data(b"CUPTIProfilingStart\0"), 9),
        ConnectionStep::Dispatch(SchedulerEvent::StartPendingCollector(CollectorName::CUPTI, 9))
    );
    assert_eq!(connection_step(&data(b"hello"), 9), ConnectionStep::Wait);
    assert_eq!(connection_step(&data(b""), 9), ConnectionStep::Close);
    assert_eq!(connection_step(&ConnectionEvent::WouldBlock, 9), ConnectionStep::Wait);
    assert_eq!(connection_step(&ConnectionEvent::Failed, 9), ConnectionStep::Close);
    assert_eq!(connection_step(&ConnectionEvent::Shutdown, 9), ConnectionStep::Close);
}

#[test]
fn a_listener_ends_with_a_shutdown_only() {
    assert_eq!(listener_step(ListenerEvent::Accepted), ListenerStep::Serve);
    assert_eq!(listener_step(ListenerEvent::AcceptFailed), ListenerStep::Wait);
    assert_eq!(listener_step(ListenerEvent::Shutdown), ListenerStep::Stop);
}
