//! What the messages that collectors send on the socket of their target mean.

use crate::constants::{
    FAILED_CUPTI_COLLECTOR, FINISH_CUPTI_COLLECTOR, START_CUPTI_COLLECTOR, START_PYKI_COLLECTOR,
    STOP_CUPTI_COLLECTOR, STOP_PYKI_COLLECTOR,
};
use crate::events::{CollectorName, SchedulerEvent};
use crate::text::{at, same_text, trim_end_char, trimmed_end};
use vstd::prelude::*;

verus! {

/// The event that a lifecycle message stands for. The messages are a wire
/// protocol, matched as a whole.
pub open spec fn event_of(received: Seq<char>, pid: i32) -> Option<SchedulerEvent> {
    if received == START_PYKI_COLLECTOR@ {
        Some(SchedulerEvent::StartPendingCollector(CollectorName::Pyki, pid))
    } else if received == STOP_PYKI_COLLECTOR@ {
        Some(SchedulerEvent::StopCollector(CollectorName::Pyki, pid))
    } else if received == START_CUPTI_COLLECTOR@ {
        Some(SchedulerEvent::StartPendingCollector(CollectorName::CUPTI, pid))
    } else if received == STOP_CUPTI_COLLECTOR@ {
        Some(SchedulerEvent::StopCollector(CollectorName::CUPTI, pid))
    } else if received == FINISH_CUPTI_COLLECTOR@ {
        Some(SchedulerEvent::WritingFinish(CollectorName::CUPTI, pid))
    } else if received == FAILED_CUPTI_COLLECTOR@ {
        Some(SchedulerEvent::CollectFailed(CollectorName::CUPTI, pid))
    } else {
        None
    }
}

/// Every message of the protocol has the event that is meant for it.
pub proof fn law_every_message_is_understood(pid: i32)
    ensures
        event_of(START_PYKI_COLLECTOR@, pid) == Some(
            SchedulerEvent::StartPendingCollector(CollectorName::Pyki, pid),
        ),
        event_of(STOP_PYKI_COLLECTOR@, pid) == Some(
            SchedulerEvent::StopCollector(CollectorName::Pyki, pid),
        ),
        event_of(START_CUPTI_COLLECTOR@, pid) == Some(
            SchedulerEvent::StartPendingCollector(CollectorName::CUPTI, pid),
        ),
        event_of(STOP_CUPTI_COLLECTOR@, pid) == Some(
            SchedulerEvent::StopCollector(CollectorName::CUPTI, pid),
        ),
        event_of(FINISH_CUPTI_COLLECTOR@, pid) == Some(
            SchedulerEvent::WritingFinish(CollectorName::CUPTI, pid),
        ),
        event_of(FAILED_CUPTI_COLLECTOR@, pid) == Some(
            SchedulerEvent::CollectFailed(CollectorName::CUPTI, pid),
        ),
{
    reveal_strlit("STARTPYKICOLLECTOR");
    reveal_strlit("STOPPYKICOLLECTOR");
    reveal_strlit("CUPTIProfilingStart");
    reveal_strlit("CUPTIProfilingStop");
    reveal_strlit("CUPTIProfilingWriterOver");
    reveal_strlit("CUPTIProfilingFailed");
    assert(START_PYKI_COLLECTOR@.len() == 18);
    assert(STOP_PYKI_COLLECTOR@.len() == 17);
    assert(START_CUPTI_COLLECTOR@.len() == 19);
    assert(STOP_CUPTI_COLLECTOR@.len() == 18);
    assert(FINISH_CUPTI_COLLECTOR@.len() == 24);
    assert(FAILED_CUPTI_COLLECTOR@.len() == 20);
    assert(START_PYKI_COLLECTOR@[0] == 'S');
    assert(STOP_CUPTI_COLLECTOR@[0] == 'C');
}

/// An event is about the target whose socket the message came in on, and tells
/// which message it was.
pub proof fn law_events_name_the_target_and_the_message(
    a: Seq<char>,
    b: Seq<char>,
    pid: i32,
    other: i32,
)
    requires
        event_of(a, pid) is Some,
        event_of(a, pid) == event_of(b, other),
    ensures
        event_of(a, pid)->0.pid() == pid,
        a == b,
        pid == other,
{
}

/// Nothing but the six messages is understood.
pub proof fn law_nothing_else_is_a_message(received: Seq<char>, pid: i32)
    ensures
        event_of(received, pid) is Some <==> {
            ||| received == "STARTPYKICOLLECTOR"@
            ||| received == "STOPPYKICOLLECTOR"@
            ||| received == "CUPTIProfilingStart"@
            ||| received == "CUPTIProfilingStop"@
            ||| received == "CUPTIProfilingWriterOver"@
            ||| received == "CUPTIProfilingFailed"@
        },
{
}

/// Maps a lifecycle message that arrived on the socket of a target to the
/// scheduler event that it stands for.
pub fn scheduler_event_for(received: &str, pid: i32) -> (r: Option<SchedulerEvent>)
    ensures
        r == event_of(received@, pid),
{
    if same_text(received, START_PYKI_COLLECTOR) {
        Some(SchedulerEvent::StartPendingCollector(CollectorName::Pyki, pid))
    } else if same_text(received, STOP_PYKI_COLLECTOR) {
        Some(SchedulerEvent::StopCollector(CollectorName::Pyki, pid))
    } else if same_text(received, START_CUPTI_COLLECTOR) {
        Some(SchedulerEvent::StartPendingCollector(CollectorName::CUPTI, pid))
    } else if same_text(received, STOP_CUPTI_COLLECTOR) {
        Some(SchedulerEvent::StopCollector(CollectorName::CUPTI, pid))
    } else if same_text(received, FINISH_CUPTI_COLLECTOR) {
        Some(SchedulerEvent::WritingFinish(CollectorName::CUPTI, pid))
    } else if same_text(received, FAILED_CUPTI_COLLECTOR) {
        // Sent in place of the message above when a window failed. No trace is
        // going to appear, so the window is over.
        Some(SchedulerEvent::CollectFailed(CollectorName::CUPTI, pid))
    } else {
        None
    }
}

/// What `String::from_utf8_lossy` makes of some bytes.
pub uninterp spec fn lossy_text(bytes: Seq<u8>) -> Seq<char>;

/// `String::from_utf8_lossy`: the text of bytes that are UTF-8. Of bytes that are
/// not, a text that has the replacement character in it.
#[verifier::external_body]
fn utf8_lossy(bytes: &[u8]) -> (r: String)
    ensures
        r@ == lossy_text(bytes@),
        vstd::utf8::valid_utf8(bytes@) ==> r@ == vstd::utf8::decode_utf8(bytes@),
        !vstd::utf8::valid_utf8(bytes@) ==> r@.contains('\u{FFFD}'),
{
    String::from_utf8_lossy(bytes).into_owned()
}

/// Bytes without the zeros at their end.
pub open spec fn without_zeros(bytes: Seq<u8>) -> Seq<u8>
    decreases bytes.len(),
{
    if bytes.len() > 0 && bytes.last() == 0 {
        without_zeros(bytes.drop_last())
    } else {
        bytes
    }
}

/// Bytes as the characters with their numbers.
pub open spec fn as_chars(bytes: Seq<u8>) -> Seq<char> {
    bytes.map_values(|b: u8| b as char)
}

/// The event that some bytes from a socket stand for: those of a message, with or
/// without zeros behind them.
pub open spec fn event_of_bytes(bytes: Seq<u8>, pid: i32) -> Option<SchedulerEvent> {
    event_of(as_chars(without_zeros(bytes)), pid)
}

proof fn lemma_events_are_ascii(s: Seq<char>, pid: i32)
    requires
        event_of(s, pid) is Some,
    ensures
        vstd::utf8::is_ascii_chars(s),
{
    reveal_strlit("STARTPYKICOLLECTOR");
    reveal_strlit("STOPPYKICOLLECTOR");
    reveal_strlit("CUPTIProfilingStart");
    reveal_strlit("CUPTIProfilingStop");
    reveal_strlit("CUPTIProfilingWriterOver");
    reveal_strlit("CUPTIProfilingFailed");
}

proof fn lemma_trim_keeps(s: Seq<char>, sep: char, i: int)
    requires
        0 <= i < s.len(),
        s[i] != sep,
    ensures
        i < trimmed_end(s, at(sep)).len(),
        trimmed_end(s, at(sep))[i] == s[i],
    decreases s.len(),
{
    if s.last() == sep {
        lemma_trim_keeps(s.drop_last(), sep, i);
    }
}

proof fn lemma_zeros_keep(bytes: Seq<u8>, i: int)
    requires
        0 <= i < bytes.len(),
        bytes[i] != 0,
    ensures
        i < without_zeros(bytes).len(),
        without_zeros(bytes)[i] == bytes[i],
    decreases bytes.len(),
{
    if bytes.last() == 0 {
        lemma_zeros_keep(bytes.drop_last(), i);
    }
}

proof fn lemma_trim_matches_zeros(bytes: Seq<u8>)
    ensures
        trimmed_end(as_chars(bytes), at('\0')) == as_chars(without_zeros(bytes)),
    decreases bytes.len(),
{
    if bytes.len() > 0 {
        assert(as_chars(bytes).last() == bytes.last() as char);
        assert(as_chars(bytes).drop_last() =~= as_chars(bytes.drop_last()));
        lemma_trim_matches_zeros(bytes.drop_last());
    }
}

/// A zero behind a message changes nothing.
pub proof fn law_trailing_zeros_are_ignored(bytes: Seq<u8>, pid: i32)
    ensures
        event_of_bytes(bytes.push(0), pid) == event_of_bytes(bytes, pid),
{
    assert(bytes.push(0).drop_last() =~= bytes);
}

/// However bytes are decoded, the same of them are a message.
proof fn lemma_event_of_decoded(bytes: Seq<u8>, text: Seq<char>, pid: i32)
    requires
        vstd::utf8::valid_utf8(bytes) ==> text == vstd::utf8::decode_utf8(bytes),
        !vstd::utf8::valid_utf8(bytes) ==> text.contains('\u{FFFD}'),
    ensures
        event_of(trimmed_end(text, at('\0')), pid) == event_of_bytes(bytes, pid),
{
    let plain = as_chars(bytes);
    if forall|i: int| 0 <= i < bytes.len() ==> #[trigger] bytes[i] < 0x80 {
        assert forall|i: int| 0 <= i < plain.len() implies '\0' <= #[trigger] plain[i]
            <= '\u{7f}' by {
            assert(plain[i] == bytes[i] as char);
        }
        vstd::utf8::is_ascii_chars_encode_utf8(plain);
        assert(vstd::utf8::encode_utf8(plain) =~= bytes);
        vstd::utf8::encode_utf8_valid_utf8(plain);
        vstd::utf8::encode_utf8_decode_utf8(plain);
        lemma_trim_matches_zeros(bytes);
    } else {
        let k = choose|k: int| 0 <= k < bytes.len() && #[trigger] bytes[k] >= 0x80;
        lemma_zeros_keep(bytes, k);
        assert(as_chars(without_zeros(bytes))[k] == bytes[k] as char);
        if event_of_bytes(bytes, pid) is Some {
            lemma_events_are_ascii(as_chars(without_zeros(bytes)), pid);
        }
        let j = lemma_decoded_keeps_non_ascii(bytes, text);
        lemma_trim_keeps(text, '\0', j);
        if event_of(trimmed_end(text, at('\0')), pid) is Some {
            lemma_events_are_ascii(trimmed_end(text, at('\0')), pid);
        }
    }
}

proof fn lemma_decoded_keeps_non_ascii(bytes: Seq<u8>, text: Seq<char>) -> (j: int)
    requires
        vstd::utf8::valid_utf8(bytes) ==> text == vstd::utf8::decode_utf8(bytes),
        !vstd::utf8::valid_utf8(bytes) ==> text.contains('\u{FFFD}'),
        exists|k: int| 0 <= k < bytes.len() && #[trigger] bytes[k] >= 0x80,
    ensures
        0 <= j < text.len(),
        !('\0' <= text[j] <= '\u{7f}'),
{
    if vstd::utf8::valid_utf8(bytes) {
        if vstd::utf8::is_ascii_chars(text) {
            vstd::utf8::is_ascii_chars_encode_utf8(text);
            vstd::utf8::decode_utf8_encode_utf8(bytes);
            let k = choose|k: int| 0 <= k < bytes.len() && #[trigger] bytes[k] >= 0x80;
            assert(bytes[k] == text[k] as u8);
            assert('\0' <= text[k] <= '\u{7f}');
            assert(false);
        }
        let j = choose|j: int| 0 <= j < text.len() && !('\0' <= #[trigger] text[j] <= '\u{7f}');
        j
    } else {
        text.index_of('\u{FFFD}')
    }
}

/// The event that decoded text from a socket stands for, with the zero characters
/// at its end left out.
pub fn event_for_text(text: &str, pid: i32) -> (r: Option<SchedulerEvent>)
    ensures
        r == event_of(trimmed_end(text@, at('\0')), pid),
{
    scheduler_event_for(trim_end_char(text, '\0'), pid)
}

/// The event that the bytes of one read from a socket stand for: that of the text
/// that they are, and so of their characters one by one.
pub fn event_for_bytes(bytes: &[u8], pid: i32) -> (r: Option<SchedulerEvent>)
    ensures
        r == event_of(trimmed_end(lossy_text(bytes@), at('\0')), pid),
        r == event_of_bytes(bytes@, pid),
{
    let text = utf8_lossy(bytes);
    proof {
        lemma_event_of_decoded(bytes@, text@, pid);
    }
    event_for_text(text.as_str(), pid)
}

/// What can happen to a connection.
pub enum ConnectionEvent {
    /// A read gave these bytes. A read of no bytes is the end of the stream.
    Data(Vec<u8>),
    /// There was nothing to read after all.
    WouldBlock,
    /// Reading failed, or waiting for something to read did.
    Failed,
    /// The agent is shutting down.
    Shutdown,
}

/// What to do about it.
#[derive(Clone, Copy, Debug, PartialEq, Eq, Structural)]
pub enum ConnectionStep {
    /// Go on waiting.
    Wait,
    /// Tell the scheduler, and go on waiting.
    Dispatch(SchedulerEvent),
    /// Give up the connection.
    Close,
}

/// The step that follows an event on a connection of the target `pid`.
pub open spec fn connection_next(event: ConnectionEvent, pid: i32) -> ConnectionStep {
    match event {
        ConnectionEvent::Data(bytes) => if bytes@.len() == 0 {
            ConnectionStep::Close
        } else {
            match event_of_bytes(bytes@, pid) {
                Some(meant) => ConnectionStep::Dispatch(meant),
                None => ConnectionStep::Wait,
            }
        },
        ConnectionEvent::WouldBlock => ConnectionStep::Wait,
        ConnectionEvent::Failed => ConnectionStep::Close,
        ConnectionEvent::Shutdown => ConnectionStep::Close,
    }
}

/// Decides what to do about an event on a connection of the target `pid`.
pub fn connection_step(event: &ConnectionEvent, pid: i32) -> (r: ConnectionStep)
    ensures
        r == connection_next(*event, pid),
{
    match event {
        ConnectionEvent::Data(bytes) => if bytes.len() == 0 {
            ConnectionStep::Close
        } else {
            match event_for_bytes(bytes.as_slice(), pid) {
                Some(meant) => ConnectionStep::Dispatch(meant),
                None => ConnectionStep::Wait,
            }
        },
        ConnectionEvent::WouldBlock => ConnectionStep::Wait,
        ConnectionEvent::Failed => ConnectionStep::Close,
        ConnectionEvent::Shutdown => ConnectionStep::Close,
    }
}

/// Bytes, and `k` zeros behind them.
pub open spec fn padded(bytes: Seq<u8>, k: nat) -> Seq<u8> {
    bytes + Seq::new(k, |i: int| 0u8)
}

/// Whether `bytes` are those of a text, with `k` zeros behind them.
pub open spec fn carries(bytes: Seq<u8>, text: Seq<char>, k: nat) -> bool {
    bytes == padded(vstd::utf8::encode_utf8(text), k)
}

proof fn lemma_padding_is_ignored(bytes: Seq<u8>, k: nat, pid: i32)
    ensures
        event_of_bytes(padded(bytes, k), pid) == event_of_bytes(bytes, pid),
    decreases k,
{
    if k == 0 {
        assert(padded(bytes, 0) =~= bytes);
    } else {
        lemma_padding_is_ignored(bytes, (k - 1) as nat, pid);
        assert(padded(bytes, k) =~= padded(bytes, (k - 1) as nat).push(0));
        law_trailing_zeros_are_ignored(padded(bytes, (k - 1) as nat), pid);
    }
}

proof fn lemma_without_zeros(bytes: Seq<u8>) -> (k: nat)
    ensures
        bytes == padded(without_zeros(bytes), k),
    decreases bytes.len(),
{
    if bytes.len() > 0 && bytes.last() == 0 {
        let k = lemma_without_zeros(bytes.drop_last());
        let kept = without_zeros(bytes);
        assert(bytes =~= bytes.drop_last().push(0));
        assert(padded(kept, k).push(0) =~= padded(kept, k + 1));
        k + 1
    } else {
        assert(bytes =~= padded(bytes, 0));
        0
    }
}

proof fn lemma_messages_carry_over(text: Seq<char>, pid: i32)
    requires
        event_of(text, pid) is Some,
    ensures
        event_of_bytes(vstd::utf8::encode_utf8(text), pid) == event_of(text, pid),
{
    let bytes = vstd::utf8::encode_utf8(text);
    lemma_events_are_ascii(text, pid);
    vstd::utf8::encode_utf8_valid_utf8(text);
    vstd::utf8::encode_utf8_decode_utf8(text);
    lemma_event_of_decoded(bytes, text, pid);
    assert(text.len() > 0 && text.last() != '\0') by {
        reveal_strlit("STARTPYKICOLLECTOR");
        reveal_strlit("STOPPYKICOLLECTOR");
        reveal_strlit("CUPTIProfilingStart");
        reveal_strlit("CUPTIProfilingStop");
        reveal_strlit("CUPTIProfilingWriterOver");
        reveal_strlit("CUPTIProfilingFailed");
    }
}

/// The bytes of a message, and zeros behind them, stand for the event of the message,
/// and no other bytes stand for it.
pub proof fn law_bytes_stand_for_the_message_that_they_are(
    bytes: Seq<u8>,
    event: SchedulerEvent,
    pid: i32,
)
    ensures
        event_of_bytes(bytes, pid) == Some(event) <==> exists|text: Seq<char>, k: nat| #[trigger]
            carries(bytes, text, k) && event_of(text, pid) == Some(event),
{
    if event_of_bytes(bytes, pid) == Some(event) {
        let text = as_chars(without_zeros(bytes));
        let k = lemma_without_zeros(bytes);
        lemma_events_are_ascii(text, pid);
        vstd::utf8::is_ascii_chars_encode_utf8(text);
        let encoded = vstd::utf8::encode_utf8(text);
        assert forall|i: int| 0 <= i < encoded.len() implies encoded[i] == without_zeros(
            bytes,
        )[i] by {
            assert(text[i] == without_zeros(bytes)[i] as char);
        }
        assert(encoded =~= without_zeros(bytes));
        assert(carries(bytes, text, k) && event_of(text, pid) == Some(event));
    }
    if exists|text: Seq<char>, k: nat| #[trigger]
        carries(bytes, text, k) && event_of(text, pid) == Some(event) {
        let (text, k) = choose|text: Seq<char>, k: nat| #[trigger]
            carries(bytes, text, k) && event_of(text, pid) == Some(event);
        lemma_messages_carry_over(text, pid);
        lemma_padding_is_ignored(vstd::utf8::encode_utf8(text), k, pid);
    }
}

/// Every message of the protocol that arrives on a connection is handed to the
/// scheduler, and nothing else is: the step is to dispatch an event exactly where the
/// bytes are those of the message that stands for it, with or without zeros behind
/// them.
pub proof fn law_every_message_is_dispatched(bytes: Vec<u8>, event: SchedulerEvent, pid: i32)
    ensures
        connection_next(ConnectionEvent::Data(bytes), pid) == ConnectionStep::Dispatch(event)
            <==> exists|text: Seq<char>, k: nat| #[trigger]
            carries(bytes@, text, k) && event_of(text, pid) == Some(event),
{
    law_bytes_stand_for_the_message_that_they_are(bytes@, event, pid);
    if bytes@.len() == 0 {
        let none = without_zeros(bytes@);
        assert(as_chars(none).len() == 0);
        if event_of_bytes(bytes@, pid) is Some {
            reveal_strlit("STARTPYKICOLLECTOR");
            reveal_strlit("STOPPYKICOLLECTOR");
            reveal_strlit("CUPTIProfilingStart");
            reveal_strlit("CUPTIProfilingStop");
            reveal_strlit("CUPTIProfilingWriterOver");
            reveal_strlit("CUPTIProfilingFailed");
        }
    }
}

/// A connection is given up at the end of its stream, on a failure or on a shutdown,
/// and at no other time. Only bytes lead to an event.
pub proof fn law_a_connection_is_closed_only_at_its_end(event: ConnectionEvent, pid: i32)
    ensures
        connection_next(event, pid) is Close <==> {
            ||| event matches ConnectionEvent::Data(bytes) && bytes@.len() == 0
            ||| event is Failed
            ||| event is Shutdown
        },
        connection_next(event, pid) is Dispatch ==> event is Data,
{
}

/// What can happen to a listener.
#[derive(Clone, Copy, Debug, PartialEq, Eq, Structural)]
pub enum ListenerEvent {
    /// A client connected.
    Accepted,
    /// A connection could not be accepted.
    AcceptFailed,
    /// The agent is shutting down.
    Shutdown,
}

/// What to do about it.
#[derive(Clone, Copy, Debug, PartialEq, Eq, Structural)]
pub enum ListenerStep {
    /// Serve the connection, and go on listening.
    Serve,
    /// Go on listening.
    Wait,
    /// Stop listening.
    Stop,
}

/// Decides what to do about an event on a listener: only a shutdown ends it.
pub fn listener_step(event: ListenerEvent) -> (r: ListenerStep)
    ensures
        r is Serve <==> event is Accepted,
        r is Wait <==> event is AcceptFailed,
        r is Stop <==> event is Shutdown,
{
    match event {
        ListenerEvent::Accepted => ListenerStep::Serve,
        ListenerEvent::AcceptFailed => ListenerStep::Wait,
        ListenerEvent::Shutdown => ListenerStep::Stop,
    }
}

} // verus!
