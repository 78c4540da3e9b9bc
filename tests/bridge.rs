use serial_bridge::bridge::{
    write_outcome_step, Bridge, Inbound, Outbound, QueueOutcome, ReadOutcome, StopReason,
    WriteOutcome,
};
use serial_bridge::escape::{EscapeState, NextStep};
use serial_bridge::upload::MonitorEvent;

#[test]
fn enter_tilde_dot_chunks_end_session() {
    let mut b = Bridge::new(false);
    let mut written: Vec<Vec<u8>> = Vec::new();
    let mut stopped = None;
    for chunk in [b"\r".to_vec(), b"~".to_vec(), b".".to_vec()] {
        match b.on_input(QueueOutcome::Chunk(chunk)) {
            Outbound::Write(d) => written.push(d),
            Outbound::Continue => {}
            Outbound::Stop(r) => {
                stopped = Some(r);
                break;
            }
        }
    }
    assert_eq!(written, vec![b"\r".to_vec()]);
    assert_eq!(stopped, Some(StopReason::UserExit));
}

#[test]
fn timeout_proceeds_to_input() {
    let mut b = Bridge::new(true);
    assert_eq!(b.on_read(ReadOutcome::Timeout), Inbound::Proceed);
    assert_eq!(b.on_input(QueueOutcome::Chunk(b"hi".to_vec())), Outbound::Write(b"hi".to_vec()));
}

#[test]
fn upload_sentinels_suppressed_and_trigger_once() {
    let mut b = Bridge::new(true);
    let r = b.on_read(ReadOutcome::Data(vec![0x41, 0x03, 0x03, 0x03, 0x42]));
    assert_eq!(
        r,
        Inbound::Render {
            events: vec![
                MonitorEvent::Show(0x41),
                MonitorEvent::Trigger,
                MonitorEvent::Show(0x42)
            ],
            restart: true,
        }
    );
    assert_eq!(b.monitor.count, 0);
}

#[test]
fn without_upload_sentinels_are_shown() {
    let mut b = Bridge::new(false);
    let r = b.on_read(ReadOutcome::Data(vec![0x03, 0x03, 0x03]));
    assert_eq!(
        r,
        Inbound::Render {
            events: vec![MonitorEvent::Show(3), MonitorEvent::Show(3), MonitorEvent::Show(3)],
            restart: false,
        }
    );
}

#[test]
fn empty_read_renders_nothing() {
    let mut b = Bridge::new(false);
    assert_eq!(b.on_read(ReadOutcome::Data(Vec::new())), Inbound::Proceed);
}

#[test]
fn channel_failures_stop() {
    let mut b = Bridge::new(false);
    assert_eq!(b.on_read(ReadOutcome::Broken), Inbound::Stop(StopReason::Disconnected));
    assert_eq!(b.on_read(ReadOutcome::Failed), Inbound::Stop(StopReason::ChannelFault));
}

#[test]
fn queue_empty_and_disconnected() {
    let mut b = Bridge::new(false);
    assert_eq!(b.on_input(QueueOutcome::Empty), Outbound::Continue);
    assert_eq!(b.on_input(QueueOutcome::Disconnected), Outbound::Stop(StopReason::InputClosed));
}

#[test]
fn multi_byte_chunk_bypasses_escape() {
    let mut b = Bridge::new(false);
    assert_eq!(b.on_input(QueueOutcome::Chunk(b"\r".to_vec())), Outbound::Write(b"\r".to_vec()));
    assert_eq!(b.on_input(QueueOutcome::Chunk(b"~.".to_vec())), Outbound::Write(b"~.".to_vec()));
    assert_eq!(b.escape, EscapeState::WaitForEscapeChar);
}

#[test]
fn write_timeout_is_not_fatal() {
    assert_eq!(write_outcome_step(WriteOutcome::Written), NextStep::Proceed);
    assert_eq!(write_outcome_step(WriteOutcome::Timeout), NextStep::Proceed);
    assert_eq!(write_outcome_step(WriteOutcome::Failed), NextStep::LoopBreak);
}
