use vstd::prelude::*;

use crate::escape::{escape_state_machine, escape_step, EscapeState, NextStep};
use crate::upload::{monitor_count, monitor_events, shown, MonitorEvent, SentinelMonitor};

verus! {

/// Size of the buffer that one read of the console or of the channel fills.
pub const CHUNK_LEN: usize = 512;

/// What one read of the channel gave.
#[derive(Debug, Clone, PartialEq, Eq)]
pub enum ReadOutcome {
    /// Bytes from the device (possibly none).
    Data(Vec<u8>),
    /// Nothing arrived within the read timeout.
    Timeout,
    /// The device went away.
    Broken,
    /// Any other I/O fault.
    Failed,
}

/// What one non-blocking poll of the input queue gave.
#[derive(Debug, Clone, PartialEq, Eq)]
pub enum QueueOutcome {
    /// One chunk read from the console, never split.
    Chunk(Vec<u8>),
    /// Nothing is waiting.
    Empty,
    /// The console reader has stopped.
    Disconnected,
}

/// What one write to the channel gave.
#[derive(Debug, Clone, Copy, PartialEq, Eq, Structural)]
pub enum WriteOutcome {
    Written,
    Timeout,
    Failed,
}

/// Why a session ended.
#[derive(Debug, Clone, Copy, PartialEq, Eq, Structural)]
pub enum StopReason {
    /// The user typed the escape sequence.
    UserExit,
    /// The device disconnected.
    Disconnected,
    /// The channel failed in some other way.
    ChannelFault,
    /// The console reader stopped.
    InputClosed,
}

/// What the loop does with what the channel gave.
#[derive(Debug, Clone, PartialEq, Eq)]
pub enum Inbound {
    /// Carry out these events in order (show a byte, or send the file);
    /// with `restart`, begin the next iteration at once afterwards.
    Render { events: Vec<MonitorEvent>, restart: bool },
    /// Nothing to show: go on to the input queue.
    Proceed,
    /// End the session.
    Stop(StopReason),
}

/// What the loop does with what the input queue gave.
#[derive(Debug, Clone, PartialEq, Eq)]
pub enum Outbound {
    /// Write these bytes to the channel.
    Write(Vec<u8>),
    /// Nothing to write: begin the next iteration.
    Continue,
    /// End the session.
    Stop(StopReason),
}

pub open spec fn has_trigger(events: Seq<MonitorEvent>) -> bool {
    exists|i: int| 0 <= i < events.len() && events[i] == MonitorEvent::Trigger
}

/// The state of one session of the bridge, owned by its loop.
#[derive(Debug, Clone, Copy, PartialEq, Eq, Structural)]
pub struct Bridge {
    pub escape: EscapeState,
    pub monitor: SentinelMonitor,
    /// Whether the device may ask for a file with a run of sentinel bytes.
    pub upload: bool,
}

/// The decision on a failed or successful write to the channel: a timeout
/// is no error, any other failure ends the session.
pub fn write_outcome_step(outcome: WriteOutcome) -> (r: NextStep)
    ensures
        r == (if outcome == WriteOutcome::Failed {
            NextStep::LoopBreak
        } else {
            NextStep::Proceed
        }),
{
    match outcome {
        WriteOutcome::Failed => NextStep::LoopBreak,
        _ => NextStep::Proceed,
    }
}

fn contains_trigger(events: &Vec<MonitorEvent>) -> (r: bool)
    ensures
        r == has_trigger(events@),
{
    let mut i: usize = 0;
    while i < events.len()
        invariant
            i <= events@.len(),
            forall|j: int| 0 <= j < i ==> events@[j] != MonitorEvent::Trigger,
        decreases events@.len() - i,
    {
        if events[i] == MonitorEvent::Trigger {
            return true;
        }
        i = i + 1;
    }
    false
}

fn show_all(bytes: &[u8]) -> (events: Vec<MonitorEvent>)
    ensures
        events@ == shown(bytes@),
{
    let mut events: Vec<MonitorEvent> = Vec::new();
    let mut i: usize = 0;
    while i < bytes.len()
        invariant
            i <= bytes@.len(),
            events@ == shown(bytes@.take(i as int)),
        decreases bytes@.len() - i,
    {
        events.push(MonitorEvent::Show(bytes[i]));
        i = i + 1;
        assert(events@ =~= shown(bytes@.take(i as int)));
    }
    assert(bytes@.take(i as int) =~= bytes@);
    events
}

impl Bridge {
    pub open spec fn wf(&self) -> bool {
        self.monitor.wf()
    }

    /// A fresh session: waiting for a line break, no sentinel run open.
    pub fn new(upload: bool) -> (r: Bridge)
        ensures
            r.wf(),
            r.escape == EscapeState::WaitForEnter,
            r.monitor.count == 0,
            r.upload == upload,
    {
        Bridge { escape: EscapeState::WaitForEnter, monitor: SentinelMonitor::new(), upload }
    }

    /// The inbound phase: what to render from a read of the channel, and
    /// whether the session ends. With upload on, sentinel bytes are kept
    /// off the screen and counted across reads; otherwise bytes are shown
    /// as they came.
    pub fn on_read(&mut self, outcome: ReadOutcome) -> (r: Inbound)
        requires
            old(self).wf(),
        ensures
            final(self).wf(),
            final(self).escape == old(self).escape,
            final(self).upload == old(self).upload,
            match outcome {
                ReadOutcome::Data(bytes) => if bytes@.len() == 0 {
                    r == Inbound::Proceed && final(self).monitor == old(self).monitor
                } else if old(self).upload {
                    r is Render && r->events@ == monitor_events(
                        old(self).monitor.count as nat,
                        bytes@,
                    ) && r->restart == has_trigger(r->events@) && final(self).monitor.count
                        == monitor_count(old(self).monitor.count as nat, bytes@)
                } else {
                    r is Render && r->events@ == shown(bytes@) && !r->restart
                        && final(self).monitor == old(self).monitor
                },
                ReadOutcome::Timeout => r == Inbound::Proceed && final(self).monitor
                    == old(self).monitor,
                ReadOutcome::Broken => r == Inbound::Stop(StopReason::Disconnected)
                    && final(self).monitor == old(self).monitor,
                ReadOutcome::Failed => r == Inbound::Stop(StopReason::ChannelFault)
                    && final(self).monitor == old(self).monitor,
            },
    {
        match outcome {
            ReadOutcome::Data(bytes) => {
                if bytes.len() == 0 {
                    Inbound::Proceed
                } else if self.upload {
                    let events = self.monitor.feed(bytes.as_slice());
                    let restart = contains_trigger(&events);
                    Inbound::Render { events, restart }
                } else {
                    let events = show_all(bytes.as_slice());
                    proof {
                        assert forall|i: int| 0 <= i < events@.len() implies events@[i]
                            != MonitorEvent::Trigger by {}
                    }
                    Inbound::Render { events, restart: false }
                }
            },
            ReadOutcome::Timeout => Inbound::Proceed,
            ReadOutcome::Broken => Inbound::Stop(StopReason::Disconnected),
            ReadOutcome::Failed => Inbound::Stop(StopReason::ChannelFault),
        }
    }

    /// The outbound phase: what to write to the channel from a poll of the
    /// input queue. A chunk of one byte goes through the escape state
    /// machine; longer chunks are forwarded as they are.
    pub fn on_input(&mut self, poll: QueueOutcome) -> (r: Outbound)
        requires
            old(self).wf(),
        ensures
            final(self).wf(),
            final(self).monitor == old(self).monitor,
            final(self).upload == old(self).upload,
            match poll {
                QueueOutcome::Chunk(data) => if data@.len() == 1 {
                    final(self).escape == escape_step(old(self).escape, data@[0]).0 && r
                        == match escape_step(old(self).escape, data@[0]).1 {
                        NextStep::LoopBreak => Outbound::Stop(StopReason::UserExit),
                        NextStep::LoopContinue => Outbound::Continue,
                        NextStep::Proceed => Outbound::Write(data),
                    }
                } else {
                    final(self).escape == old(self).escape && r == Outbound::Write(data)
                },
                QueueOutcome::Empty => r == Outbound::Continue && final(self).escape == old(
                    self,
                ).escape,
                QueueOutcome::Disconnected => r == Outbound::Stop(StopReason::InputClosed)
                    && final(self).escape == old(self).escape,
            },
    {
        match poll {
            QueueOutcome::Chunk(data) => {
                if data.len() == 1 {
                    let b = data[0];
                    match escape_state_machine(&b, &mut self.escape) {
                        NextStep::LoopBreak => Outbound::Stop(StopReason::UserExit),
                        NextStep::LoopContinue => Outbound::Continue,
                        NextStep::Proceed => Outbound::Write(data),
                    }
                } else {
                    Outbound::Write(data)
                }
            },
            QueueOutcome::Empty => Outbound::Continue,
            QueueOutcome::Disconnected => Outbound::Stop(StopReason::InputClosed),
        }
    }
}

} // verus!
