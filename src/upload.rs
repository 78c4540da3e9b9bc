use vstd::prelude::*;

verus! {

/// The byte that the device repeats to ask for the file.
pub const SENTINEL: u8 = 0x03;

/// How many consecutive sentinel bytes make a request.
pub const SENTINEL_RUN: u8 = 3;

/// The largest payload whose length fits the four-byte prefix.
pub const MAX_PAYLOAD: u64 = 0xffff_ffff;

#[derive(Debug, Clone, Copy, PartialEq, Eq, Structural)]
pub enum UploadError {
    /// The payload is longer than a 32-bit length can state.
    TooLarge,
}

/// The four little-endian bytes of `n`, least significant first.
pub open spec fn le_bytes(n: nat) -> Seq<u8> {
    seq![
        (n % 256) as u8,
        ((n / 256) % 256) as u8,
        ((n / 256 / 256) % 256) as u8,
        ((n / 256 / 256 / 256) % 256) as u8,
    ]
}

/// The number that four little-endian bytes stand for.
pub open spec fn le_value(b: Seq<u8>) -> nat {
    (b[0] as nat) + 256 * ((b[1] as nat) + 256 * ((b[2] as nat) + 256 * (b[3] as nat)))
}

/// The bytes sent for a payload: its length, then the payload itself.
pub open spec fn upload_frame(payload: Seq<u8>) -> Seq<u8> {
    le_bytes(payload.len()) + payload
}

/// The length prefix of a payload of `len` bytes, or `TooLarge` when `len`
/// does not fit in 32 bits.
pub fn length_prefix(len: usize) -> (r: Result<Vec<u8>, UploadError>)
    ensures
        match r {
            Ok(p) => len <= MAX_PAYLOAD && p@ == le_bytes(len as nat),
            Err(e) => len > MAX_PAYLOAD && e == UploadError::TooLarge,
        },
{
    if len as u64 > MAX_PAYLOAD {
        return Err(UploadError::TooLarge);
    }
    let n: u64 = len as u64;
    let q1: u64 = n / 256;
    let q2: u64 = q1 / 256;
    let q3: u64 = q2 / 256;
    let mut p: Vec<u8> = Vec::new();
    p.push((n % 256) as u8);
    p.push((q1 % 256) as u8);
    p.push((q2 % 256) as u8);
    p.push((q3 % 256) as u8);
    assert(p@ =~= le_bytes(len as nat));
    Ok(p)
}

/// The whole frame of an upload: four length bytes, then the payload.
pub fn encode_upload(payload: &Vec<u8>) -> (r: Result<Vec<u8>, UploadError>)
    ensures
        match r {
            Ok(frame) => payload.len() <= MAX_PAYLOAD && frame@ == upload_frame(payload@),
            Err(e) => payload.len() > MAX_PAYLOAD && e == UploadError::TooLarge,
        },
{
    let mut frame = match length_prefix(payload.len()) {
        Ok(p) => p,
        Err(e) => return Err(e),
    };
    let ghost prefix = frame@;
    let mut i: usize = 0;
    while i < payload.len()
        invariant
            i <= payload.len(),
            frame@ == prefix + payload@.take(i as int),
        decreases payload.len() - i,
    {
        frame.push(payload[i]);
        i = i + 1;
        assert(frame@ =~= prefix + payload@.take(i as int));
    }
    assert(payload@.take(i as int) =~= payload@);
    Ok(frame)
}

/// Reads the payload length from the first four bytes of a frame; `None`
/// when fewer than four bytes are given.
pub fn decode_length_prefix(frame: &[u8]) -> (r: Option<u32>)
    ensures
        match r {
            Some(n) => frame@.len() >= 4 && n as nat == le_value(frame@),
            None => frame@.len() < 4,
        },
{
    if frame.len() < 4 {
        return None;
    }
    let b0: u32 = frame[0] as u32;
    let b1: u32 = frame[1] as u32;
    let b2: u32 = frame[2] as u32;
    let b3: u32 = frame[3] as u32;
    Some(b0 + 256 * (b1 + 256 * (b2 + 256 * b3)))
}

/// Every length that fits in 32 bits comes back from its four prefix
/// bytes, and a frame is those four bytes followed by the payload.
pub proof fn lemma_upload_round_trip(payload: Seq<u8>)
    requires
        payload.len() <= MAX_PAYLOAD,
    ensures
        upload_frame(payload).len() == 4 + payload.len(),
        le_value(upload_frame(payload)) == payload.len(),
        upload_frame(payload).skip(4) == payload,
{
    let n = payload.len();
    let f = upload_frame(payload);
    assert(f[0] == le_bytes(n)[0]);
    assert(f[1] == le_bytes(n)[1]);
    assert(f[2] == le_bytes(n)[2]);
    assert(f[3] == le_bytes(n)[3]);
    assert(n / 256 / 256 / 256 < 256);
    assert(f.skip(4) =~= payload);
}

/// What the monitor makes of inbound bytes, in order.
#[derive(Debug, Clone, Copy, PartialEq, Eq, Structural)]
pub enum MonitorEvent {
    /// Render this byte on the screen.
    Show(u8),
    /// A full run of sentinel bytes was seen: send the file now.
    Trigger,
}

/// The run count after one inbound byte, and the events that it makes.
pub open spec fn sentinel_step(count: nat, b: u8) -> (nat, Seq<MonitorEvent>) {
    if b == SENTINEL {
        if count + 1 >= SENTINEL_RUN {
            (0, seq![MonitorEvent::Trigger])
        } else {
            (count + 1, Seq::empty())
        }
    } else {
        (0, seq![MonitorEvent::Show(b)])
    }
}

/// The run count after the bytes of `s`, starting from `count`.
pub open spec fn monitor_count(count: nat, s: Seq<u8>) -> nat
    decreases s.len(),
{
    if s.len() == 0 {
        count
    } else {
        sentinel_step(monitor_count(count, s.drop_last()), s.last()).0
    }
}

/// The events made by the bytes of `s`, starting from `count`.
pub open spec fn monitor_events(count: nat, s: Seq<u8>) -> Seq<MonitorEvent>
    decreases s.len(),
{
    if s.len() == 0 {
        Seq::empty()
    } else {
        monitor_events(count, s.drop_last()) + sentinel_step(
            monitor_count(count, s.drop_last()),
            s.last(),
        ).1
    }
}

/// Every byte rendered as it is, with no sentinel handling.
pub open spec fn shown(s: Seq<u8>) -> Seq<MonitorEvent> {
    s.map_values(|b: u8| MonitorEvent::Show(b))
}

/// `n` sentinel bytes in a row.
pub open spec fn sentinels(n: nat) -> Seq<u8> {
    Seq::new(n, |i: int| SENTINEL)
}

/// Watches the device's output for runs of sentinel bytes; the count of
/// the current run persists from one read to the next.
#[derive(Debug, Clone, Copy, PartialEq, Eq, Structural)]
pub struct SentinelMonitor {
    pub count: u8,
}

impl SentinelMonitor {
    pub open spec fn wf(&self) -> bool {
        self.count < SENTINEL_RUN
    }

    pub fn new() -> (r: SentinelMonitor)
        ensures
            r.count == 0,
            r.wf(),
    {
        SentinelMonitor { count: 0 }
    }

    /// Scans one chunk of inbound bytes: sentinel bytes are kept off the
    /// screen, others are shown, and each completed run becomes a trigger
    /// in its place in the stream.
    pub fn feed(&mut self, bytes: &[u8]) -> (events: Vec<MonitorEvent>)
        requires
            old(self).wf(),
        ensures
            final(self).wf(),
            final(self).count == monitor_count(old(self).count as nat, bytes@),
            events@ == monitor_events(old(self).count as nat, bytes@),
    {
        let ghost start = self.count as nat;
        let mut events: Vec<MonitorEvent> = Vec::new();
        let mut i: usize = 0;
        while i < bytes.len()
            invariant
                i <= bytes@.len(),
                self.wf(),
                self.count == monitor_count(start, bytes@.take(i as int)),
                events@ == monitor_events(start, bytes@.take(i as int)),
            decreases bytes@.len() - i,
        {
            let b = bytes[i];
            let ghost before = bytes@.take(i as int);
            assert(bytes@.take(i + 1).drop_last() =~= before);
            if b == SENTINEL {
                if self.count + 1 >= SENTINEL_RUN {
                    self.count = 0;
                    events.push(MonitorEvent::Trigger);
                } else {
                    self.count = self.count + 1;
                }
            } else {
                self.count = 0;
                events.push(MonitorEvent::Show(b));
            }
            i = i + 1;
            assert(events@ =~= monitor_events(start, bytes@.take(i as int)));
        }
        assert(bytes@.take(i as int) =~= bytes@);
        events
    }
}

/// Scanning two pieces in turn is scanning them joined.
pub proof fn lemma_monitor_append(count: nat, a: Seq<u8>, b: Seq<u8>)
    ensures
        monitor_count(count, a + b) == monitor_count(monitor_count(count, a), b),
        monitor_events(count, a + b) == monitor_events(count, a) + monitor_events(
            monitor_count(count, a),
            b,
        ),
    decreases b.len(),
{
    if b.len() == 0 {
        assert(a + b =~= a);
        assert(monitor_events(count, a) + Seq::<MonitorEvent>::empty() =~= monitor_events(
            count,
            a,
        ));
    } else {
        lemma_monitor_append(count, a, b.drop_last());
        assert((a + b).drop_last() =~= a + b.drop_last());
        assert((a + b).last() == b.last());
        let c = monitor_count(count, a);
        let tail = sentinel_step(monitor_count(c, b.drop_last()), b.last()).1;
        assert(monitor_events(count, a) + monitor_events(c, b.drop_last()) + tail
            =~= monitor_events(count, a) + (monitor_events(c, b.drop_last()) + tail));
    }
}

/// A stream that is empty or ends in a byte other than the sentinel leaves
/// no run open.
pub open spec fn run_closed(s: Seq<u8>) -> bool {
    s.len() == 0 || s.last() != SENTINEL
}

proof fn lemma_closed_count(s: Seq<u8>)
    requires
        run_closed(s),
    ensures
        monitor_count(0, s) == 0,
{
}

/// Two sentinel bytes followed by another byte never ask for the file:
/// the other byte is shown and the run starts over.
pub proof fn lemma_two_sentinels_no_trigger(p: Seq<u8>, x: u8)
    requires
        run_closed(p),
        x != SENTINEL,
    ensures
        monitor_events(0, p + seq![SENTINEL, SENTINEL, x]) == monitor_events(0, p) + seq![
            MonitorEvent::Show(x),
        ],
        monitor_count(0, p + seq![SENTINEL, SENTINEL, x]) == 0,
{
    lemma_closed_count(p);
    let t = seq![SENTINEL, SENTINEL, x];
    lemma_monitor_append(0, p, t);
    reveal_with_fuel(monitor_events, 4);
    reveal_with_fuel(monitor_count, 4);
    assert(t.drop_last() =~= seq![SENTINEL, SENTINEL]);
    assert(t.drop_last().drop_last() =~= seq![SENTINEL]);
    assert(t.drop_last().drop_last().drop_last() =~= Seq::<u8>::empty());
    assert(monitor_events(0, t) =~= seq![MonitorEvent::Show(x)]);
}

/// Three, four or five sentinel bytes in a row ask for the file exactly
/// once, and leave the count at what the bytes beyond the third make.
pub proof fn lemma_sentinel_run_triggers_once(p: Seq<u8>, k: nat)
    requires
        run_closed(p),
        3 <= k <= 5,
    ensures
        monitor_events(0, p + sentinels(k)) == monitor_events(0, p) + seq![
            MonitorEvent::Trigger,
        ],
        monitor_count(0, p + sentinels(k)) == k - 3,
{
    lemma_closed_count(p);
    lemma_monitor_append(0, p, sentinels(k));
    lemma_sentinels_from_zero(k);
}

proof fn lemma_sentinels_from_zero(k: nat)
    requires
        k <= 5,
    ensures
        monitor_count(0, sentinels(k)) == k % 3,
        monitor_events(0, sentinels(k)) == if k >= 3 {
            seq![MonitorEvent::Trigger]
        } else {
            Seq::<MonitorEvent>::empty()
        },
    decreases k,
{
    if k > 0 {
        lemma_sentinels_from_zero((k - 1) as nat);
        assert(sentinels(k).drop_last() =~= sentinels((k - 1) as nat));
        assert(sentinels(k).last() == SENTINEL);
        if k == 3 {
            assert(Seq::<MonitorEvent>::empty() + seq![MonitorEvent::Trigger] =~= seq![
                MonitorEvent::Trigger,
            ]);
        }
        if k > 3 {
            assert(seq![MonitorEvent::Trigger] + Seq::<MonitorEvent>::empty() =~= seq![
                MonitorEvent::Trigger,
            ]);
        }
    }
}

/// After a run of three has fired, the count is back at zero, so three
/// more sentinel bytes later, after any closed stretch, fire again.
pub proof fn lemma_trigger_rearms(p: Seq<u8>, m: Seq<u8>)
    requires
        run_closed(p),
        run_closed(m),
    ensures
        monitor_events(0, p + sentinels(3) + m + sentinels(3)) == monitor_events(0, p) + seq![
            MonitorEvent::Trigger,
        ] + monitor_events(0, m) + seq![MonitorEvent::Trigger],
        monitor_count(0, p + sentinels(3) + m + sentinels(3)) == 0,
{
    lemma_sentinel_run_triggers_once(p, 3);
    let a = p + sentinels(3);
    lemma_monitor_append(0, a, m);
    lemma_closed_count(m);
    lemma_sentinels_from_zero(3);
    lemma_monitor_append(0, a + m, sentinels(3));
}

} // verus!
