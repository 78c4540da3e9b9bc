use serial_bridge::upload::{
    decode_length_prefix, encode_upload, length_prefix, MonitorEvent, SentinelMonitor,
    UploadError,
};

#[test]
fn prefix_is_little_endian() {
    assert_eq!(length_prefix(0), Ok(vec![0, 0, 0, 0]));
    assert_eq!(length_prefix(0x0102_0304), Ok(vec![0x04, 0x03, 0x02, 0x01]));
    assert_eq!(length_prefix(300), Ok(vec![44, 1, 0, 0]));
    assert_eq!(length_prefix(0xffff_ffff), Ok(vec![0xff, 0xff, 0xff, 0xff]));
}

#[test]
fn prefix_too_large_fails() {
    assert_eq!(length_prefix(0x1_0000_0000), Err(UploadError::TooLarge));
    assert_eq!(length_prefix(usize::MAX), Err(UploadError::TooLarge));
}

#[test]
fn frame_round_trip() {
    let payload: Vec<u8> = (0..300u32).map(|i| (i % 251) as u8).collect();
    let frame = encode_upload(&payload).unwrap();
    assert_eq!(frame.len(), 4 + payload.len());
    assert_eq!(decode_length_prefix(&frame), Some(300));
    assert_eq!(&frame[4..], &payload[..]);
}

#[test]
fn empty_frame() {
    let frame = encode_upload(&Vec::new()).unwrap();
    assert_eq!(frame, vec![0, 0, 0, 0]);
    assert_eq!(decode_length_prefix(&frame), Some(0));
}

#[test]
fn decode_needs_four_bytes() {
    assert_eq!(decode_length_prefix(&[1, 2, 3]), None);
    assert_eq!(decode_length_prefix(&[0xff, 0xff, 0xff, 0xff, 9]), Some(u32::MAX));
}

#[test]
fn two_sentinels_do_not_trigger() {
    let mut m = SentinelMonitor::new();
    let ev = m.feed(&[0x03, 0x03, 0x41]);
    assert_eq!(ev, vec![MonitorEvent::Show(0x41)]);
    assert_eq!(m.count, 0);
}

#[test]
fn three_sentinels_trigger_once() {
    for k in 3..=5 {
        let mut m = SentinelMonitor::new();
        let mut bytes = vec![0x03u8; k];
        bytes.push(b'z');
        let ev = m.feed(&bytes);
        assert_eq!(ev, vec![MonitorEvent::Trigger, MonitorEvent::Show(b'z')]);
    }
}

#[test]
fn trigger_rearms_after_reset() {
    let mut m = SentinelMonitor::new();
    let ev = m.feed(&[0x03, 0x03, 0x03, b'a', 0x03, 0x03, 0x03]);
    assert_eq!(
        ev,
        vec![MonitorEvent::Trigger, MonitorEvent::Show(b'a'), MonitorEvent::Trigger]
    );
    assert_eq!(m.count, 0);
}

#[test]
fn sentinel_run_spans_reads() {
    let mut m = SentinelMonitor::new();
    assert_eq!(m.feed(&[b'x', 0x03]), vec![MonitorEvent::Show(b'x')]);
    assert_eq!(m.count, 1);
    assert_eq!(m.feed(&[0x03]), vec![]);
    assert_eq!(m.feed(&[0x03, b'y']), vec![MonitorEvent::Trigger, MonitorEvent::Show(b'y')]);
}
