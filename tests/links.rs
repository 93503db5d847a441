use lidar_stream::link::udp_payload_bounds;
use lidar_stream::session::{on_read, on_receive, run_receives, ReadOutcome, ReadStep, RecvOutcome, RecvStep};

fn frame(ihl_words: u8, total: usize, len: usize) -> Vec<u8> {
    let mut f = vec![0u8; len];
    f[14] = 0x40 | ihl_words;
    f[16] = (total >> 8) as u8;
    f[17] = (total & 0xFF) as u8;
    f
}

#[test]
fn udp_payload_after_headers() {
    let f = frame(5, 20 + 8 + 100, 14 + 128 + 4);
    assert_eq!(udp_payload_bounds(&f), Some((42, 142)));
}

#[test]
fn udp_payload_with_ip_options() {
    let f = frame(6, 300, 14 + 300);
    assert_eq!(udp_payload_bounds(&f), Some((14 + 24 + 8, 314)));
}

#[test]
fn truncated_frames_have_no_payload() {
    assert_eq!(udp_payload_bounds(&[0u8; 10]), None);
    assert_eq!(udp_payload_bounds(&frame(5, 200, 100)), None);
    assert_eq!(udp_payload_bounds(&frame(5, 24, 100)), None);
}

#[test]
fn timeouts_then_failure_end_once() {
    let mut events = vec![RecvOutcome::TimedOut; 5];
    events.push(RecvOutcome::Failed);
    events.push(RecvOutcome::Datagram);
    let s = run_receives(&events);
    assert_eq!(s.failures, 1);
    assert_eq!(s.consumed, 6);
    assert_eq!(s.datagrams, 0);
    assert_eq!(on_receive(RecvOutcome::TimedOut), RecvStep::Repoll);
    assert_eq!(on_receive(RecvOutcome::Failed), RecvStep::Stop);
    assert_eq!(on_receive(RecvOutcome::Datagram), RecvStep::Decode);
}

#[test]
fn receives_without_failure_run_out() {
    let events = vec![RecvOutcome::Datagram, RecvOutcome::TimedOut, RecvOutcome::Datagram];
    let s = run_receives(&events);
    assert_eq!(s.failures, 0);
    assert_eq!(s.consumed, 3);
    assert_eq!(s.datagrams, 2);
}

#[test]
fn capture_read_steps() {
    assert_eq!(on_read(ReadOutcome::Packet, 0, 3), ReadStep::Process);
    assert_eq!(on_read(ReadOutcome::EndOfData, 0, 3), ReadStep::Finish);
    assert_eq!(on_read(ReadOutcome::Incomplete, 2, 3), ReadStep::Refill);
    assert_eq!(on_read(ReadOutcome::Incomplete, 3, 3), ReadStep::Abort);
    assert_eq!(on_read(ReadOutcome::Failed, 0, 3), ReadStep::Abort);
}
