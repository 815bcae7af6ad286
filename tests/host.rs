use atmosensor::codec::{Command, GenericResponse, PingResponse, ReportNewData, SensorCommand, UtilityCommand};
use atmosensor::framing::encode_frame;
use atmosensor::host::LinkReceiver;

fn report() -> Command {
    Command::Sensor(SensorCommand::ReportNewData(ReportNewData {}))
}

#[test]
fn timed_out_receive_keeps_a_late_packet() {
    let mut rx: LinkReceiver<64> = LinkReceiver::new();
    // Nothing has arrived by the deadline: nothing is returned.
    assert_eq!(rx.next_command(), None);
    // The packet arrives later, in two pieces; the first piece alone is
    // not enough, and is kept.
    let frame = encode_frame(&report().encode());
    rx.accept(&frame[..2]);
    assert_eq!(rx.next_command(), None);
    rx.accept(&frame[2..]);
    assert_eq!(rx.next_command(), Some(report()));
    assert_eq!(rx.next_command(), None);
}

#[test]
fn several_frames_in_one_read_are_all_delivered() {
    let mut rx: LinkReceiver<64> = LinkReceiver::new();
    let ok = Command::Utility(UtilityCommand::GenericResponse(GenericResponse { successful: true }));
    let pong = Command::PingResponse(PingResponse {});
    let mut bytes = encode_frame(&ok.encode());
    bytes.extend(encode_frame(&[0x99, 0x00]));
    bytes.extend(encode_frame(&pong.encode()));
    bytes.extend([0x02, 0x01]);
    rx.accept(&bytes);
    assert_eq!(rx.next_command(), Some(ok));
    assert_eq!(rx.next_command(), Some(pong));
    assert_eq!(rx.next_command(), None);
}

#[test]
fn malformed_frame_is_skipped() {
    let mut rx: LinkReceiver<16> = LinkReceiver::new();
    let mut bytes = vec![0x05, 0x11, 0x00];
    bytes.extend(encode_frame(&report().encode()));
    rx.accept(&bytes);
    assert_eq!(rx.next_command(), Some(report()));
}

#[test]
fn raw_packets_include_unknown_commands() {
    let mut rx: LinkReceiver<16> = LinkReceiver::new();
    let mut bytes = vec![0x05, 0x11, 0x00];
    bytes.extend(encode_frame(&[0x99, 0x00]));
    bytes.extend(encode_frame(&[0xDE, 0x01]));
    rx.accept(&bytes);
    assert_eq!(rx.next_packet(), Some(vec![0x99, 0x00]));
    assert_eq!(rx.next_packet(), Some(vec![0xDE, 0x01]));
    assert_eq!(rx.next_packet(), None);
}
