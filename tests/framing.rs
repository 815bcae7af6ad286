use atmosensor::framing::{encode_frame, FrameError, FramingBuffer};

#[test]
fn frame_stuffs_zero_bytes() {
    assert_eq!(encode_frame(&[0x11, 0x22, 0x00, 0x33]), vec![0x03, 0x11, 0x22, 0x02, 0x33, 0x00]);
    assert_eq!(encode_frame(&[0x00]), vec![0x01, 0x01, 0x00]);
    assert_eq!(encode_frame(&[0xAA, 0x02, 0x01]), vec![0x04, 0xAA, 0x02, 0x01, 0x00]);
}

#[test]
fn framing_round_trip_with_delimiter_in_payload() {
    for payload in [vec![0x00u8], vec![0x00, 0x00, 0x00], vec![0x01, 0x00, 0x01, 0xF4], vec![0xDE, 0x00]] {
        let frame = encode_frame(&payload);
        assert!(frame[..frame.len() - 1].iter().all(|b| *b != 0));
        let mut fb: FramingBuffer<64> = FramingBuffer::new();
        assert_eq!(fb.write_bytes(&frame), frame.len());
        assert!(fb.has_packet());
        assert_eq!(fb.read_packet(), Ok(payload));
        assert_eq!(fb.read_packet(), Err(FrameError::NoPacket));
    }
}

#[test]
fn long_payload_round_trip() {
    let payload: Vec<u8> = (0..600u32).map(|i| (i % 7) as u8).collect();
    let frame = encode_frame(&payload);
    let mut fb: FramingBuffer<1024> = FramingBuffer::new();
    assert_eq!(fb.write_bytes(&frame), frame.len());
    assert_eq!(fb.read_packet(), Ok(payload));
}

#[test]
fn no_packet_before_a_delimiter() {
    let mut fb: FramingBuffer<16> = FramingBuffer::new();
    assert_eq!(fb.read_packet(), Err(FrameError::NoPacket));
    assert_eq!(fb.write_bytes(&[0x03, 0x11]), 2);
    assert_eq!(fb.read_packet(), Err(FrameError::NoPacket));
    assert_eq!(fb.write_bytes(&[0x22, 0x00]), 2);
    assert_eq!(fb.read_packet(), Ok(vec![0x11, 0x22]));
}

#[test]
fn idle_delimiters_are_skipped() {
    let mut fb: FramingBuffer<16> = FramingBuffer::new();
    assert_eq!(fb.write_bytes(&[0x00, 0x00, 0x00]), 3);
    assert_eq!(fb.read_packet(), Err(FrameError::NoPacket));
}

#[test]
fn malformed_packet_is_reported_and_dropped() {
    let mut fb: FramingBuffer<16> = FramingBuffer::new();
    assert_eq!(fb.write_bytes(&[0x05, 0x11, 0x00]), 3);
    assert_eq!(fb.read_packet(), Err(FrameError::Malformed));
    assert_eq!(fb.read_packet(), Err(FrameError::NoPacket));
    let frame = encode_frame(&[0x42]);
    fb.write_bytes(&frame);
    assert_eq!(fb.read_packet(), Ok(vec![0x42]));
}

#[test]
fn at_most_one_packet_is_held() {
    let mut stream = encode_frame(&[0x01]);
    stream.extend(encode_frame(&[0x02, 0x00]));
    let first = encode_frame(&[0x01]).len();
    let mut fb: FramingBuffer<16> = FramingBuffer::new();
    assert_eq!(fb.write_bytes(&stream), first);
    assert_eq!(fb.write_bytes(&stream[first..]), 0);
    assert_eq!(fb.read_packet(), Ok(vec![0x01]));
    assert_eq!(fb.write_bytes(&stream[first..]), stream.len() - first);
    assert_eq!(fb.read_packet(), Ok(vec![0x02, 0x00]));
}

#[test]
fn overlong_packet_is_discarded_up_to_its_delimiter() {
    let mut fb: FramingBuffer<4> = FramingBuffer::new();
    assert_eq!(fb.write_bytes(&[0x07, 1, 2, 3, 4, 5, 6, 0x00]), 8);
    assert_eq!(fb.read_packet(), Err(FrameError::NoPacket));
    let frame = encode_frame(&[0x09, 0x08]);
    assert_eq!(fb.write_bytes(&frame), frame.len());
    assert_eq!(fb.read_packet(), Ok(vec![0x09, 0x08]));
}

#[test]
fn packet_of_exactly_the_capacity_fits() {
    let mut fb: FramingBuffer<4> = FramingBuffer::new();
    let frame = encode_frame(&[1, 2, 3]);
    assert_eq!(frame.len(), 5);
    assert_eq!(fb.write_bytes(&frame), 5);
    assert_eq!(fb.read_packet(), Ok(vec![1, 2, 3]));
}
