use gaimode::proto::{
    build_optimize_frame, build_reset_all_frame, build_reset_process_frame, decode_frame,
    frame_to_command, Commands, Gaiproto, K_OPTIMIZE_PROCESS, K_RESET_ALL, K_RESET_PROCESS,
    MIN_PACKET_SIZE,
};

#[test]
fn encode_produces_exactly_size_bytes() {
    let frame = Gaiproto::new(10, K_OPTIMIZE_PROCESS, vec![0x00, 0x00, 0x04, 0xD2]);
    let bytes = frame.convert_to_bytes();
    assert_eq!(bytes.len(), 10);
    assert_eq!(bytes, vec![0x00, 0x00, 0x00, 0x0A, 0x00, 0x02, 0x00, 0x00, 0x04, 0xD2]);
}

#[test]
fn decode_encode_round_trip() {
    let frame = Gaiproto::new(10, K_RESET_PROCESS, vec![0x01, 0x02, 0x03, 0x04]);
    let bytes = frame.convert_to_bytes();
    let back = Gaiproto::from_bytes(bytes);
    assert_eq!(back.size, 10);
    assert_eq!(back.kind, K_RESET_PROCESS);
    assert_eq!(back.payload, vec![0x01, 0x02, 0x03, 0x04]);
}

#[test]
fn decode_round_trip_empty_payload() {
    let frame = Gaiproto::new(MIN_PACKET_SIZE as u32, K_RESET_ALL, Vec::new());
    let bytes = frame.convert_to_bytes();
    assert_eq!(bytes.len(), MIN_PACKET_SIZE);
    let back = Gaiproto::from_bytes(bytes);
    assert_eq!(back.size, 6);
    assert_eq!(back.kind, K_RESET_ALL);
    assert!(back.payload.is_empty());
}

#[test]
fn decode_padded_listener_buffer() {
    // The listener reads into a fixed 2048-byte buffer; the frame's own size
    // field decides how much of it is the frame.
    let mut buf = vec![0u8; 2048];
    let head = build_optimize_frame(1234).convert_to_bytes();
    buf[..head.len()].copy_from_slice(&head);
    let frame = decode_frame(&buf).expect("padded buffer still decodes");
    assert_eq!(frame.size, 10);
    assert_eq!(frame.kind, K_OPTIMIZE_PROCESS);
    assert_eq!(frame.payload, vec![0x00, 0x00, 0x04, 0xD2]);
    assert_eq!(frame_to_command(&frame), Some(Commands::OptimizeProcess(1234)));
}

#[test]
fn decode_rejects_short_input() {
    assert!(decode_frame(&vec![]).is_none());
    assert!(decode_frame(&vec![0x00, 0x00, 0x00, 0x0A, 0x00]).is_none());
}

#[test]
fn decode_rejects_size_below_header() {
    // size = 5 < 6
    let bytes = vec![0x00, 0x00, 0x00, 0x05, 0x00, 0x02, 0xAA];
    assert!(decode_frame(&bytes).is_none());
}

#[test]
fn decode_rejects_size_past_end() {
    // size = 11 but only 10 bytes present
    let bytes = vec![0x00, 0x00, 0x00, 0x0B, 0x00, 0x02, 0x00, 0x00, 0x04, 0xD2];
    assert!(decode_frame(&bytes).is_none());
}

#[test]
fn unknown_kind_yields_no_command() {
    let frame = Gaiproto::new(6, 0x0099, Vec::new());
    assert_eq!(frame_to_command(&frame), None);
}

#[test]
fn short_pid_payload_yields_no_command() {
    let frame = Gaiproto::new(9, K_OPTIMIZE_PROCESS, vec![0x00, 0x04, 0xD2]);
    assert_eq!(frame_to_command(&frame), None);
    let frame = Gaiproto::new(9, K_RESET_PROCESS, vec![0x00, 0x04, 0xD2]);
    assert_eq!(frame_to_command(&frame), None);
}

#[test]
fn reset_all_ignores_payload_length() {
    let frame = Gaiproto::new(8, K_RESET_ALL, vec![0xFF, 0xFF]);
    assert_eq!(frame_to_command(&frame), Some(Commands::ResetAll));
}

#[test]
fn optimize_frame_carries_pid() {
    let frame = build_optimize_frame(1234);
    assert_eq!(frame.size, 10);
    assert_eq!(frame.kind, K_OPTIMIZE_PROCESS);
    assert_eq!(frame.payload, vec![0x00, 0x00, 0x04, 0xD2]);
}

#[test]
fn reset_process_frame_round_trips_negative_pid() {
    let frame = build_reset_process_frame(-1);
    let bytes = frame.convert_to_bytes();
    let back = decode_frame(&bytes).unwrap();
    assert_eq!(frame_to_command(&back), Some(Commands::ResetProcess(-1)));
}

#[test]
fn reset_all_frame_is_bare_header() {
    let frame = build_reset_all_frame();
    assert_eq!(frame.size, 6);
    assert_eq!(frame.kind, K_RESET_ALL);
    assert!(frame.payload.is_empty());
    let bytes = frame.convert_to_bytes();
    assert_eq!(bytes, vec![0x00, 0x00, 0x00, 0x06, 0x00, 0x06]);
    let back = decode_frame(&bytes).unwrap();
    assert_eq!(frame_to_command(&back), Some(Commands::ResetAll));
}

#[test]
fn every_builder_round_trips_through_the_wire() {
    for pid in [0, 1, 1234, i32::MAX, -5] {
        let bytes = build_optimize_frame(pid).convert_to_bytes();
        assert_eq!(bytes.len(), 10);
        let back = decode_frame(&bytes).unwrap();
        assert_eq!(frame_to_command(&back), Some(Commands::OptimizeProcess(pid)));

        let bytes = build_reset_process_frame(pid).convert_to_bytes();
        let back = decode_frame(&bytes).unwrap();
        assert_eq!(frame_to_command(&back), Some(Commands::ResetProcess(pid)));
    }
}
