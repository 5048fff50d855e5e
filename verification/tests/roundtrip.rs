use multidrop::checksum::crc_valid;
use multidrop::parser::parse_dataframe;
use multidrop::Transport;

#[test]
fn send_exact_words() {
    let t = Transport::new_slave(0x01);
    let out = t.send(&[0xffu8]).expect("payload fits");
    // CRC-16/USB of [0xff] is 0xff00, little-endian on the wire.
    let expected: [u16; 5] = [0x01_10, 0x0001, 0x00ff, 0x0000, 0x00ff];
    assert_eq!(&out[..], &expected[..]);
}

#[test]
fn send_parse_round_trip() {
    let t = Transport::new_slave(0x05);
    let payload: Vec<u8> = vec![1u8, 2, 3, 42, 0, 255];
    let out = t.send(&payload).expect("payload fits");
    let bytes: Vec<u8> = out.iter().map(|w| (*w & 0xff) as u8).collect();
    let (used, frame) = parse_dataframe(&bytes).expect("complete frame");
    assert_eq!(used, bytes.len());
    assert_eq!(frame.address(), 0x05);
    assert_eq!(frame.app_data(), &payload);
    assert!(crc_valid(frame.app_data(), &frame.crc()).is_ok());
}

#[test]
fn send_empty_payload_round_trip() {
    let t = Transport::new_slave(0x01);
    let out = t.send(&[]).expect("empty payload fits");
    assert_eq!(out.len(), 4);
    let bytes: Vec<u8> = out.iter().map(|w| (*w & 0xff) as u8).collect();
    let (used, frame) = parse_dataframe(&bytes).expect("complete frame");
    assert_eq!(used, 4);
    assert_eq!(frame.app_data().len(), 0);
    assert!(crc_valid(frame.app_data(), &frame.crc()).is_ok());
}

#[test]
fn send_rejects_long_payload() {
    let t = Transport::new_slave(0x01);
    let at_limit: Vec<u8> = vec![0u8; 254];
    assert_eq!(t.send(&at_limit).err(), Some(254));
    let over: Vec<u8> = vec![0u8; 300];
    assert_eq!(t.send(&over).err(), Some(300));
    // The largest accepted payload still goes out.
    let fits: Vec<u8> = vec![0u8; 253];
    assert!(t.send(&fits).is_ok());
}

#[test]
fn send_from_master_uses_master_address() {
    let t = Transport::new_master();
    let out = t.send(&[0x07u8]).expect("payload fits");
    let bytes: Vec<u8> = out.iter().map(|w| (*w & 0xff) as u8).collect();
    let (_, frame) = parse_dataframe(&bytes).expect("complete frame");
    assert_eq!(frame.address(), multidrop::MASTER_ADDRESS);
}

#[test]
fn sent_frame_is_acknowledged_by_target() {
    // What one node sends, the addressed node acknowledges: hand the
    // serialized words to a slave whose address bits the frame carries.
    let master = Transport::new_master();
    let out = master.send(&[0xaau8, 0xbb]).expect("payload fits");
    let mut slave = Transport::new_slave(0x01);
    let mut last: Option<[u8; 4]> = None;
    for w in out.iter() {
        last = slave.ingest(*w);
    }
    assert_eq!(last, Some(multidrop::RESPONSE_ACK));
}
