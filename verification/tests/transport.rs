use multidrop::Transport;
use multidrop::RESPONSE_ACK;
use multidrop::RESPONSE_NACK;

#[test]
fn test_is_address_pass() {
    let t = Transport::new_slave(0x1);
    let address_byte: u16 = 0x01_10;

    assert_eq!(t.is_address_byte(address_byte), true);
}

#[test]
fn test_is_address_fail() {
    let t = Transport::new_slave(0x1);
    let address_byte: u16 = 0;

    assert_eq!(t.is_address_byte(address_byte), false);
}

#[test]
fn test_ingest() {
    let mut transport = Transport::new_slave(0x1);
    let words: [u16; 5] = [0x01_10, 0x1, 0xff, 0x00, 0xff];
    for byte in words.iter() {
        match transport.ingest(*byte) {
            Some(resp) => {
                assert_eq!(resp, RESPONSE_ACK);
                return;
            }
            _ => (),
        }
    }
    println!("frame is some? {}", transport.parse_data_buffer().is_some());
    panic!("did not receive ACK with good CRC");
}

#[test]
fn test_ingest_master() {
    let mut transport = Transport::new_master();
    let words: [u16; 5] = [0x01_10, 0x1, 0xff, 0x00, 0xff];
    for byte in words.iter() {
        match transport.ingest(*byte) {
            None => (),
            _ => panic!("got response on master ingest"),
        }
    }
}

#[test]
fn ingest_nack_on_bad_crc() {
    let mut transport = Transport::new_slave(0x1);
    let words: [u16; 5] = [0x01_10, 0x1, 0xff, 0x12, 0x34];
    let mut last: Option<[u8; 4]> = None;
    for byte in words.iter() {
        last = transport.ingest(*byte);
    }
    assert_eq!(last, Some(RESPONSE_NACK));
}

#[test]
fn ingest_short_frame_is_silent() {
    let mut transport = Transport::new_slave(0x1);
    let words: [u16; 4] = [0x01_10, 0x1, 0xff, 0x00];
    for byte in words.iter() {
        assert_eq!(transport.ingest(*byte), None);
    }
    // The partial frame must still be buffered: the missing checksum byte
    // completes it and draws the acknowledgement.
    assert_eq!(transport.ingest(0xff), Some(RESPONSE_ACK));
}

#[test]
fn ingest_group_address_match() {
    // A node answers any received address whose bits are a superset of its
    // own: address value 0x3 carries the 0x1 bit.
    let mut transport = Transport::new_slave(0x1);
    let words: [u16; 5] = [0x01_30, 0x1, 0xff, 0x00, 0xff];
    let mut last: Option<[u8; 4]> = None;
    for byte in words.iter() {
        last = transport.ingest(*byte);
    }
    assert_eq!(last, Some(RESPONSE_ACK));
}

#[test]
fn ingest_foreign_address_ignored() {
    // Address value 0x1 does not carry the 0x2 bit and is not broadcast.
    let mut transport = Transport::new_slave(0x2);
    let words: [u16; 5] = [0x01_10, 0x1, 0xff, 0x00, 0xff];
    for byte in words.iter() {
        assert_eq!(transport.ingest(*byte), None);
    }
    // Nothing of the foreign frame was retained.
    assert!(transport.parse_data_buffer().is_none());
    // A frame for this node is then received cleanly.
    let own_words: [u16; 5] = [0x01_20, 0x1, 0xff, 0x00, 0xff];
    let mut last: Option<[u8; 4]> = None;
    for byte in own_words.iter() {
        last = transport.ingest(*byte);
    }
    assert_eq!(last, Some(RESPONSE_ACK));
}

#[test]
fn assemble_after_ack() {
    let mut transport = Transport::new_slave(0x1);
    let words: [u16; 5] = [0x01_10, 0x1, 0xff, 0x00, 0xff];
    let mut last: Option<[u8; 4]> = None;
    for byte in words.iter() {
        last = transport.ingest(*byte);
    }
    assert_eq!(last, Some(RESPONSE_ACK));
    let frame = transport.parse_data_buffer().expect("a complete frame was buffered");
    assert_eq!(frame.address(), 0x01);
    assert_eq!(frame.app_data(), &vec![0xffu8]);
    assert!(!frame.is_broadcast());
    assert!(multidrop::checksum::crc_valid(frame.app_data(), &frame.crc()).is_ok());
    // The frame consumed every buffered byte: nothing is left to assemble.
    assert!(transport.parse_data_buffer().is_none());
}

#[test]
fn recover_after_overflow() {
    let mut transport = Transport::new_slave(0x1);
    // A frame announcing 255 payload bytes, then far more data words than
    // the buffer can hold.
    assert_eq!(transport.ingest(0x01_10), None);
    assert_eq!(transport.ingest(0x00_ff), None);
    let mut saw_reply = false;
    let mut last: Option<[u8; 4]> = None;
    let mut i: usize = 0;
    while i < 700 {
        last = transport.ingest(0x00_00);
        if last.is_some() {
            saw_reply = true;
        }
        i += 1;
    }
    // The overflow was refused and the buffer dropped: trailing words on an
    // empty buffer draw nothing.
    assert!(saw_reply);
    assert_eq!(last, None);
    // The transport stays usable: a fresh, valid frame is acknowledged.
    let words: [u16; 5] = [0x01_10, 0x1, 0xff, 0x00, 0xff];
    let mut reply: Option<[u8; 4]> = None;
    for byte in words.iter() {
        reply = transport.ingest(*byte);
    }
    assert_eq!(reply, Some(RESPONSE_ACK));
}

#[test]
fn master_ingests_but_never_replies() {
    let mut transport = Transport::new_master();
    // Valid frame, corrupted frame, and an overflow storm: a master stays
    // silent through all of it. Its own address is 0x1, so these frames
    // would draw replies from a slave.
    let mut all: Vec<u16> = vec![0x01_10, 0x1, 0xff, 0x00, 0xff];
    let mut bad: Vec<u16> = vec![0x01_10, 0x1, 0xff, 0x12, 0x34];
    all.append(&mut bad);
    all.push(0x01_10);
    all.push(0x00_ff);
    let mut i: usize = 0;
    while i < 700 {
        all.push(0x00_00);
        i += 1;
    }
    for byte in all.iter() {
        assert_eq!(transport.ingest(*byte), None);
    }
}
