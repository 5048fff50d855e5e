use multidrop::checksum::crc_valid;
use multidrop::parser::parse_address;
use multidrop::parser::parse_crc;
use multidrop::parser::parse_dataframe;
use multidrop::parser::parse_dataframe_noclone;
use multidrop::parser::parse_only_crc;
use multidrop::parser::parse_only_datalength;
use multidrop::parser::ParseError;

#[test]
fn address_test() {
    let data: [u8; 1] = [0x10u8];
    let address = parse_address(&data);

    match address {
        Ok((_, o)) => {
            println!("parsed address: {}", o);
        }
        _ => {
            println!("failed to parse address!");
            panic!("cannot parse address");
        }
    }
}

#[test]
fn data_frame_test() {
    let data: [u8; 6] = [0x10u8, 0x2, 0xff, 0xfe, 0x12, 0x34];
    let frame = parse_dataframe(&data);

    match frame {
        Ok((_, o)) => {
            println!("parsed data frame!");
            println!(
                "addr: {}\ndata len: {}\ndata: {:x?}\ncrc: {}",
                o.address(),
                o.app_data().len(),
                o.app_data(),
                o.crc()
            );
        }
        _ => {
            println!("failed to parse data frame");
            panic!("could not parse data frame");
        }
    }
}

#[test]
fn data_frame_fail() {
    let data: [u8; 1] = [0x0u8];
    let frame = parse_dataframe(&data);
    match frame {
        Err(e) => println!("test failed successfully: {:?}", e),
        _ => {
            println!("test didn't fail");
            panic!("test should have failed");
        }
    }
}

#[test]
fn parse_crc_check() {
    let val: u16 = 0x670f;
    match parse_crc(&val.to_le_bytes()) {
        Ok((_, o)) => {
            assert_eq!(o, val);
        }
        _ => (),
    }
}

#[test]
fn crc_check() {
    let data: [u8; 5] = [0x10u8, 0x1, 0xff, 0x00, 0xff];
    let frame = parse_dataframe(&data);

    match frame {
        Ok((_, o)) => {
            assert_eq!(crc_valid(o.app_data(), &o.crc()).is_ok(), true);
        }
        _ => {
            panic!("failed to parse data frame");
        }
    }
}

#[test]
fn parsed_fields_are_exact() {
    let data: [u8; 6] = [0x37u8, 0x2, 0xab, 0xcd, 0x12, 0x34];
    let (used, frame) = parse_dataframe(&data).expect("complete frame");
    assert_eq!(used, 6);
    // Only the top nibble of the first byte carries the address.
    assert_eq!(frame.address(), 0x3);
    assert_eq!(frame.app_data(), &vec![0xabu8, 0xcd]);
    // Checksum bytes are little-endian on the wire.
    assert_eq!(frame.crc(), 0x3412);

    let (used_nc, (address, payload, crc)) =
        parse_dataframe_noclone(&data).expect("complete frame");
    assert_eq!(used_nc, 6);
    assert_eq!(address, 0x3);
    assert_eq!(payload, &[0xabu8, 0xcd]);
    assert_eq!(crc, 0x3412);
}

#[test]
fn header_fields_without_payload() {
    let data: [u8; 3] = [0x10u8, 0x05, 0xaa];
    assert_eq!(parse_only_datalength(&data), Ok((2, 0x05)));
    let short: [u8; 1] = [0x10u8];
    assert_eq!(parse_only_datalength(&short), Err(ParseError::Incomplete));
}

#[test]
fn only_crc_of_complete_frame() {
    let data: [u8; 6] = [0x10u8, 0x2, 0xff, 0xfe, 0x12, 0x34];
    assert_eq!(parse_only_crc(&data), Ok((6, 0x3412)));
}

#[test]
fn incomplete_never_malformed() {
    // Every strict prefix of a frame is "not enough bytes yet", whatever
    // its contents.
    let data: [u8; 6] = [0x10u8, 0x2, 0xff, 0xfe, 0x12, 0x34];
    let mut k: usize = 0;
    while k < data.len() {
        assert_eq!(
            parse_dataframe_noclone(&data[..k]).err(),
            Some(ParseError::Incomplete)
        );
        assert_eq!(parse_only_crc(&data[..k]).err(), Some(ParseError::Incomplete));
        k += 1;
    }
    assert!(parse_dataframe_noclone(&data).is_ok());
}

#[test]
fn empty_buffer_is_incomplete() {
    let data: [u8; 0] = [];
    assert_eq!(parse_address(&data), Err(ParseError::Incomplete));
    assert_eq!(parse_crc(&data), Err(ParseError::Incomplete));
    assert_eq!(parse_only_datalength(&data), Err(ParseError::Incomplete));
}
