use wallet_core::address::{
    address_from_bytes, address_to_bytes, address_to_hex, parse_address, Address,
};
use wallet_core::utils::ValidationError;

#[test]
fn parse_reads_the_digits_as_one_number() {
    let address = parse_address("0x000000000000000000000000000000000000dEaD").unwrap();
    assert_eq!(address, Address { high: 0, low: 0xdead });
    let address = parse_address(" 0xf39Fd6e51aad88F6F4ce6aB8827279cffFb92266 ").unwrap();
    assert_eq!(
        address,
        Address { high: 0xf39fd6e5, low: 0x1aad88f6f4ce6ab8827279cfffb92266 }
    );
}

#[test]
fn parse_refuses_other_shapes() {
    assert_eq!(parse_address("dead"), Err(ValidationError::InvalidAddress));
    assert_eq!(
        parse_address("f39Fd6e51aad88F6F4ce6aB8827279cffFb92266"),
        Err(ValidationError::InvalidAddress)
    );
    assert_eq!(
        parse_address("0xf39Fd6e51aad88F6F4ce6aB8827279cffFb9226 "),
        Err(ValidationError::InvalidAddress)
    );
}

#[test]
fn bytes_are_read_big_endian() {
    let mut bytes = [0u8; 20];
    bytes[0] = 0x12;
    bytes[3] = 0x34;
    bytes[4] = 0x56;
    bytes[19] = 0x78;
    let address = address_from_bytes(&bytes);
    assert_eq!(address.high, 0x12000034);
    assert_eq!(address.low, 0x56000000000000000000000000000078);
}

#[test]
fn text_is_lowercase_with_all_forty_digits() {
    let address = Address { high: 0, low: 0xdead };
    assert_eq!(address_to_hex(address), "0x000000000000000000000000000000000000dead");
    let address = Address { high: 0xf39fd6e5, low: 0x1aad88f6f4ce6ab8827279cfffb92266 };
    assert_eq!(address_to_hex(address), "0xf39fd6e51aad88f6f4ce6ab8827279cfffb92266");
}

#[test]
fn formatting_then_parsing_gives_the_address_back() {
    for address in [
        Address { high: 0, low: 0 },
        Address { high: u32::MAX, low: u128::MAX },
        Address { high: 0x01020304, low: 0x05060708090a0b0c0d0e0f1011121314 },
    ] {
        assert_eq!(parse_address(&address_to_hex(address)), Ok(address));
    }
}

#[test]
fn bytes_come_out_first_byte_first() {
    let address = Address { high: 0x12000034, low: 0x56000000000000000000000000000078 };
    let bytes = address_to_bytes(address);
    assert_eq!(bytes.len(), 20);
    assert_eq!(&bytes[..5], &[0x12, 0, 0, 0x34, 0x56]);
    assert_eq!(bytes[19], 0x78);
    assert_eq!(address_from_bytes(&bytes), address);
    let all = Address { high: u32::MAX, low: u128::MAX };
    assert_eq!(address_to_bytes(all), vec![0xff; 20]);
    assert_eq!(address_from_bytes(&address_to_bytes(all)), all);
}
