use socks5_core::codec::join_be16;
use socks5_core::codec::peek_front;
use socks5_core::codec::split_be16;
use socks5_core::codec::take_front;
use socks5_core::codec::write_all;
use socks5_core::codec::Front;
use socks5_core::codec::Reader;
use socks5_core::socks5::proto::messages::ServerChoice;
use socks5_core::socks5::proto::ConversionError;

#[test]
fn a_new_reader_holds_all_its_bytes() {
    let data = [1u8, 2, 3];
    let reader = Reader::new(&data);
    assert_eq!(reader.available(), 3);
    assert_eq!(reader.missing(), 0);
}

#[test]
fn read_exact_takes_bytes_from_the_front() {
    let data = [1u8, 2, 3, 4, 5];
    let mut reader = Reader::new(&data);
    assert_eq!(reader.read_exact(2).unwrap(), &[1u8, 2][..]);
    assert_eq!(reader.available(), 3);
    assert_eq!(reader.read_exact(3).unwrap(), &[3u8, 4, 5][..]);
    assert_eq!(reader.available(), 0);
    assert_eq!(reader.missing(), 0);
}

#[test]
fn read_exact_of_nothing_succeeds_on_an_empty_reader() {
    let data: [u8; 0] = [];
    let mut reader = Reader::new(&data);
    assert_eq!(reader.read_exact(0).unwrap().len(), 0);
    assert_eq!(reader.missing(), 0);
}

#[test]
fn a_short_read_is_an_unexpected_end_of_stream() {
    let data = [1u8, 2, 3];
    let mut reader = Reader::new(&data);
    let error = reader.read_exact(5).unwrap_err();
    assert!(matches!(error, ConversionError::IoError(ref inner)
        if inner.kind() == std::io::ErrorKind::UnexpectedEof));
    assert_eq!(reader.missing(), 2);
    assert_eq!(reader.available(), 0);
}

#[test]
fn read_u8_and_read_u16() {
    let data = [0xABu8, 0x01, 0xBB];
    let mut reader = Reader::new(&data);
    assert_eq!(reader.read_u8().unwrap(), 0xAB);
    assert_eq!(reader.read_u16().unwrap(), 443);
    assert!(reader.read_u8().is_err());
    assert_eq!(reader.missing(), 1);
}

#[test]
fn read_u16_short_by_one() {
    let data = [0x01u8];
    let mut reader = Reader::new(&data);
    assert!(reader.read_u16().is_err());
    assert_eq!(reader.missing(), 1);
    assert_eq!(reader.available(), 0);
}

#[test]
fn read_vec_copies_the_bytes() {
    let data = [9u8, 8, 7, 6];
    let mut reader = Reader::new(&data);
    assert_eq!(reader.read_vec(3).unwrap(), vec![9u8, 8, 7]);
    assert_eq!(reader.available(), 1);
    assert!(reader.read_vec(2).is_err());
    assert_eq!(reader.missing(), 1);
}

#[test]
fn big_endian_sixteen_bit_integers() {
    assert_eq!(join_be16(0x00, 0x50), 80);
    assert_eq!(join_be16(0x01, 0xBB), 443);
    assert_eq!(join_be16(0xFF, 0xFF), 65535);
    assert_eq!(split_be16(80), (0x00, 0x50));
    assert_eq!(split_be16(443), (0x01, 0xBB));
    assert_eq!(split_be16(0), (0, 0));
    assert_eq!(split_be16(65535), (0xFF, 0xFF));
}

#[test]
fn splitting_and_joining_are_inverse() {
    for value in [0u16, 1, 255, 256, 257, 8080, 65534, 65535] {
        let (high, low) = split_be16(value);
        assert_eq!(join_be16(high, low), value);
    }
}

#[test]
fn write_all_appends() {
    let mut writer = vec![1u8];
    write_all(&mut writer, &[2, 3]);
    write_all(&mut writer, &[]);
    assert_eq!(writer, vec![1u8, 2, 3]);
}

#[test]
fn take_front_takes_a_whole_message_and_keeps_the_rest() {
    let mut buffer = vec![5u8, 2, 0xAA, 0xBB];
    match take_front::<ServerChoice>(&mut buffer) {
        Ok(Front::Message(choice)) => assert_eq!(choice.chosen_authentication_method.0, 2),
        _ => panic!("a whole choice was in the buffer"),
    }
    assert_eq!(buffer, vec![0xAAu8, 0xBB]);
}

#[test]
fn take_front_keeps_a_truncated_message() {
    let mut buffer = vec![5u8];
    assert!(matches!(take_front::<ServerChoice>(&mut buffer), Ok(Front::Missing(1))));
    assert_eq!(buffer, vec![5u8]);
    let mut empty: Vec<u8> = Vec::new();
    assert!(matches!(take_front::<ServerChoice>(&mut empty), Ok(Front::Missing(1))));
}

#[test]
fn take_front_reports_a_fault_and_keeps_the_bytes() {
    let mut buffer = vec![4u8, 0];
    assert!(matches!(
        take_front::<ServerChoice>(&mut buffer),
        Err(ConversionError::InvalidProtocolVersion(4))
    ));
    assert_eq!(buffer, vec![4u8, 0]);
}

#[test]
fn peek_front_counts_what_is_lacking() {
    assert_eq!(peek_front::<ServerChoice>(&[]), 1);
    assert_eq!(peek_front::<ServerChoice>(&[5]), 1);
    assert_eq!(peek_front::<ServerChoice>(&[5, 0]), 0);
    assert_eq!(peek_front::<ServerChoice>(&[4]), 0);
}
