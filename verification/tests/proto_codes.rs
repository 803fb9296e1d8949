use socks5_core::socks5::proto::AddressType;
use socks5_core::socks5::proto::AuthenticationMethod;
use socks5_core::socks5::proto::CommandType;
use socks5_core::socks5::proto::ConversionError;
use socks5_core::socks5::proto::Reply;
use socks5_core::socks5::proto::Status;
use socks5_core::socks5::proto::RESERVED;
use socks5_core::socks5::proto::VERSION;

#[test]
fn protocol_constants_have_their_wire_values() {
    assert_eq!(VERSION, 0x05);
    assert_eq!(RESERVED, 0x00);
    assert_eq!(AuthenticationMethod::NO_AUTHENTICATION, 0x00);
    assert_eq!(AuthenticationMethod::GSSAPI, 0x01);
    assert_eq!(AuthenticationMethod::USERNAME_PASSWORD, 0x02);
    assert_eq!(AuthenticationMethod::IANA_CHALLENGE_HANDSHAKE, 0x03);
    assert_eq!(AuthenticationMethod::IANA_CHALLENGE_RESPONSE, 0x05);
    assert_eq!(AuthenticationMethod::IANA_SECURE_SOCKETS_LAYER, 0x06);
    assert_eq!(AuthenticationMethod::IANA_NDS, 0x07);
    assert_eq!(AuthenticationMethod::IANA_MULTI_AUTHENTICATION_FRAMEWORK, 0x08);
    assert_eq!(AuthenticationMethod::IANA_JSON_PARAMETER_BLOCK, 0x09);
    assert_eq!(AuthenticationMethod::NO_ACCEPTABLE_METHODS, 0xFF);
    assert_eq!(CommandType::CONNECT, 0x01);
    assert_eq!(CommandType::BIND, 0x02);
    assert_eq!(CommandType::UDP_ASSOCIATE, 0x03);
    assert_eq!(AddressType::IP_V4, 0x01);
    assert_eq!(AddressType::DOMAIN_NAME, 0x03);
    assert_eq!(AddressType::IP_V6, 0x04);
    assert_eq!(Reply::SUCCESS, 0x00);
    assert_eq!(Reply::GENERAL_FAILURE, 0x01);
    assert_eq!(Reply::CONNECTION_NOT_ALLOWED_BY_RULESET, 0x02);
    assert_eq!(Reply::NETWORK_UNREACHABLE, 0x03);
    assert_eq!(Reply::HOST_UNREACHABLE, 0x04);
    assert_eq!(Reply::CONNECTION_REFUSED, 0x05);
    assert_eq!(Reply::TTL_EXPIRED, 0x06);
    assert_eq!(Reply::COMMAND_NOT_SUPPORTED, 0x07);
    assert_eq!(Reply::ADDRESS_TYPE_NOT_SUPPORTED, 0x08);
    assert_eq!(Status::SUCCESS, 0);
    assert_eq!(Status::FAILURE, 1);
}

#[test]
fn status_zero_is_success() {
    assert!(Status(0x00).is_success());
    assert!(!Status(0x00).is_failure());
}

#[test]
fn every_nonzero_status_is_failure() {
    for byte in 1..=255u8 {
        assert!(Status(byte).is_failure());
        assert!(!Status(byte).is_success());
    }
}

#[test]
fn status_equality_on_the_same_byte() {
    assert!(Status(0x00) == Status(0x00));
    assert!(Status(0x01) == Status(0x01));
    assert!(Status(0xFF) == Status(0xFF));
}

#[test]
fn status_equality_within_the_failure_class() {
    assert!(Status(0x01) == Status(0xFF));
    assert!(Status(0x7F) == Status(0x02));
}

#[test]
fn status_inequality_across_the_classes() {
    assert!(Status(0x00) != Status(0x01));
    assert!(Status(0xFF) != Status(0x00));
}

#[test]
fn status_converts_from_and_into_its_byte() {
    for byte in 0..=255u8 {
        let status = Status::from(byte);
        assert_eq!(status.0, byte);
        let back: u8 = status.into();
        assert_eq!(back, byte);
    }
}

#[test]
fn every_code_type_round_trips_every_byte() {
    for byte in 0..=255u8 {
        let method: u8 = AuthenticationMethod::from(byte).into();
        let command: u8 = CommandType::from(byte).into();
        let reply: u8 = Reply::from(byte).into();
        let tag: u8 = AddressType::from(byte).into();
        assert_eq!(method, byte);
        assert_eq!(command, byte);
        assert_eq!(reply, byte);
        assert_eq!(tag, byte);
    }
}

#[test]
fn code_equality_is_byte_equality() {
    assert_eq!(AuthenticationMethod(2), AuthenticationMethod(AuthenticationMethod::USERNAME_PASSWORD));
    assert_ne!(AuthenticationMethod(2), AuthenticationMethod(3));
    assert_eq!(Reply(4), Reply(Reply::HOST_UNREACHABLE));
    assert_ne!(CommandType(1), CommandType(2));
    assert_eq!(AddressType(3), AddressType(AddressType::DOMAIN_NAME));
}

#[test]
fn unassigned_method_codes() {
    assert!(AuthenticationMethod(0x04).is_iana_unassigned());
    assert!(AuthenticationMethod(0x0A).is_iana_unassigned());
    assert!(AuthenticationMethod(0x7F).is_iana_unassigned());
    assert!(!AuthenticationMethod(0x03).is_iana_unassigned());
    assert!(!AuthenticationMethod(0x05).is_iana_unassigned());
    assert!(!AuthenticationMethod(0x09).is_iana_unassigned());
    assert!(!AuthenticationMethod(0x80).is_iana_unassigned());
    assert!(!AuthenticationMethod(0xFF).is_iana_unassigned());
}

#[test]
fn private_use_method_codes() {
    assert!(AuthenticationMethod(0x80).is_reserved_for_private_use());
    assert!(AuthenticationMethod(0xFE).is_reserved_for_private_use());
    assert!(!AuthenticationMethod(0x7F).is_reserved_for_private_use());
    assert!(!AuthenticationMethod(0xFF).is_reserved_for_private_use());
    assert!(!AuthenticationMethod(0x00).is_reserved_for_private_use());
}

#[test]
fn method_codes_fall_into_exactly_one_class() {
    for byte in 0..=255u8 {
        let method = AuthenticationMethod(byte);
        let classes = [
            method.is_recognized(),
            method.is_iana_unassigned(),
            method.is_reserved_for_private_use(),
        ];
        assert_eq!(classes.iter().filter(|&&held| held).count(), 1);
    }
}

#[test]
fn recognized_codes() {
    assert!(CommandType(1).is_recognized());
    assert!(CommandType(3).is_recognized());
    assert!(!CommandType(0).is_recognized());
    assert!(!CommandType(4).is_recognized());
    assert!(AddressType(1).is_recognized());
    assert!(AddressType(3).is_recognized());
    assert!(AddressType(4).is_recognized());
    assert!(!AddressType(2).is_recognized());
    assert!(!AddressType(0).is_recognized());
    assert!(Reply(8).is_recognized());
    assert!(!Reply(9).is_recognized());
}

#[test]
fn reply_success_and_unassigned() {
    assert!(Reply(0x00).is_success());
    for byte in 1..=255u8 {
        assert!(!Reply(byte).is_success());
    }
    assert!(!Reply(0x08).is_unassigned());
    assert!(Reply(0x09).is_unassigned());
    assert!(Reply(0xFF).is_unassigned());
    assert!(!Reply(0x00).is_unassigned());
}

#[test]
fn conversion_error_wraps_an_io_error() {
    let error = ConversionError::from(std::io::Error::from(std::io::ErrorKind::BrokenPipe));
    assert!(matches!(error, ConversionError::IoError(ref inner)
        if inner.kind() == std::io::ErrorKind::BrokenPipe));
}
