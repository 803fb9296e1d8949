use socks5_core::codec::Decoder;
use socks5_core::codec::Encoder;
use socks5_core::codec::Reader;
use socks5_core::socks5::proto::messages::auth::username_password::ClientAuthenticationRequest;
use socks5_core::socks5::proto::messages::auth::username_password::ServerResponse;
use socks5_core::socks5::proto::messages::auth::username_password::AUTH_VERSION;
use socks5_core::socks5::proto::messages::write_frame;
use socks5_core::socks5::proto::messages::write_greeting;
use socks5_core::socks5::proto::messages::ClientGreeting;
use socks5_core::socks5::proto::messages::Frame;
use socks5_core::socks5::proto::messages::Request;
use socks5_core::socks5::proto::messages::Response;
use socks5_core::socks5::proto::messages::ServerChoice;
use socks5_core::socks5::proto::Address;
use socks5_core::socks5::proto::AuthenticationMethod;
use socks5_core::socks5::proto::CommandType;
use socks5_core::socks5::proto::ConversionError;
use socks5_core::socks5::proto::Reply;
use socks5_core::socks5::proto::Status;

fn encode<M: Encoder>(message: &M) -> Vec<u8> {
    let mut writer = Vec::new();
    message.write_to(&mut writer).unwrap();
    writer
}

fn decode<M: Decoder>(bytes: &[u8]) -> (Result<M, ConversionError>, usize, usize) {
    let mut reader = Reader::new(bytes);
    let result = M::read_from(&mut reader);
    (result, bytes.len() - reader.available(), reader.missing())
}

fn is_end_of_stream<M>(result: &Result<M, ConversionError>) -> bool {
    matches!(result, Err(ConversionError::IoError(inner))
        if inner.kind() == std::io::ErrorKind::UnexpectedEof)
}

fn addresses() -> Vec<Address> {
    vec![
        Address::Ipv4([1, 2, 3, 4]),
        Address::Domain(b"example.com".to_vec()),
        Address::Domain(Vec::new()),
        Address::Domain(vec![0xFF; 255]),
        Address::Ipv6([0xFE, 0x80, 0, 0, 0, 0, 0, 0, 0, 0, 0, 0, 0, 0, 0, 1]),
    ]
}

#[test]
fn greeting_wire_form() {
    let greeting = ClientGreeting {
        authentication_methods: vec![AuthenticationMethod(0), AuthenticationMethod(2)],
    };
    assert_eq!(encode(&greeting), vec![0x05u8, 0x02, 0x00, 0x02]);
}

#[test]
fn greeting_round_trip() {
    let greeting = ClientGreeting {
        authentication_methods: vec![
            AuthenticationMethod(0),
            AuthenticationMethod(2),
            AuthenticationMethod(0x80),
            AuthenticationMethod(0xFF),
        ],
    };
    let (result, consumed, _) = decode::<ClientGreeting>(&encode(&greeting));
    assert_eq!(result.unwrap().authentication_methods, greeting.authentication_methods);
    assert_eq!(consumed, 6);
}

#[test]
fn greeting_without_methods_round_trip() {
    let greeting = ClientGreeting { authentication_methods: Vec::new() };
    assert_eq!(encode(&greeting), vec![0x05u8, 0x00]);
    let (result, consumed, _) = decode::<ClientGreeting>(&[0x05, 0x00]);
    assert!(result.unwrap().authentication_methods.is_empty());
    assert_eq!(consumed, 2);
}

#[test]
fn greeting_with_255_methods_round_trip() {
    let methods: Vec<AuthenticationMethod> = (0..255u8).map(AuthenticationMethod).collect();
    let greeting = ClientGreeting { authentication_methods: methods.clone() };
    let wire = encode(&greeting);
    assert_eq!(wire.len(), 257);
    assert_eq!(wire[1], 255);
    let (result, consumed, _) = decode::<ClientGreeting>(&wire);
    assert_eq!(result.unwrap().authentication_methods, methods);
    assert_eq!(consumed, 257);
}

#[test]
fn greeting_with_256_methods_is_rejected_at_encode() {
    let greeting = ClientGreeting { authentication_methods: vec![AuthenticationMethod(0); 256] };
    let mut writer = vec![1u8];
    assert!(matches!(greeting.write_to(&mut writer), Err(ConversionError::MalformedMessage)));
    assert_eq!(writer, vec![1u8]);
    assert!(matches!(
        write_greeting(&vec![AuthenticationMethod(0); 300], &mut writer),
        Err(ConversionError::MalformedMessage)
    ));
    assert_eq!(writer, vec![1u8]);
}

#[test]
fn truncated_greetings_say_what_they_lack() {
    let (result, _, missing) = decode::<ClientGreeting>(&[]);
    assert!(is_end_of_stream(&result));
    assert_eq!(missing, 1);
    let (result, _, missing) = decode::<ClientGreeting>(&[0x05]);
    assert!(is_end_of_stream(&result));
    assert_eq!(missing, 1);
    let (result, consumed, missing) = decode::<ClientGreeting>(&[0x05, 0x03, 0x00]);
    assert!(is_end_of_stream(&result));
    assert_eq!((consumed, missing), (3, 2));
}

#[test]
fn choice_round_trip_for_every_method() {
    for byte in 0..=255u8 {
        let choice = ServerChoice { chosen_authentication_method: AuthenticationMethod(byte) };
        let wire = encode(&choice);
        assert_eq!(wire, vec![0x05u8, byte]);
        let (result, consumed, _) = decode::<ServerChoice>(&wire);
        assert_eq!(result.unwrap().chosen_authentication_method, AuthenticationMethod(byte));
        assert_eq!(consumed, 2);
    }
}

#[test]
fn request_wire_form_for_an_ipv4_target() {
    let request = Request {
        command: CommandType(CommandType::CONNECT),
        address: Address::Ipv4([1, 2, 3, 4]),
        port: 80,
    };
    assert_eq!(encode(&request), vec![0x05u8, 0x01, 0x00, 0x01, 0x01, 0x02, 0x03, 0x04, 0x00, 0x50]);
}

#[test]
fn request_wire_form_for_a_domain_target() {
    let request = Request {
        command: CommandType(CommandType::CONNECT),
        address: Address::from("example.com"),
        port: 443,
    };
    assert_eq!(
        encode(&request),
        vec![
            0x05u8, 0x01, 0x00, 0x03, 0x0B, 0x65, 0x78, 0x61, 0x6D, 0x70, 0x6C, 0x65, 0x2E, 0x63,
            0x6F, 0x6D, 0x01, 0xBB
        ]
    );
}

#[test]
fn request_round_trip_with_each_address_form() {
    for address in addresses() {
        for (command, port) in [(1u8, 80u16), (2, 0), (3, 65535), (0x99, 0x1234)] {
            let request = Request { command: CommandType(command), address: address.clone(), port };
            let wire = encode(&request);
            let (result, consumed, _) = decode::<Request>(&wire);
            let decoded = result.unwrap();
            assert_eq!(decoded.command, CommandType(command));
            assert_eq!(decoded.address, address);
            assert_eq!(decoded.port, port);
            assert_eq!(consumed, wire.len());
        }
    }
}

#[test]
fn response_round_trip_with_each_address_form() {
    for address in addresses() {
        for (reply, port) in [(0u8, 1080u16), (4, 0), (7, 65535), (0xF0, 0x00FF)] {
            let response = Response { reply: Reply(reply), address: address.clone(), port };
            let wire = encode(&response);
            assert_eq!(wire[0], 0x05);
            assert_eq!(wire[1], reply);
            assert_eq!(wire[2], 0x00);
            let (result, consumed, _) = decode::<Response>(&wire);
            let decoded = result.unwrap();
            assert_eq!(decoded.reply, Reply(reply));
            assert_eq!(decoded.address, address);
            assert_eq!(decoded.port, port);
            assert_eq!(consumed, wire.len());
        }
    }
}

#[test]
fn the_reserved_byte_is_not_validated_on_read() {
    let (result, consumed, _) =
        decode::<Request>(&[0x05, 0x01, 0xEE, 0x01, 1, 2, 3, 4, 0x00, 0x50]);
    let request = result.unwrap();
    assert_eq!(request.command, CommandType(1));
    assert_eq!(request.address, Address::Ipv4([1, 2, 3, 4]));
    assert_eq!(request.port, 80);
    assert_eq!(consumed, 10);
    let (result, _, _) = decode::<Response>(&[0x05, 0x00, 0x7F, 0x01, 0, 0, 0, 0, 0, 0]);
    assert_eq!(result.unwrap().reply, Reply(0));
}

#[test]
fn the_port_is_big_endian() {
    let (result, _, _) = decode::<Request>(&[0x05, 0x01, 0x00, 0x01, 0, 0, 0, 0, 0x12, 0x34]);
    assert_eq!(result.unwrap().port, 0x1234);
}

#[test]
fn a_request_with_an_unknown_address_tag_is_malformed() {
    let (result, consumed, _) = decode::<Request>(&[0x05, 0x01, 0x00, 0x02, 1, 2, 3, 4, 0, 80]);
    assert!(matches!(result, Err(ConversionError::MalformedMessage)));
    assert_eq!(consumed, 4);
    let (result, _, _) = decode::<Response>(&[0x05, 0x00, 0x00, 0x05]);
    assert!(matches!(result, Err(ConversionError::MalformedMessage)));
}

#[test]
fn a_request_with_too_long_a_domain_is_rejected_at_encode() {
    let request = Request {
        command: CommandType(1),
        address: Address::Domain(vec![b'a'; 256]),
        port: 80,
    };
    let mut writer = vec![3u8];
    assert!(matches!(request.write_to(&mut writer), Err(ConversionError::MalformedMessage)));
    assert_eq!(writer, vec![3u8]);
    let response = Response { reply: Reply(0), address: Address::Domain(vec![0; 300]), port: 0 };
    assert!(matches!(response.write_to(&mut writer), Err(ConversionError::MalformedMessage)));
    assert!(matches!(
        write_frame(1, &Address::Domain(vec![0; 256]), 1, &mut writer),
        Err(ConversionError::MalformedMessage)
    ));
    assert_eq!(writer, vec![3u8]);
}

#[test]
fn truncated_requests_say_what_they_lack() {
    let whole = [0x05u8, 0x01, 0x00, 0x03, 0x02, b'a', b'b', 0x00, 0x50];
    let lacking = [1usize, 1, 1, 1, 1, 2, 1, 2, 1];
    for cut in 0..whole.len() {
        let (result, consumed, missing) = decode::<Request>(&whole[..cut]);
        assert!(is_end_of_stream(&result));
        assert_eq!(consumed, cut);
        assert_eq!(missing, lacking[cut]);
    }
    let (result, consumed, _) = decode::<Request>(&whole);
    assert!(result.is_ok());
    assert_eq!(consumed, whole.len());
}

#[test]
fn frames_are_decoded_as_they_are() {
    let (result, consumed, _) = decode::<Frame>(&[0x05, 0x09, 0x00, 0x01, 4, 3, 2, 1, 0x1F, 0x90]);
    let frame = result.unwrap();
    assert_eq!(frame.code, 9);
    assert_eq!(frame.address, Address::Ipv4([4, 3, 2, 1]));
    assert_eq!(frame.port, 8080);
    assert_eq!(consumed, 10);
}

#[test]
fn error_responses_have_a_zeroed_endpoint() {
    assert_eq!(
        encode(&Response::new_error(Reply(Reply::GENERAL_FAILURE))),
        vec![0x05u8, 0x01, 0x00, 0x01, 0, 0, 0, 0, 0, 0]
    );
    assert_eq!(
        encode(&Response::host_unreachable()),
        vec![0x05u8, 0x04, 0x00, 0x01, 0, 0, 0, 0, 0, 0]
    );
    assert_eq!(
        encode(&Response::unsupported_command()),
        vec![0x05u8, 0x07, 0x00, 0x01, 0, 0, 0, 0, 0, 0]
    );
    let error = Response::new_error(Reply(0x55));
    assert_eq!(error.reply, Reply(0x55));
    assert_eq!(error.address, Address::Ipv4([0, 0, 0, 0]));
    assert_eq!(error.port, 0);
}

#[test]
fn credentials_wire_form() {
    let request = ClientAuthenticationRequest {
        username: b"user".to_vec(),
        password: b"pw".to_vec(),
    };
    assert_eq!(encode(&request), vec![0x01u8, 0x04, 0x75, 0x73, 0x65, 0x72, 0x02, 0x70, 0x77]);
}

#[test]
fn credentials_round_trip() {
    for (username, password) in [
        (Vec::new(), Vec::new()),
        (b"user".to_vec(), b"pw".to_vec()),
        (vec![0xFF; 255], vec![0x00; 255]),
        (Vec::new(), vec![1, 2, 3]),
        (vec![9], Vec::new()),
    ] {
        let request =
            ClientAuthenticationRequest { username: username.clone(), password: password.clone() };
        let wire = encode(&request);
        assert_eq!(wire.len(), 3 + username.len() + password.len());
        let (result, consumed, _) = decode::<ClientAuthenticationRequest>(&wire);
        let decoded = result.unwrap();
        assert_eq!(decoded.username, username);
        assert_eq!(decoded.password, password);
        assert_eq!(consumed, wire.len());
    }
}

#[test]
fn credentials_longer_than_255_bytes_are_rejected_at_encode() {
    let mut writer = vec![8u8];
    let long_name = ClientAuthenticationRequest { username: vec![b'u'; 256], password: Vec::new() };
    assert!(matches!(long_name.write_to(&mut writer), Err(ConversionError::MalformedMessage)));
    let long_password =
        ClientAuthenticationRequest { username: Vec::new(), password: vec![b'p'; 256] };
    assert!(matches!(long_password.write_to(&mut writer), Err(ConversionError::MalformedMessage)));
    assert_eq!(writer, vec![8u8]);
}

#[test]
fn truncated_credentials_say_what_they_lack() {
    let whole = [0x01u8, 0x02, b'a', b'b', 0x03, b'x', b'y', b'z'];
    let lacking = [1usize, 1, 2, 1, 1, 3, 2, 1];
    for cut in 0..whole.len() {
        let (result, consumed, missing) = decode::<ClientAuthenticationRequest>(&whole[..cut]);
        assert!(is_end_of_stream(&result));
        assert_eq!(consumed, cut);
        assert_eq!(missing, lacking[cut]);
    }
}

#[test]
fn verdict_round_trip_keeps_the_status_byte() {
    for byte in 0..=255u8 {
        let wire = encode(&ServerResponse { status: Status(byte) });
        assert_eq!(wire, vec![AUTH_VERSION, byte]);
        let (result, consumed, _) = decode::<ServerResponse>(&wire);
        assert_eq!(result.unwrap().status.0, byte);
        assert_eq!(consumed, 2);
    }
}

#[test]
fn the_two_verdicts() {
    assert_eq!(encode(&ServerResponse::success()), vec![0x01u8, 0x00]);
    assert_eq!(encode(&ServerResponse::failure()), vec![0x01u8, 0x01]);
    assert!(ServerResponse::success().status.is_success());
    assert!(ServerResponse::failure().status.is_failure());
}

#[test]
fn a_wrong_version_is_rejected_by_every_main_message() {
    for version in 0..=255u8 {
        if version == 0x05 {
            continue;
        }
        let bytes = [version, 0x01, 0x00, 0x01, 1, 2, 3, 4, 0, 80];
        let (result, consumed, _) = decode::<ClientGreeting>(&bytes);
        assert!(matches!(result, Err(ConversionError::InvalidProtocolVersion(v)) if v == version));
        assert_eq!(consumed, 1);
        let (result, consumed, _) = decode::<ServerChoice>(&bytes);
        assert!(matches!(result, Err(ConversionError::InvalidProtocolVersion(v)) if v == version));
        assert_eq!(consumed, 1);
        let (result, consumed, _) = decode::<Request>(&bytes);
        assert!(matches!(result, Err(ConversionError::InvalidProtocolVersion(v)) if v == version));
        assert_eq!(consumed, 1);
        let (result, consumed, _) = decode::<Response>(&bytes);
        assert!(matches!(result, Err(ConversionError::InvalidProtocolVersion(v)) if v == version));
        assert_eq!(consumed, 1);
    }
}

#[test]
fn a_wrong_version_is_rejected_by_both_sub_negotiation_messages() {
    for version in 0..=255u8 {
        if version == 0x01 {
            continue;
        }
        let bytes = [version, 0x01, b'u', 0x01, b'p'];
        let (result, consumed, _) = decode::<ClientAuthenticationRequest>(&bytes);
        assert!(matches!(result, Err(ConversionError::InvalidProtocolVersion(v)) if v == version));
        assert_eq!(consumed, 1);
        let (result, consumed, _) = decode::<ServerResponse>(&bytes);
        assert!(matches!(result, Err(ConversionError::InvalidProtocolVersion(v)) if v == version));
        assert_eq!(consumed, 1);
    }
}

#[test]
fn a_wrong_version_needs_no_byte_behind_it() {
    assert!(matches!(
        decode::<ClientGreeting>(&[0x04]).0,
        Err(ConversionError::InvalidProtocolVersion(4))
    ));
    assert!(matches!(
        decode::<ServerChoice>(&[0x04]).0,
        Err(ConversionError::InvalidProtocolVersion(4))
    ));
    assert!(matches!(decode::<Request>(&[0x00]).0, Err(ConversionError::InvalidProtocolVersion(0))));
    assert!(matches!(
        decode::<Response>(&[0xFF]).0,
        Err(ConversionError::InvalidProtocolVersion(0xFF))
    ));
    assert!(matches!(
        decode::<ClientAuthenticationRequest>(&[0x05]).0,
        Err(ConversionError::InvalidProtocolVersion(5))
    ));
    assert!(matches!(
        decode::<ServerResponse>(&[0x05]).0,
        Err(ConversionError::InvalidProtocolVersion(5))
    ));
}
