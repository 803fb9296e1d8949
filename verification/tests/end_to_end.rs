use socks5_core::socks5::client::ClientError;
use socks5_core::socks5::client::ClientEvent;
use socks5_core::socks5::client::ClientNext;
use socks5_core::socks5::client::ClientState;
use socks5_core::socks5::client::Socks5Client;
use socks5_core::socks5::credentials::Credentials;
use socks5_core::socks5::proto::Address;
use socks5_core::socks5::proto::AuthenticationMethod;
use socks5_core::socks5::server::ServerError;
use socks5_core::socks5::server::ServerEvent;
use socks5_core::socks5::server::ServerNext;
use socks5_core::socks5::server::ServerState;
use socks5_core::socks5::server::Socks5Server;
use std::collections::VecDeque;
use std::sync::Arc;

struct Outcome {
    client: Result<Vec<u8>, ClientError>,
    server: Option<Result<(), ServerError>>,
    connected_to: Option<(Address, u16)>,
    client_state: ClientState,
    server_state: ServerState,
    to_server: Vec<u8>,
    to_client: Vec<u8>,
}

fn take(pipe: &mut VecDeque<u8>, count: usize) -> Option<Vec<u8>> {
    if pipe.len() < count {
        return None;
    }
    Some(pipe.drain(..count).collect())
}

fn run(mut client: Socks5Client, mut server: Socks5Server, target: Address, port: u16) -> Outcome {
    let mut to_server: VecDeque<u8> = VecDeque::new();
    let mut to_client: VecDeque<u8> = VecDeque::new();
    let mut seen_by_server = Vec::new();
    let mut seen_by_client = Vec::new();
    let mut connected_to = None;
    let mut client_result = None;
    let mut server_result = None;

    let first = client.connect_to_target(target, port);
    to_server.extend(first.send.iter().copied());
    seen_by_server.extend_from_slice(&first.send);
    let mut client_next = Some(first.next);
    let mut server_next = Some(server.serve_client(ServerEvent::Accepted).next);

    for _ in 0..1000 {
        let mut moved = false;
        match server_next.take() {
            Some(ServerNext::Read(count)) => match take(&mut to_server, count) {
                Some(bytes) => {
                    let action = server.serve_client(ServerEvent::Received(bytes));
                    to_client.extend(action.send.iter().copied());
                    seen_by_client.extend_from_slice(&action.send);
                    server_next = Some(action.next);
                    moved = true;
                },
                None => server_next = Some(ServerNext::Read(count)),
            },
            Some(ServerNext::Connect(address, port)) => {
                connected_to = Some((address, port));
                let action =
                    server.serve_client(ServerEvent::Connected(Address::Ipv4([127, 0, 0, 1]), 4242));
                to_client.extend(action.send.iter().copied());
                seen_by_client.extend_from_slice(&action.send);
                server_next = Some(action.next);
                moved = true;
            },
            Some(ServerNext::Finish(result)) => {
                server_result = Some(result);
                moved = true;
            },
            other => server_next = other,
        }
        match client_next.take() {
            Some(ClientNext::Read(count)) => match take(&mut to_client, count) {
                Some(bytes) => {
                    let action = client.advance(ClientEvent::Received(bytes));
                    to_server.extend(action.send.iter().copied());
                    seen_by_server.extend_from_slice(&action.send);
                    client_next = Some(action.next);
                    moved = true;
                },
                None => {
                    if server_result.is_some() {
                        let end = std::io::Error::from(std::io::ErrorKind::UnexpectedEof);
                        client_next = Some(client.advance(ClientEvent::Failed(end)).next);
                        moved = true;
                    } else {
                        client_next = Some(ClientNext::Read(count));
                    }
                },
            },
            Some(ClientNext::Established(pending)) => {
                client_result = Some(Ok(pending));
                moved = true;
            },
            Some(ClientNext::Fail(error)) => {
                client_result = Some(Err(error));
                moved = true;
            },
            other => client_next = other,
        }
        if !moved {
            break;
        }
    }
    Outcome {
        client: client_result.expect("the client came to an end"),
        server: server_result,
        connected_to,
        client_state: client.state(),
        server_state: server.state(),
        to_server: seen_by_server,
        to_client: seen_by_client,
    }
}

fn credentials(username: &[u8], password: &[u8]) -> Arc<Credentials> {
    Arc::new(Credentials::new(username.to_vec(), password.to_vec()))
}

fn methods(codes: &[u8]) -> Vec<AuthenticationMethod> {
    codes.iter().map(|&code| AuthenticationMethod(code)).collect()
}

#[test]
fn connect_through_a_server_that_always_succeeds() {
    let client = Socks5Client::with_methods(credentials(b"", b""), methods(&[0x00]));
    let server = Socks5Server::with_methods(credentials(b"", b""), methods(&[0x00]));
    let outcome = run(client, server, Address::Ipv4([1, 2, 3, 4]), 80);
    assert!(outcome.client.unwrap().is_empty());
    assert_eq!(outcome.connected_to, Some((Address::Ipv4([1, 2, 3, 4]), 80)));
    assert_eq!(outcome.client_state, ClientState::Established);
    assert_eq!(outcome.server_state, ServerState::Relaying);
    assert!(outcome.server.is_none());
    assert_eq!(
        outcome.to_server,
        vec![0x05u8, 0x01, 0x00, 0x05, 0x01, 0x00, 0x01, 0x01, 0x02, 0x03, 0x04, 0x00, 0x50]
    );
    assert_eq!(
        outcome.to_client,
        vec![0x05u8, 0x00, 0x05, 0x00, 0x00, 0x01, 127, 0, 0, 1, 0x10, 0x92]
    );
}

#[test]
fn the_relayed_payload_round_trips_after_the_handshake() {
    let mut client = Socks5Client::with_methods(credentials(b"", b""), methods(&[0x00]));
    let mut server = Socks5Server::with_methods(credentials(b"", b""), methods(&[0x00]));
    let greeting = client.connect_to_target(Address::from("echo.test"), 7);
    let choice = server.serve_client(ServerEvent::Received(greeting.send));
    let request = client.advance(ClientEvent::Received(choice.send));
    let mut wire = request.send;
    wire.extend_from_slice(b"ping");
    let connect = server.serve_client(ServerEvent::Received(wire));
    assert!(matches!(connect.next, ServerNext::Connect(_, 7)));
    let reply = server.serve_client(ServerEvent::Connected(Address::Ipv4([0; 4]), 0));
    let to_target = match reply.next {
        ServerNext::Relay(pending) => pending,
        _ => panic!("the session enters the relay"),
    };
    assert_eq!(to_target, b"ping".to_vec());
    let mut back = reply.send;
    back.extend_from_slice(&to_target);
    let done = client.advance(ClientEvent::Received(back));
    match done.next {
        ClientNext::Established(pending) => assert_eq!(pending, b"ping".to_vec()),
        _ => panic!("the stream is established"),
    }
    let end = server.serve_client(ServerEvent::RelayFinished);
    assert!(matches!(end.next, ServerNext::Finish(Ok(()))));
}

#[test]
fn connect_with_matching_credentials() {
    let client = Socks5Client::new(credentials(b"user", b"pw"));
    let server = Socks5Server::new(credentials(b"user", b"pw"));
    let outcome = run(client, server, Address::from("example.com"), 443);
    assert!(outcome.client.is_ok());
    assert_eq!(outcome.connected_to, Some((Address::Domain(b"example.com".to_vec()), 443)));
    assert_eq!(outcome.server_state, ServerState::Relaying);
    assert_eq!(outcome.to_client[..4], [0x05u8, 0x02, 0x01, 0x00]);
    assert_eq!(
        outcome.to_server[..13],
        [0x05u8, 0x02, 0x00, 0x02, 0x01, 0x04, b'u', b's', b'e', b'r', 0x02, b'p', b'w']
    );
}

#[test]
fn connect_with_wrong_credentials() {
    let client = Socks5Client::new(credentials(b"user", b"pw"));
    let server = Socks5Server::new(credentials(b"user", b"secret"));
    let outcome = run(client, server, Address::Ipv4([1, 2, 3, 4]), 80);
    assert!(matches!(outcome.client, Err(ClientError::AuthenticationFailed)));
    assert!(matches!(outcome.server, Some(Err(ServerError::AuthenticationFailed))));
    assert_eq!(outcome.connected_to, None);
    assert_eq!(outcome.client_state, ClientState::Closed);
    assert_eq!(outcome.server_state, ServerState::Rejected);
    assert_eq!(outcome.to_client, vec![0x05u8, 0x02, 0x01, 0x01]);
}

#[test]
fn connect_without_a_common_method() {
    let client = Socks5Client::with_methods(credentials(b"", b""), methods(&[0x01]));
    let server = Socks5Server::with_methods(credentials(b"", b""), methods(&[0x00]));
    let outcome = run(client, server, Address::Ipv4([1, 2, 3, 4]), 80);
    assert!(matches!(
        outcome.client,
        Err(ClientError::UnsupportedAuthMethod(AuthenticationMethod(0xFF)))
    ));
    assert!(matches!(outcome.server, Some(Err(ServerError::NoAcceptableAuthMethods))));
    assert_eq!(outcome.to_client, vec![0x05u8, 0xFF]);
    assert_eq!(outcome.connected_to, None);
}

#[test]
fn connect_with_each_address_form() {
    for target in [
        Address::Ipv4([203, 0, 113, 9]),
        Address::Ipv6([0x20, 0x01, 0x0d, 0xb8, 0, 0, 0, 0, 0, 0, 0, 0, 0, 0, 0, 0x42]),
        Address::Domain(vec![0xFF; 255]),
        Address::Domain(Vec::new()),
    ] {
        let client = Socks5Client::new(credentials(b"a", b"b"));
        let server = Socks5Server::new(credentials(b"a", b"b"));
        let outcome = run(client, server, target.clone(), 65535);
        assert!(outcome.client.unwrap().is_empty());
        assert_eq!(outcome.connected_to, Some((target, 65535)));
    }
}
