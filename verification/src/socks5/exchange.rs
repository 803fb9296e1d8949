//! What a client session and a server session do to each other when every
//! byte that one sends reaches the other.

use vstd::prelude::*;
use crate::socks5::client::presented;
use crate::socks5::client::session::ClientEventView;
use crate::socks5::client::session::ClientModel;
use crate::socks5::client::session::ClientNextView;
use crate::socks5::client::ClientError;
use crate::socks5::proto::messages::auth::username_password::lemma_client_authentication_request_round_trip;
use crate::socks5::proto::messages::auth::username_password::lemma_server_response_round_trip;
use crate::socks5::proto::messages::auth::username_password::ServerResponse;
use crate::socks5::proto::messages::lemma_client_greeting_round_trip;
use crate::socks5::proto::messages::lemma_request_round_trip;
use crate::socks5::proto::messages::lemma_response_round_trip;
use crate::socks5::proto::messages::lemma_server_choice_round_trip;
use crate::socks5::proto::messages::ResponseView;
use crate::socks5::proto::messages::ServerChoice;
use crate::socks5::proto::AddressView;
use crate::socks5::proto::AuthenticationMethod;
use crate::socks5::proto::Reply;
use crate::socks5::proto::Status;
use crate::socks5::server::lemma_method_intersection;
use crate::socks5::server::selected_method;
use crate::socks5::server::session::ServerEventView;
use crate::socks5::server::session::ServerModel;
use crate::socks5::server::session::ServerNextView;
use crate::socks5::server::ServerError;

verus! {

/// A client and a server at the start of a session, with nothing received
/// yet, and a client that can put on the wire all that it may have to send
/// for the target `address` and `port`.
pub open spec fn fresh(client: ClientModel, server: ServerModel, address: AddressView, port: u16)
    -> bool {
    &&& client.state is Idle
    &&& client.inbound.len() == 0
    &&& server.state is Accepted
    &&& server.inbound.len() == 0
    &&& (ClientModel { address, port, ..client }).sendable()
}

/// The client and the server once the greeting and the choice have crossed.
pub open spec fn greeted(client: ClientModel, server: ServerModel, address: AddressView, port: u16)
    -> (ClientModel, ServerModel, Seq<u8>) {
    let (client_greeted, greeting) = client.connect_to_target(address, port);
    let (server_chosen, choice) = server.step(ServerEventView::Received(greeting.send));
    let (client_answered, answer) = client_greeted.step(ClientEventView::Received(choice.send));
    (client_answered, server_chosen, answer.send)
}

/// With no authentication selected, a `CONNECT` goes through: the server is
/// told to connect to the very target that the client asked for, and once
/// that connection is open the client finds its stream established and the
/// server relays, neither holding back a byte.
pub proof fn lemma_connect_without_authentication(
    client: ClientModel,
    server: ServerModel,
    address: AddressView,
    port: u16,
    bound: AddressView,
    bound_port: u16,
)
    requires
        fresh(client, server, address, port),
        bound.encodable(),
        selected_method(client.offered, server.supported).0
            == AuthenticationMethod::NO_AUTHENTICATION,
    ensures
        ({
            let (client_asked, server_chosen, request) = greeted(client, server, address, port);
            let (server_connecting, connect) = server_chosen.step(
                ServerEventView::Received(request),
            );
            let (server_relaying, reply) = server_connecting.step(
                ServerEventView::Connected(bound, bound_port),
            );
            let (client_done, done) = client_asked.step(ClientEventView::Received(reply.send));
            &&& connect.send.len() == 0
            &&& connect.next == ServerNextView::Connect(address, port)
            &&& reply.next == ServerNextView::Relay(Seq::empty())
            &&& server_relaying.state is Relaying
            &&& done.send.len() == 0
            &&& done.next == ClientNextView::Established(Seq::empty())
            &&& client_done.state is Established
        }),
{
    let aimed = ClientModel { address, port, ..client };
    let method = selected_method(client.offered, server.supported);
    lemma_method_intersection(client.offered, server.supported);
    let (client_greeted, greeting) = client.connect_to_target(address, port);
    lemma_client_greeting_round_trip(aimed.greeting(), Seq::empty());
    assert(server.inbound + greeting.send =~= aimed.greeting().wire() + Seq::<u8>::empty());
    let (server_chosen, choice) = server.step(ServerEventView::Received(greeting.send));
    assert(server_chosen.inbound =~= Seq::<u8>::empty());
    let chosen = ServerChoice { chosen_authentication_method: method };
    lemma_server_choice_round_trip(chosen, Seq::empty());
    assert(client_greeted.inbound + choice.send =~= chosen.spec_wire() + Seq::<u8>::empty());
    let (client_asked, asked) = client_greeted.step(ClientEventView::Received(choice.send));
    assert(client_asked.inbound =~= Seq::<u8>::empty());
    lemma_request_round_trip(aimed.request(), Seq::empty());
    assert(server_chosen.inbound + asked.send =~= aimed.request().wire() + Seq::<u8>::empty());
    let (server_connecting, connect) = server_chosen.step(ServerEventView::Received(asked.send));
    assert(server_connecting.inbound =~= Seq::<u8>::empty());
    let response = ResponseView { reply: Reply(Reply::SUCCESS), address: bound, port: bound_port };
    let (server_relaying, reply) = server_connecting.step(
        ServerEventView::Connected(bound, bound_port),
    );
    lemma_response_round_trip(response, Seq::empty());
    assert(client_asked.inbound + reply.send =~= response.wire() + Seq::<u8>::empty());
    let (client_done, done) = client_asked.step(ClientEventView::Received(reply.send));
    let read = client_asked.inbound + reply.send;
    assert(ResponseView::parse(read) == crate::codec::Parsed::complete(
        response,
        response.wire().len(),
    ));
    assert(read.skip(response.wire().len() as int) =~= Seq::<u8>::empty());
    assert(response.reply.is_success());
    assert(done.next =~~= ClientNextView::Established(Seq::empty()));
}

/// With username/password selected, the server accepts exactly the client
/// whose credentials are its own, byte for byte: that client goes on to its
/// request, and any other is told of the failure and both sessions end
/// with failed authentication.
pub proof fn lemma_username_password_exchange(
    client: ClientModel,
    server: ServerModel,
    address: AddressView,
    port: u16,
)
    requires
        fresh(client, server, address, port),
        selected_method(client.offered, server.supported).0
            == AuthenticationMethod::USERNAME_PASSWORD,
    ensures
        ({
            let (client_presenting, server_chosen, credentials) = greeted(
                client,
                server,
                address,
                port,
            );
            let (server_judged, verdict) = server_chosen.step(
                ServerEventView::Received(credentials),
            );
            let (client_told, told) = client_presenting.step(
                ClientEventView::Received(verdict.send),
            );
            let same = client.credentials.username == server.credentials.username
                && client.credentials.password == server.credentials.password;
            &&& credentials == presented(
                client.credentials.username,
                client.credentials.password,
            ).wire()
            &&& same ==> {
                &&& verdict.send == seq![1u8, 0u8]
                &&& server_judged.state is Authenticated
                &&& client_told.state is Requested
                &&& told.send == (ClientModel { address, port, ..client }).request().wire()
            }
            &&& !same ==> {
                &&& verdict.send == seq![1u8, 1u8]
                &&& verdict.next == ServerNextView::Finish(Err(ServerError::AuthenticationFailed))
                &&& server_judged.state is Rejected
                &&& told.send.len() == 0
                &&& told.next == ClientNextView::Fail(ClientError::AuthenticationFailed)
                &&& client_told.state is Closed
            }
        }),
{
    let aimed = ClientModel { address, port, ..client };
    let method = selected_method(client.offered, server.supported);
    lemma_method_intersection(client.offered, server.supported);
    let (client_greeted, greeting) = client.connect_to_target(address, port);
    lemma_client_greeting_round_trip(aimed.greeting(), Seq::empty());
    assert(server.inbound + greeting.send =~= aimed.greeting().wire() + Seq::<u8>::empty());
    let (server_chosen, choice) = server.step(ServerEventView::Received(greeting.send));
    assert(server_chosen.inbound =~= Seq::<u8>::empty());
    let chosen = ServerChoice { chosen_authentication_method: method };
    lemma_server_choice_round_trip(chosen, Seq::empty());
    assert(client_greeted.inbound + choice.send =~= chosen.spec_wire() + Seq::<u8>::empty());
    assert(client.offered.contains(
        AuthenticationMethod(AuthenticationMethod::USERNAME_PASSWORD),
    ));
    let (client_presenting, shown) = client_greeted.step(ClientEventView::Received(choice.send));
    assert(client_presenting.inbound =~= Seq::<u8>::empty());
    let own = presented(client.credentials.username, client.credentials.password);
    lemma_client_authentication_request_round_trip(own, Seq::empty());
    assert(server_chosen.inbound + shown.send =~= own.wire() + Seq::<u8>::empty());
    let (server_judged, verdict) = server_chosen.step(ServerEventView::Received(shown.send));
    assert(server_judged.inbound =~= Seq::<u8>::empty());
    let same = client.credentials.username == server.credentials.username
        && client.credentials.password == server.credentials.password;
    let status = if same {
        ServerResponse { status: Status(Status::SUCCESS) }
    } else {
        ServerResponse { status: Status(Status::FAILURE) }
    };
    lemma_server_response_round_trip(status, Seq::empty());
    assert(verdict.send == status.spec_wire());
    assert(status.spec_wire() =~= seq![1u8, status.status.0]);
    assert(client_presenting.inbound + verdict.send =~= status.spec_wire() + Seq::<u8>::empty());
    let (client_told, told) = client_presenting.step(ClientEventView::Received(verdict.send));
}

} // verus!
