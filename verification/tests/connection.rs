use chat_common::connection::client::ClientConnection;
use chat_common::connection::server::ServerConnection;
use chat_common::connection::{Action, Event, Notice, State};
use chat_common::error::ProtocolError;
use chat_common::frame::{encode_frame, FrameDecoder};
use chat_common::messages::client::{ClientMessageKind, GoodbyeMessage};
use chat_common::messages::handshake::{AuthRequest, AuthResponse};
use chat_common::messages::server::{GreetingMessage, ServerMessage, ServerMessageKind};

fn frame(text: &[u8]) -> Vec<u8> {
    encode_frame(text).unwrap()
}

fn sent(actions: &[Action]) -> Vec<u8> {
    let mut bytes = Vec::new();
    for action in actions {
        if let Action::Send(frame) = action {
            bytes.extend_from_slice(frame);
        }
    }
    bytes
}

fn payloads(bytes: &[u8]) -> Vec<Vec<u8>> {
    let mut decoder = FrameDecoder::new();
    decoder.push(bytes);
    let mut frames = Vec::new();
    while let Some(payload) = decoder.next_frame().unwrap() {
        frames.push(payload);
    }
    assert_eq!(decoder.finish(), Ok(()));
    frames
}

fn active_client(username: &str) -> ClientConnection {
    let mut client = ClientConnection::new(username.to_string());
    client.handle(Event::Connected);
    let accepted = AuthResponse::AuthResponse {
        result: Ok(username.to_string()),
    };
    client.handle(Event::Bytes(frame(&accepted.encode())));
    assert_eq!(client.state(), State::Active);
    client
}

fn active_server(motd: &str, username: &str) -> ServerConnection {
    let mut server = ServerConnection::new(motd.to_string());
    let request = AuthRequest::AuthRequest {
        username: username.to_string(),
    };
    server.handle(Event::Bytes(frame(&request.encode())));
    assert_eq!(server.state(), State::Active);
    server
}

#[test]
fn handshake_succeeds_and_the_greeting_follows() {
    let mut server = ServerConnection::new("Hello, world!".to_string());
    let mut client = ClientConnection::new("alice".to_string());
    assert_eq!(client.state(), State::Connecting);
    assert_eq!(server.state(), State::Handshaking);
    assert_eq!(client.username(), None);
    assert_eq!(server.username(), None);

    let from_client = client.handle(Event::Connected);
    assert_eq!(client.state(), State::Handshaking);
    assert_eq!(from_client.len(), 1);
    let request = sent(&from_client);
    assert_eq!(
        payloads(&request)
            .iter()
            .map(|p| AuthRequest::decode(p).unwrap())
            .collect::<Vec<_>>(),
        vec![AuthRequest::AuthRequest {
            username: "alice".into()
        }]
    );

    let from_server = server.handle(Event::Bytes(request));
    assert_eq!(server.state(), State::Active);
    assert_eq!(server.username(), Some(&"alice".to_string()));
    assert_eq!(from_server.len(), 3);
    assert_eq!(
        from_server[1],
        Action::Notify(Notice::Authenticated("alice".into()))
    );
    let answer = sent(&from_server);
    let frames = payloads(&answer);
    assert_eq!(frames.len(), 2);
    assert_eq!(
        AuthResponse::decode(&frames[0]),
        Ok(AuthResponse::AuthResponse {
            result: Ok("alice".into())
        })
    );
    assert_eq!(
        ServerMessage::decode(&frames[1]),
        Ok(ServerMessage::FromServer(ServerMessageKind::Greeting(
            GreetingMessage {
                motd: "Hello, world!".into()
            }
        )))
    );

    let shown = client.handle(Event::Bytes(answer));
    assert_eq!(
        shown,
        vec![
            Action::Notify(Notice::Authenticated("alice".into())),
            Action::Notify(Notice::Motd("Hello, world!".into())),
        ]
    );
    assert_eq!(client.state(), State::Active);
    assert_eq!(client.username(), Some(&"alice".to_string()));
    assert_eq!(client.error(), None);
    assert_eq!(server.error(), None);
}

#[test]
fn goodbye_ends_the_session_on_both_sides() {
    let mut server = active_server("Hello, world!", "alice");
    let mut client = active_client("alice");

    let from_client = client.handle(Event::Quit(Some("bye".into())));
    assert_eq!(client.state(), State::Closing);
    assert_eq!(from_client.len(), 2);
    assert_eq!(from_client[1], Action::Close);
    let farewell = sent(&from_client);
    assert_eq!(
        ClientMessageKind::decode(&payloads(&farewell)[0]),
        Ok(ClientMessageKind::Goodbye(GoodbyeMessage {
            reason: Some("bye".into())
        }))
    );

    let from_server = server.handle(Event::Bytes(farewell));
    assert_eq!(
        from_server,
        vec![
            Action::Notify(Notice::Disconnected(Some("bye".into()))),
            Action::Close,
        ]
    );
    assert!(sent(&from_server).is_empty());
    assert_eq!(server.state(), State::Closing);

    assert!(server.handle(Event::TransportClosed).is_empty());
    assert!(client.handle(Event::TransportClosed).is_empty());
    assert_eq!(server.state(), State::Closed);
    assert_eq!(client.state(), State::Closed);
    assert_eq!(server.error(), None);
    assert_eq!(client.error(), None);
    assert_eq!(server.username(), Some(&"alice".to_string()));
    assert_eq!(client.username(), Some(&"alice".to_string()));
}

#[test]
fn goodbye_without_reason_is_noted_without_reason() {
    let mut server = active_server("hi", "bob");
    let farewell = ClientMessageKind::Goodbye(GoodbyeMessage { reason: None });
    assert_eq!(
        server.handle(Event::Bytes(frame(&farewell.encode()))),
        vec![Action::Notify(Notice::Disconnected(None)), Action::Close]
    );
    assert_eq!(server.state(), State::Closing);
    assert!(server.handle(Event::EndOfStream).is_empty());
    assert_eq!(server.state(), State::Closed);
    assert_eq!(server.error(), None);
}

#[test]
fn idle_timeout_says_goodbye_timed_out() {
    let mut client = active_client("alice");
    let actions = client.handle(Event::IdleTimeout);
    let expected = frame(br#"{"kind":"goodbye","reason":"timed out"}"#);
    assert_eq!(actions, vec![Action::Send(expected.clone()), Action::Close]);
    assert_eq!(
        ClientMessageKind::decode(&payloads(&expected)[0]),
        Ok(ClientMessageKind::Goodbye(GoodbyeMessage {
            reason: Some("timed out".into())
        }))
    );
    assert_eq!(client.state(), State::Closing);
    assert!(client.handle(Event::Bytes(frame(b"ignored"))).is_empty());
    assert!(client.handle(Event::IdleTimeout).is_empty());
    assert_eq!(client.state(), State::Closing);
    assert!(client.handle(Event::TransportClosed).is_empty());
    assert_eq!(client.state(), State::Closed);
    assert_eq!(client.error(), None);
}

#[test]
fn idle_timer_does_nothing_before_the_session_is_active() {
    let mut client = ClientConnection::new("alice".to_string());
    assert!(client.handle(Event::IdleTimeout).is_empty());
    assert_eq!(client.state(), State::Connecting);
    client.handle(Event::Connected);
    assert!(client.handle(Event::IdleTimeout).is_empty());
    assert!(client.handle(Event::Quit(None)).is_empty());
    assert_eq!(client.state(), State::Handshaking);
}

#[test]
fn close_during_handshake_is_unexpected_not_a_refusal() {
    let mut client = ClientConnection::new("alice".to_string());
    client.handle(Event::Connected);
    assert_eq!(client.handle(Event::EndOfStream), vec![Action::Close]);
    assert_eq!(client.state(), State::Closed);
    assert_eq!(client.error(), Some(&ProtocolError::UnexpectedClose));
    assert_eq!(client.username(), None);

    let mut server = ServerConnection::new("hi".to_string());
    assert_eq!(server.handle(Event::EndOfStream), vec![Action::Close]);
    assert_eq!(server.state(), State::Closed);
    assert_eq!(server.error(), Some(&ProtocolError::UnexpectedClose));
}

#[test]
fn refusal_is_a_rejected_handshake_with_its_reason() {
    let mut client = ClientConnection::new("alice".to_string());
    client.handle(Event::Connected);
    let refused = AuthResponse::AuthResponse {
        result: Err("Invalid username.".into()),
    };
    assert_eq!(
        client.handle(Event::Bytes(frame(&refused.encode()))),
        vec![Action::Close]
    );
    assert_eq!(client.state(), State::Closed);
    assert_eq!(
        client.error(),
        Some(&ProtocolError::HandshakeRejected("Invalid username.".into()))
    );
    assert_eq!(client.username(), None);
}

#[test]
fn server_may_settle_on_another_spelling_of_the_name() {
    let mut client = ClientConnection::new("Alice ".to_string());
    client.handle(Event::Connected);
    let accepted = AuthResponse::AuthResponse {
        result: Ok("alice".into()),
    };
    assert_eq!(
        client.on_response(Ok(accepted)),
        vec![Action::Notify(Notice::Authenticated("alice".into()))]
    );
    assert_eq!(client.username(), Some(&"alice".to_string()));
}

#[test]
fn anything_but_a_response_fails_the_handshake() {
    for (text, error) in [
        (&br#"{"kind":"greeting","motd":"hi"}"#[..], ProtocolError::Schema),
        (&br#"{"kind":"auth_request","username":"x"}"#[..], ProtocolError::Schema),
        (&br#"{"kind":"nonsense"}"#[..], ProtocolError::Schema),
        (&b"[1,2]"[..], ProtocolError::Schema),
        (&b"not json"[..], ProtocolError::Framing),
        (&b""[..], ProtocolError::Framing),
    ] {
        let mut client = ClientConnection::new("alice".to_string());
        client.handle(Event::Connected);
        assert_eq!(client.handle(Event::Bytes(frame(text))), vec![Action::Close]);
        assert_eq!(client.state(), State::Closed);
        assert_eq!(client.error(), Some(&error));
        assert_eq!(client.username(), None);
    }
}

#[test]
fn anything_but_a_request_fails_the_server_handshake() {
    for (text, error) in [
        (&br#"{"kind":"goodbye"}"#[..], ProtocolError::Schema),
        (&br#"{"kind":"auth_request"}"#[..], ProtocolError::Schema),
        (&br#"{"kind":"auth_response","Ok":"x"}"#[..], ProtocolError::Schema),
        (&b"\"auth_request\""[..], ProtocolError::Schema),
        (&b"{"[..], ProtocolError::Framing),
    ] {
        let mut server = ServerConnection::new("hi".to_string());
        assert_eq!(server.handle(Event::Bytes(frame(text))), vec![Action::Close]);
        assert_eq!(server.state(), State::Closed);
        assert_eq!(server.error(), Some(&error));
        assert_eq!(server.username(), None);
    }
}

#[test]
fn second_request_on_an_active_connection_is_a_violation() {
    let mut server = active_server("hi", "alice");
    let again = AuthRequest::AuthRequest {
        username: "mallory".into(),
    };
    assert_eq!(
        server.handle(Event::Bytes(frame(&again.encode()))),
        vec![Action::Close]
    );
    assert_eq!(server.state(), State::Closed);
    assert_eq!(server.error(), Some(&ProtocolError::Schema));
    assert_eq!(server.username(), Some(&"alice".to_string()));
}

#[test]
fn forwarded_message_is_not_expected_by_the_client() {
    let mut client = active_client("alice");
    let forwarded = ServerMessage::FromClient {
        source: "bob".into(),
        content: ClientMessageKind::Goodbye(GoodbyeMessage { reason: None }),
    };
    assert_eq!(
        client.handle(Event::Bytes(frame(&forwarded.encode()))),
        vec![Action::Close]
    );
    assert_eq!(client.state(), State::Closed);
    assert_eq!(client.error(), Some(&ProtocolError::Schema));
}

#[test]
fn greeting_is_shown_and_the_session_goes_on() {
    let mut client = active_client("alice");
    let greeting = ServerMessage::FromServer(ServerMessageKind::Greeting(GreetingMessage {
        motd: "one".into(),
    }));
    let mut bytes = frame(&greeting.encode());
    bytes.extend(frame(br#"{"kind":"greeting","motd":"two"}"#));
    assert_eq!(
        client.handle(Event::Bytes(bytes)),
        vec![
            Action::Notify(Notice::Motd("one".into())),
            Action::Notify(Notice::Motd("two".into())),
        ]
    );
    assert_eq!(client.state(), State::Active);
}

#[test]
fn end_of_stream_on_an_active_client_is_a_quiet_end() {
    let mut client = active_client("alice");
    assert_eq!(client.handle(Event::EndOfStream), vec![Action::Close]);
    assert_eq!(client.state(), State::Closed);
    assert_eq!(client.error(), None);
}

#[test]
fn end_of_stream_on_an_active_server_is_unexpected() {
    let mut server = active_server("hi", "alice");
    assert_eq!(server.handle(Event::EndOfStream), vec![Action::Close]);
    assert_eq!(server.state(), State::Closed);
    assert_eq!(server.error(), Some(&ProtocolError::UnexpectedClose));
}

#[test]
fn stream_that_ends_inside_a_frame_is_a_framing_error() {
    let greeting = frame(br#"{"kind":"greeting","motd":"hi"}"#);
    for cut in 1..greeting.len() {
        let mut client = active_client("alice");
        assert!(client.handle(Event::Bytes(greeting[..cut].to_vec())).is_empty());
        assert_eq!(client.handle(Event::EndOfStream), vec![Action::Close]);
        assert_eq!(client.state(), State::Closed);
        assert_eq!(client.error(), Some(&ProtocolError::Framing));
    }
    let mut client = ClientConnection::new("alice".to_string());
    client.handle(Event::Connected);
    client.handle(Event::Bytes(vec![0, 0, 0, 40, b'{']));
    assert_eq!(client.handle(Event::EndOfStream), vec![Action::Close]);
    assert_eq!(client.error(), Some(&ProtocolError::Framing));

    let mut server = active_server("hi", "alice");
    server.handle(Event::Bytes(vec![0, 0]));
    assert_eq!(server.handle(Event::EndOfStream), vec![Action::Close]);
    assert_eq!(server.error(), Some(&ProtocolError::Framing));
}

#[test]
fn oversized_length_prefix_closes_the_connection() {
    let mut server = ServerConnection::new("hi".to_string());
    assert_eq!(
        server.handle(Event::Bytes(vec![0x7f, 0xff, 0xff, 0xff])),
        vec![Action::Close]
    );
    assert_eq!(server.state(), State::Closed);
    assert_eq!(server.error(), Some(&ProtocolError::Framing));

    let mut client = active_client("alice");
    let mut bytes = frame(br#"{"kind":"greeting","motd":"hi"}"#);
    bytes.extend_from_slice(&[0x00, 0x80, 0x00, 0x01, 1, 2, 3]);
    assert_eq!(
        client.handle(Event::Bytes(bytes)),
        vec![Action::Notify(Notice::Motd("hi".into())), Action::Close]
    );
    assert_eq!(client.error(), Some(&ProtocolError::Framing));
}

#[test]
fn bytes_may_arrive_one_at_a_time() {
    let mut server = ServerConnection::new("Hello, world!".to_string());
    let mut client = ClientConnection::new("alice".to_string());
    let request = sent(&client.handle(Event::Connected));
    let mut answer = Vec::new();
    for byte in request {
        answer.extend(sent(&server.handle(Event::Bytes(vec![byte]))));
    }
    assert_eq!(server.state(), State::Active);
    let mut shown = Vec::new();
    for byte in answer {
        shown.extend(client.handle(Event::Bytes(vec![byte])));
    }
    assert_eq!(
        shown,
        vec![
            Action::Notify(Notice::Authenticated("alice".into())),
            Action::Notify(Notice::Motd("Hello, world!".into())),
        ]
    );
    assert_eq!(client.state(), State::Active);
}

#[test]
fn request_and_farewell_in_one_read_are_taken_in_order() {
    let mut server = ServerConnection::new("hi".to_string());
    let mut bytes = frame(br#"{"kind":"auth_request","username":"carol"}"#);
    bytes.extend(frame(br#"{"kind":"goodbye","reason":"short visit"}"#));
    bytes.extend(frame(br#"{"kind":"goodbye","reason":"never read"}"#));
    let actions = server.handle(Event::Bytes(bytes));
    assert_eq!(actions.len(), 5);
    assert_eq!(
        &actions[3..],
        &[
            Action::Notify(Notice::Disconnected(Some("short visit".into()))),
            Action::Close,
        ]
    );
    assert_eq!(payloads(&sent(&actions)).len(), 2);
    assert_eq!(server.state(), State::Closing);
    assert_eq!(server.username(), Some(&"carol".to_string()));
}

#[test]
fn closed_connection_stays_closed() {
    let mut client = ClientConnection::new("alice".to_string());
    client.handle(Event::Connected);
    client.handle(Event::EndOfStream);
    let mut server = ServerConnection::new("hi".to_string());
    server.handle(Event::EndOfStream);
    for event in [
        Event::Connected,
        Event::Bytes(frame(br#"{"kind":"auth_response","Ok":"alice"}"#)),
        Event::Bytes(frame(br#"{"kind":"auth_request","username":"alice"}"#)),
        Event::EndOfStream,
        Event::IdleTimeout,
        Event::Quit(Some("bye".into())),
        Event::TransportFailed,
        Event::TransportClosed,
    ] {
        assert!(client.handle(event.clone()).is_empty());
        assert_eq!(client.state(), State::Closed);
        assert_eq!(client.error(), Some(&ProtocolError::UnexpectedClose));
        assert!(server.handle(event).is_empty());
        assert_eq!(server.state(), State::Closed);
        assert_eq!(server.error(), Some(&ProtocolError::UnexpectedClose));
    }
}

#[test]
fn transport_failure_closes_with_a_transport_error() {
    let mut client = ClientConnection::new("alice".to_string());
    assert!(client.handle(Event::TransportFailed).is_empty());
    assert_eq!(client.state(), State::Closed);
    assert_eq!(client.error(), Some(&ProtocolError::Transport));

    let mut client = ClientConnection::new("alice".to_string());
    client.handle(Event::Connected);
    assert_eq!(client.handle(Event::TransportFailed), vec![Action::Close]);
    assert_eq!(client.error(), Some(&ProtocolError::Transport));

    let mut client = active_client("alice");
    assert_eq!(client.handle(Event::TransportFailed), vec![Action::Close]);
    assert_eq!(client.error(), Some(&ProtocolError::Transport));

    let mut client = active_client("alice");
    client.handle(Event::IdleTimeout);
    assert!(client.handle(Event::TransportFailed).is_empty());
    assert_eq!(client.state(), State::Closed);
    assert_eq!(client.error(), None);

    let mut server = ServerConnection::new("hi".to_string());
    assert_eq!(server.handle(Event::TransportFailed), vec![Action::Close]);
    assert_eq!(server.state(), State::Closed);
    assert_eq!(server.error(), Some(&ProtocolError::Transport));
}

#[test]
fn events_of_the_client_leave_the_server_unmoved() {
    let mut server = active_server("hi", "alice");
    assert!(server.handle(Event::Connected).is_empty());
    assert!(server.handle(Event::IdleTimeout).is_empty());
    assert!(server.handle(Event::Quit(None)).is_empty());
    assert!(server.handle(Event::TransportClosed).is_empty());
    assert_eq!(server.state(), State::Active);
}

#[test]
fn events_out_of_turn_change_nothing() {
    let mut client = ClientConnection::new("alice".to_string());
    assert!(client.handle(Event::Bytes(frame(b"{}"))).is_empty());
    assert!(client.handle(Event::EndOfStream).is_empty());
    assert!(client.handle(Event::TransportClosed).is_empty());
    assert!(client.on_frame(b"{}").is_empty());
    assert!(client
        .on_response(Ok(AuthResponse::AuthResponse {
            result: Ok("alice".into())
        }))
        .is_empty());
    assert!(client.on_message(Err(ProtocolError::Schema)).is_empty());
    assert_eq!(client.state(), State::Connecting);
    assert_eq!(client.error(), None);
    client.handle(Event::Connected);
    assert!(client.handle(Event::Connected).is_empty());
    assert!(client.on_message(Err(ProtocolError::Schema)).is_empty());
    assert_eq!(client.state(), State::Handshaking);

    let mut server = ServerConnection::new("hi".to_string());
    assert!(server
        .on_message(Ok(ClientMessageKind::Goodbye(GoodbyeMessage { reason: None })))
        .is_empty());
    assert_eq!(server.state(), State::Handshaking);
    let mut server = active_server("hi", "alice");
    assert!(server
        .on_request(Ok(AuthRequest::AuthRequest {
            username: "eve".into()
        }))
        .is_empty());
    assert_eq!(server.username(), Some(&"alice".to_string()));
}

#[test]
fn steps_on_typed_messages_match_steps_on_frames() {
    let mut by_frame = ServerConnection::new("hi".to_string());
    let mut by_value = ServerConnection::new("hi".to_string());
    let request = AuthRequest::AuthRequest {
        username: "dave".into(),
    };
    assert_eq!(
        by_frame.on_frame(&request.encode()),
        by_value.on_request(Ok(request))
    );
    assert_eq!(by_frame.state(), by_value.state());
    let farewell = ClientMessageKind::Goodbye(GoodbyeMessage {
        reason: Some("done".into()),
    });
    assert_eq!(
        by_frame.on_frame(&farewell.encode()),
        by_value.on_message(Ok(farewell))
    );
    assert_eq!(by_frame.state(), State::Closing);
    assert_eq!(by_value.state(), State::Closing);

    let mut client = active_client("alice");
    assert_eq!(
        client.on_message(Err(ProtocolError::Framing)),
        vec![Action::Close]
    );
    assert_eq!(client.error(), Some(&ProtocolError::Framing));
}

#[test]
fn name_too_long_for_a_frame_cannot_be_requested() {
    let mut client = ClientConnection::new("x".repeat(8 * 1024 * 1024));
    assert_eq!(client.handle(Event::Connected), vec![Action::Close]);
    assert_eq!(client.state(), State::Closed);
    assert_eq!(client.error(), Some(&ProtocolError::Framing));
}

#[test]
fn greeting_too_long_for_a_frame_fails_after_the_answer() {
    let mut server = ServerConnection::new("m".repeat(8 * 1024 * 1024));
    let actions = server.handle(Event::Bytes(frame(
        br#"{"kind":"auth_request","username":"alice"}"#,
    )));
    assert_eq!(actions.len(), 3);
    assert_eq!(
        actions[0],
        Action::Send(frame(br#"{"kind":"auth_response","Ok":"alice"}"#))
    );
    assert_eq!(
        actions[1],
        Action::Notify(Notice::Authenticated("alice".into()))
    );
    assert_eq!(actions[2], Action::Close);
    assert_eq!(server.state(), State::Closed);
    assert_eq!(server.error(), Some(&ProtocolError::Framing));
    assert_eq!(server.username(), Some(&"alice".to_string()));
}
