use bore_core::client::{ClientAction, ClientFailure, ClientPhase, ClientSession};
use bore_core::fault::Fault;
use bore_core::codec::Message;
use bore_core::pairing::PairingTable;
use bore_core::ports::PortRegistry;
use bore_core::relay::{Relay, RelayHalf};
use bore_core::server::{
    accept_data_connection, Action, Phase, ServerSession, ServerTiming,
};

const TIMING: ServerTiming = ServerTiming {
    heartbeat_ms: 500,
    liveness_timeout_ms: 3_000,
    pairing_ttl_ms: 10_000,
};

fn only_send(mut acts: Vec<Action>) -> Message {
    assert_eq!(acts.len(), 1);
    match acts.remove(0) {
        Action::Send(m) => m,
        other => panic!("expected a send, got {:?}", other),
    }
}

#[test]
fn tunnel_end_to_end_without_secret() {
    // Server with minimum port 1024; client asks for "any".
    let mut reg = PortRegistry::new(1024);
    let mut pairings = PairingTable::new();
    let (mut server, challenge) = ServerSession::open(1, None, 555, 0);
    assert!(challenge.is_none());
    let (mut client, mut acts) = ClientSession::start(None, 0, 0);

    // Client speaks first: Hello(0).
    assert_eq!(acts.len(), 1);
    let hello = match acts.remove(0) {
        ClientAction::Send(m) => m,
        other => panic!("expected a send, got {:?}", other),
    };
    assert!(matches!(hello, Message::Hello(0)));

    // Server grants some port >= 1024 and opens the listener.
    let mut acts = server.handle_message(&mut reg, &mut pairings, &hello, 10);
    assert_eq!(acts.len(), 2);
    let granted = match acts.remove(0) {
        Action::OpenListener(p) => p,
        other => panic!("expected a listener, got {:?}", other),
    };
    assert!(granted >= 1024);
    assert!(reg.is_leased(granted));
    assert!(matches!(server.phase, Phase::Active));
    let ack = match acts.remove(0) {
        Action::Send(m) => m,
        other => panic!("expected a send, got {:?}", other),
    };

    // Client learns its public port.
    let acts = client.handle_message(&ack, 20);
    assert!(acts.is_empty());
    assert!(matches!(client.phase, ClientPhase::Active));
    assert_eq!(client.granted, granted);

    // An external connection arrives on the granted port (socket token 77).
    let acts = server.accept_public(&mut pairings, 77, 30);
    let connect = only_send(acts);
    let id = match connect {
        Message::Connect(id) => id,
        other => panic!("expected a connect, got {:?}", other),
    };

    // The client reacts by opening one data connection for exactly that id.
    let mut acts = client.handle_message(&connect, 40);
    assert_eq!(acts.len(), 1);
    match acts.remove(0) {
        ClientAction::OpenData(got) => assert_eq!(got, id),
        other => panic!("expected a data dial, got {:?}", other),
    }

    // Its first frame is Accept(id); the server pairs it with the waiting
    // public socket and the relay starts.
    let preamble = ClientSession::data_preamble(id);
    let socket = accept_data_connection(&mut pairings, &preamble).unwrap();
    assert_eq!(socket, 77);

    let mut relay = Relay::start();
    assert!(relay.public_open && relay.data_open);

    // Closing the external connection closes the local one too.
    let (close_public, close_data) = relay.finish(RelayHalf::Public);
    assert!(close_public && close_data);
    assert!(!relay.public_open && !relay.data_open);
    assert_eq!(relay.ended_by, Some(RelayHalf::Public));
}

#[test]
fn wrong_secret_never_gets_a_port() {
    // Server knows "s1"; client was configured with "s2".
    let mut reg = PortRegistry::new(1024);
    let mut pairings = PairingTable::new();
    let (mut server, challenge) =
        ServerSession::open(9, Some(b"s1".to_vec()), 4242, 0);
    let challenge = challenge.unwrap();
    assert!(matches!(challenge, Message::Challenge(4242)));

    let (mut client, acts) = ClientSession::start(Some(b"s2".to_vec()), 0, 0);
    assert!(acts.is_empty());

    // The client answers the challenge with its (wrong) tag, then Hello.
    let mut acts = client.handle_message(&challenge, 5);
    assert_eq!(acts.len(), 2);
    let authenticate = match acts.remove(0) {
        ClientAction::Send(m) => m,
        other => panic!("expected a send, got {:?}", other),
    };
    let hello = match acts.remove(0) {
        ClientAction::Send(m) => m,
        other => panic!("expected a send, got {:?}", other),
    };

    // The server refuses the tag: Error, then the channel closes.
    let acts = server.handle_message(&mut reg, &mut pairings, &authenticate, 6);
    assert!(matches!(server.phase, Phase::Closed));
    match &acts[0] {
        Action::Send(Message::Error(reason)) => {
            assert_eq!(reason, &b"access denied".to_vec())
        }
        other => panic!("expected the farewell error first, got {:?}", other),
    }
    assert!(acts.iter().any(|a| matches!(a, Action::CloseControl)));
    assert!(!acts
        .iter()
        .any(|a| matches!(a, Action::Send(Message::HelloAck(_)))));

    // The Hello that follows can never succeed: the session is closed and
    // stays silent; no port is ever leased.
    let acts = server.handle_message(&mut reg, &mut pairings, &hello, 7);
    assert!(acts.is_empty());
    assert_eq!(server.port, 0);
    assert_eq!(reg.leases.len(), 0);

    // The client sees the error and surfaces the server's reason.
    let error = Message::Error(b"access denied".to_vec());
    let acts = client.handle_message(&error, 8);
    assert!(matches!(&acts[0], ClientAction::CloseControl));
    assert!(matches!(client.phase, ClientPhase::Closed));
    match &client.failure {
        Some(ClientFailure::Remote(reason)) => {
            assert_eq!(reason, &b"access denied".to_vec())
        }
        other => panic!("expected the peer's reason, got {:?}", other.is_some()),
    }
    assert_eq!(client.granted, 0);
}

#[test]
fn correct_secret_authenticates_exactly_once() {
    let mut reg = PortRegistry::new(1024);
    let mut pairings = PairingTable::new();
    let (mut server, challenge) =
        ServerSession::open(3, Some(b"tunnel".to_vec()), 777, 0);
    let challenge = challenge.unwrap();

    let (mut client, _) = ClientSession::start(Some(b"tunnel".to_vec()), 2048, 0);
    let mut acts = client.handle_message(&challenge, 1);
    let authenticate = match acts.remove(0) {
        ClientAction::Send(m) => m,
        other => panic!("expected a send, got {:?}", other),
    };
    let hello = match acts.remove(0) {
        ClientAction::Send(m) => m,
        other => panic!("expected a send, got {:?}", other),
    };

    // The valid tag moves the session forward, silently.
    let acts = server.handle_message(&mut reg, &mut pairings, &authenticate, 2);
    assert!(acts.is_empty());
    assert!(matches!(server.phase, Phase::AwaitHello));

    // The same (replayed) tag cannot authenticate a second time: the
    // challenge was consumed.
    let mut replay_reg = PortRegistry::new(1024);
    let mut replay_pairings = PairingTable::new();
    let acts =
        server.handle_message(&mut replay_reg, &mut replay_pairings, &authenticate, 3);
    assert!(matches!(server.phase, Phase::Closed));
    assert!(acts.iter().any(|a| matches!(a, Action::CloseControl)));

    // Replayed against a fresh challenge (new nonce), the old tag fails too.
    let (mut server2, challenge2) =
        ServerSession::open(4, Some(b"tunnel".to_vec()), 778, 0);
    assert!(matches!(challenge2.unwrap(), Message::Challenge(778)));
    let mut reg2 = PortRegistry::new(1024);
    let mut pairings2 = PairingTable::new();
    let acts = server2.handle_message(&mut reg2, &mut pairings2, &authenticate, 4);
    assert!(matches!(server2.phase, Phase::Closed));
    assert!(acts.iter().any(|a| matches!(a, Action::CloseControl)));
    drop(hello);
}

#[test]
fn control_eof_releases_port_and_fails_pairings() {
    let mut reg = PortRegistry::new(1024);
    let mut pairings = PairingTable::new();
    let (mut server, _) = ServerSession::open(5, None, 0, 0);
    let acts = server.handle_message(&mut reg, &mut pairings, &Message::Hello(2000), 1);
    assert_eq!(acts.len(), 2);
    let port = match &acts[0] {
        Action::OpenListener(p) => *p,
        other => panic!("expected a listener, got {:?}", other),
    };

    // Two public connections wait for their data connections.
    let _ = server.accept_public(&mut pairings, 501, 2);
    let _ = server.accept_public(&mut pairings, 502, 2);
    assert_eq!(pairings.entries.len(), 2);

    // The control channel dies: the lease is released at once and both
    // waiting sockets are closed.
    let acts = server.handle_eof(&mut reg, &mut pairings);
    assert!(matches!(server.phase, Phase::Closed));
    assert!(!reg.is_leased(port));
    assert_eq!(pairings.entries.len(), 0);
    let closed: Vec<u64> = acts
        .iter()
        .filter_map(|a| match a {
            Action::ClosePublic(s) => Some(*s),
            _ => None,
        })
        .collect();
    assert!(closed.contains(&501));
    assert!(closed.contains(&502));
    assert!(acts.iter().any(|a| matches!(a, Action::CloseControl)));

    // The port is immediately re-leasable by a new session.
    let mut reg2 = reg;
    assert_eq!(reg2.grant(port, 6).unwrap(), port);
}

#[test]
fn heartbeats_and_liveness() {
    let mut reg = PortRegistry::new(1024);
    let mut pairings = PairingTable::new();
    let (mut server, _) = ServerSession::open(8, None, 0, 0);
    server.handle_message(&mut reg, &mut pairings, &Message::Hello(1500), 0);

    // Heartbeats are emitted on the interval, independent of traffic.
    let acts = server.handle_tick(&mut reg, &mut pairings, &TIMING, 499);
    assert!(acts.is_empty());
    let acts = server.handle_tick(&mut reg, &mut pairings, &TIMING, 500);
    assert_eq!(acts.len(), 1);
    assert!(matches!(&acts[0], Action::Send(Message::Heartbeat)));
    let acts = server.handle_tick(&mut reg, &mut pairings, &TIMING, 600);
    assert!(acts.is_empty());

    // Client-side heartbeats refresh the server's liveness clock.
    let acts = server.handle_message(&mut reg, &mut pairings, &Message::Heartbeat, 2_900);
    assert!(acts.is_empty());
    assert!(matches!(server.phase, Phase::Active));

    // Prolonged silence kills the session and frees the port.
    let acts = server.handle_tick(&mut reg, &mut pairings, &TIMING, 6_000);
    assert!(matches!(server.phase, Phase::Closed));
    assert!(acts.iter().any(|a| matches!(a, Action::CloseControl)));
    assert!(!reg.is_leased(1500));

    // The client detects a silently dead server the same way.
    let (mut client, _) = ClientSession::start(None, 0, 0);
    let acts = client.handle_tick(3_000, 2_999);
    assert!(acts.is_empty());
    let acts = client.handle_tick(3_000, 3_000);
    assert!(matches!(&acts[0], ClientAction::CloseControl));
    assert!(matches!(
        &client.failure,
        Some(ClientFailure::Local(bore_core::fault::Fault::SessionLost))
    ));
}

#[test]
fn data_connection_with_unknown_id_is_refused() {
    let mut pairings = PairingTable::new();
    let (server, _) = ServerSession::open(2, None, 0, 0);
    drop(server);
    assert!(accept_data_connection(&mut pairings, &Message::Accept(999)).is_none());
    // A data connection that opens with anything but Accept is refused too.
    assert!(accept_data_connection(&mut pairings, &Message::Heartbeat).is_none());
}

#[test]
fn expired_pairings_owe_their_sockets_closed() {
    let mut reg = PortRegistry::new(1024);
    let mut pairings = PairingTable::new();
    let (mut server, _) = ServerSession::open(11, None, 0, 0);
    server.handle_message(&mut reg, &mut pairings, &Message::Hello(0), 0);
    let _ = server.accept_public(&mut pairings, 900, 1_000);
    let _ = server.accept_public(&mut pairings, 901, 8_000);

    let acts = bore_core::server::expire_pairings(&mut pairings, 11_000, TIMING.pairing_ttl_ms);
    assert_eq!(acts.len(), 1);
    assert!(matches!(&acts[0], Action::ClosePublic(900)));
    assert_eq!(pairings.entries.len(), 1);
    assert_eq!(pairings.entries[0].socket, 901);
}

#[test]
fn reason_texts_are_exact() {
    assert_eq!(Fault::Malformed.reason_bytes(), b"malformed message".to_vec());
    assert_eq!(Fault::AuthRejected.reason_bytes(), b"access denied".to_vec());
    assert_eq!(Fault::PortUnavailable.reason_bytes(), b"port unavailable".to_vec());
    assert_eq!(Fault::PairingExpired.reason_bytes(), b"pairing expired".to_vec());
    assert_eq!(Fault::PeerUnreachable.reason_bytes(), b"peer unreachable".to_vec());
    assert_eq!(Fault::SessionLost.reason_bytes(), b"session lost".to_vec());
}

#[test]
fn protocol_violation_in_active_closes_the_session() {
    let mut reg = PortRegistry::new(1024);
    let mut pairings = PairingTable::new();
    let (mut server, _) = ServerSession::open(6, None, 0, 0);
    server.handle_message(&mut reg, &mut pairings, &Message::Hello(0), 0);
    assert!(matches!(server.phase, Phase::Active));
    let acts = server.handle_message(&mut reg, &mut pairings, &Message::Hello(0), 1);
    assert!(matches!(server.phase, Phase::Closed));
    assert!(acts
        .iter()
        .any(|a| matches!(a, Action::Send(Message::Error(_)))));
}
