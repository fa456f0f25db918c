use file_share::daemon::daemon::handle_daemon_message;
use file_share::daemon::protocol::DaemonCommand;
use file_share::network::protocol::{Request, Response};
use file_share::network::server::Server;
use file_share::network::session::{
    first_chunk_index, needs_exclusive, SessionAction, SessionEvent, SessionState,
};
use file_share::settings::config::CHUNK_SIZE;

fn message(request: Request) -> SessionEvent {
    SessionEvent::Message(request)
}

fn listed(server: &mut Server) -> Vec<String> {
    match server.handle_client(SessionState::Ready, message(Request::List)) {
        (SessionState::Ready, SessionAction::Send(Response::List(mut names))) => {
            names.sort();
            names
        }
        other => panic!("unexpected step {:?}", other),
    }
}

#[test]
fn chunk_size_is_64_kib() {
    assert_eq!(CHUNK_SIZE, 64 * 1024);
}

#[test]
fn wrong_password_is_turned_away() {
    let mut server = Server::new(Some("y".to_string()));
    let step = server
        .handle_client(SessionState::AwaitingAuth, message(Request::Auth(Some("x".to_string()))));
    assert_eq!(step, (SessionState::Closed, SessionAction::SendAndClose(Response::AuthErr)));
}

#[test]
fn no_password_matches_no_password() {
    let mut server = Server::new(None);
    let step = server.handle_client(SessionState::AwaitingAuth, message(Request::Auth(None)));
    assert_eq!(step, (SessionState::Ready, SessionAction::Send(Response::AuthOk)));
}

#[test]
fn right_password_is_let_in() {
    let mut server = Server::new(Some("secret".to_string()));
    let step = server.handle_client(
        SessionState::AwaitingAuth,
        message(Request::Auth(Some("secret".to_string()))),
    );
    assert_eq!(step, (SessionState::Ready, SessionAction::Send(Response::AuthOk)));
}

#[test]
fn password_must_be_sent_where_one_is_configured() {
    let mut server = Server::new(Some("secret".to_string()));
    let step = server.handle_client(SessionState::AwaitingAuth, message(Request::Auth(None)));
    assert_eq!(step, (SessionState::Closed, SessionAction::SendAndClose(Response::AuthErr)));
    let mut open = Server::new(None);
    let step = open
        .handle_client(SessionState::AwaitingAuth, message(Request::Auth(Some("x".to_string()))));
    assert_eq!(step, (SessionState::Closed, SessionAction::SendAndClose(Response::AuthErr)));
}

#[test]
fn password_matches_only_the_identical_value() {
    let server = Server::new(Some("abc".to_string()));
    assert!(server.password_matches(&Some("abc".to_string())));
    assert!(!server.password_matches(&Some("abd".to_string())));
    assert!(!server.password_matches(&Some("ABC".to_string())));
    assert!(!server.password_matches(&Some("".to_string())));
    assert!(!server.password_matches(&None));
}

#[test]
fn anything_but_auth_first_is_turned_away() {
    let mut server = Server::new(None);
    for request in [Request::List, Request::Quit, Request::Ack { index: 0 }] {
        let step = server.handle_client(SessionState::AwaitingAuth, message(request));
        assert_eq!(step, (SessionState::Closed, SessionAction::SendAndClose(Response::AuthErr)));
    }
}

#[test]
fn failure_before_auth_closes_silently() {
    let mut server = Server::new(None);
    let step = server.handle_client(SessionState::AwaitingAuth, SessionEvent::Failed);
    assert_eq!(step, (SessionState::Closed, SessionAction::Close));
}

#[test]
fn quit_says_bye_and_closes() {
    let mut server = Server::new(None);
    let step = server.handle_client(SessionState::Ready, message(Request::Quit));
    assert_eq!(step, (SessionState::Closed, SessionAction::SendAndClose(Response::Bye)));
}

#[test]
fn disconnect_when_ready_closes_silently() {
    let mut server = Server::new(None);
    let step = server.handle_client(SessionState::Ready, SessionEvent::Failed);
    assert_eq!(step, (SessionState::Closed, SessionAction::Close));
}

#[test]
fn unexpected_request_when_ready_closes() {
    let mut server = Server::new(None);
    let step = server.handle_client(SessionState::Ready, message(Request::Ack { index: 1 }));
    assert_eq!(step, (SessionState::Closed, SessionAction::Close));
    let step = server.handle_client(SessionState::Ready, message(Request::Auth(None)));
    assert_eq!(step, (SessionState::Closed, SessionAction::Close));
}

#[test]
fn download_of_unknown_name_reports_and_stays_ready() {
    let mut server = Server::new(None);
    let step = server.handle_client(
        SessionState::Ready,
        message(Request::Download { name: "nope".to_string(), offset: 0 }),
    );
    assert_eq!(
        step,
        (SessionState::Ready, SessionAction::Send(Response::Error("File not found".to_string())))
    );
}

#[test]
fn unopenable_file_is_pruned_and_reported() {
    let mut server = Server::new(None);
    server.add_file("a".to_string(), "/missing/a".to_string());
    server.add_file("b".to_string(), "/b".to_string());
    let (state, action) = server.handle_client(
        SessionState::Ready,
        message(Request::Download { name: "a".to_string(), offset: 0 }),
    );
    assert_eq!(state, SessionState::Opening { name: "a".to_string(), offset: 0 });
    assert_eq!(action, SessionAction::OpenFile { path: "/missing/a".to_string() });
    let step = server.handle_client(state, SessionEvent::OpenFailed);
    assert_eq!(
        step,
        (
            SessionState::Ready,
            SessionAction::Send(Response::Error("Error opening file".to_string()))
        )
    );
    assert_eq!(listed(&mut server), vec!["b".to_string()]);
}

#[test]
fn first_chunk_index_is_offset_over_chunk_size() {
    assert_eq!(first_chunk_index(0), 0);
    assert_eq!(first_chunk_index(65535), 0);
    assert_eq!(first_chunk_index(65536), 1);
    assert_eq!(first_chunk_index(3 * 65536), 3);
    assert_eq!(first_chunk_index(3 * 65536 + 17), 3);
    assert_eq!(first_chunk_index(u64::MAX), 281474976710655);
}

#[test]
fn resumed_download_reports_whole_file_and_starts_at_chunk_three() {
    let chunk = CHUNK_SIZE as u64;
    let mut server = Server::new(None);
    server.add_file("big".to_string(), "/data/big".to_string());
    let (state, action) = server.handle_client(
        SessionState::Ready,
        message(Request::Download { name: "big".to_string(), offset: 3 * chunk }),
    );
    assert_eq!(action, SessionAction::OpenFile { path: "/data/big".to_string() });
    let (state, action) = server.handle_client(
        state,
        SessionEvent::Opened { size: 10 * chunk, hash: "feedface".to_string() },
    );
    assert_eq!(state, SessionState::Reading { index: 3 });
    assert_eq!(
        action,
        SessionAction::StartTransfer {
            info: Response::FileInfo {
                name: "big".to_string(),
                size: 10 * chunk,
                hash: "feedface".to_string(),
                chunk_size: 65536,
            },
            offset: 3 * chunk,
        }
    );
    let block = vec![42u8; CHUNK_SIZE];
    let (state, action) = server.handle_client(state, SessionEvent::Block(block.clone()));
    assert_eq!(state, SessionState::AwaitingAck { index: 3 });
    assert_eq!(action, SessionAction::SendChunk(Response::Chunck { index: 3, data: block }));
}

#[test]
fn acknowledged_chunks_count_up_to_done() {
    let mut server = Server::new(None);
    let mut state = SessionState::Reading { index: 3 };
    for index in 3..10u64 {
        let block = vec![index as u8; 5];
        let (next, action) = server.handle_client(state, SessionEvent::Block(block.clone()));
        assert_eq!(next, SessionState::AwaitingAck { index });
        assert_eq!(action, SessionAction::SendChunk(Response::Chunck { index, data: block }));
        let (next, action) = server.handle_client(next, message(Request::Ack { index }));
        assert_eq!(next, SessionState::Reading { index: index + 1 });
        assert_eq!(action, SessionAction::ReadBlock);
        state = next;
    }
    let step = server.handle_client(state, SessionEvent::Block(Vec::new()));
    assert_eq!(step, (SessionState::Ready, SessionAction::Finish(Response::Done)));
}

#[test]
fn wrong_ack_ends_the_transfer_and_keeps_the_connection() {
    let mut server = Server::new(None);
    for acked in [0u64, 4, 6, u64::MAX] {
        let step = server
            .handle_client(SessionState::AwaitingAck { index: 5 }, message(Request::Ack { index: acked }));
        assert_eq!(step, (SessionState::Ready, SessionAction::Finish(Response::Done)));
    }
    let step = server.handle_client(SessionState::Ready, message(Request::List));
    assert_eq!(step, (SessionState::Ready, SessionAction::Send(Response::List(Vec::new()))));
}

#[test]
fn anything_but_an_ack_ends_the_transfer() {
    let mut server = Server::new(None);
    for request in [Request::List, Request::Quit, Request::Auth(None)] {
        let step = server.handle_client(SessionState::AwaitingAck { index: 0 }, message(request));
        assert_eq!(step, (SessionState::Ready, SessionAction::Finish(Response::Done)));
    }
    let step = server.handle_client(SessionState::AwaitingAck { index: 0 }, SessionEvent::Failed);
    assert_eq!(step, (SessionState::Ready, SessionAction::Finish(Response::Done)));
}

#[test]
fn transfer_ends_where_no_next_index_exists() {
    let mut server = Server::new(None);
    let step = server.handle_client(
        SessionState::AwaitingAck { index: u64::MAX },
        message(Request::Ack { index: u64::MAX }),
    );
    assert_eq!(step, (SessionState::Ready, SessionAction::Finish(Response::Done)));
}

#[test]
fn file_failure_mid_transfer_closes() {
    let mut server = Server::new(None);
    let step = server.handle_client(SessionState::Reading { index: 2 }, SessionEvent::Failed);
    assert_eq!(step, (SessionState::Closed, SessionAction::Close));
    let step = server.handle_client(
        SessionState::Opening { name: "a".to_string(), offset: 0 },
        SessionEvent::Failed,
    );
    assert_eq!(step, (SessionState::Closed, SessionAction::Close));
}

#[test]
fn closed_stays_closed() {
    let mut server = Server::new(None);
    let step = server.handle_client(SessionState::Closed, message(Request::List));
    assert_eq!(step, (SessionState::Closed, SessionAction::Close));
}

#[test]
fn event_out_of_place_closes() {
    let mut server = Server::new(None);
    let step = server.handle_client(SessionState::Ready, SessionEvent::Block(vec![1]));
    assert_eq!(step, (SessionState::Closed, SessionAction::Close));
    let step = server.handle_client(SessionState::AwaitingAck { index: 1 }, SessionEvent::OpenFailed);
    assert_eq!(step, (SessionState::Closed, SessionAction::Close));
}

#[test]
fn control_add_and_delete_show_in_data_plane_list() {
    let mut server = Server::new(None);
    handle_daemon_message(
        &mut server,
        DaemonCommand::Add { path: "/tmp/a.bin".to_string(), name: None },
    );
    assert!(listed(&mut server).contains(&"a.bin".to_string()));
    let (streaming, _) = server.handle_client(
        SessionState::Ready,
        message(Request::Download { name: "a.bin".to_string(), offset: 0 }),
    );
    let (streaming, _) = server
        .handle_client(streaming, SessionEvent::Opened { size: 4, hash: "00".to_string() });
    handle_daemon_message(&mut server, DaemonCommand::Delete { name: "a.bin".to_string() });
    assert!(!listed(&mut server).contains(&"a.bin".to_string()));
    let (after, action) = server.handle_client(streaming, SessionEvent::Block(vec![1, 2, 3, 4]));
    assert_eq!(after, SessionState::AwaitingAck { index: 0 });
    assert_eq!(
        action,
        SessionAction::SendChunk(Response::Chunck { index: 0, data: vec![1, 2, 3, 4] })
    );
}

#[test]
fn only_a_failed_open_needs_the_server_to_itself() {
    let opening = SessionState::Opening { name: "a".to_string(), offset: 0 };
    assert!(needs_exclusive(&opening, &SessionEvent::OpenFailed));
    assert!(!needs_exclusive(&opening, &SessionEvent::Failed));
    assert!(!needs_exclusive(&opening, &SessionEvent::Opened { size: 1, hash: "h".to_string() }));
    assert!(!needs_exclusive(&SessionState::Ready, &SessionEvent::OpenFailed));
    assert!(!needs_exclusive(&SessionState::Ready, &message(Request::List)));
}

#[test]
fn shared_step_hands_back_a_failed_open() {
    let mut server = Server::new(None);
    server.add_file("a".to_string(), "/a".to_string());
    let opening = SessionState::Opening { name: "a".to_string(), offset: 7 };
    let step = server.handle_client_shared(opening.clone(), SessionEvent::OpenFailed);
    assert_eq!(step, Err((opening, SessionEvent::OpenFailed)));
    assert_eq!(server.lookup("a"), Some("/a".to_string()));
}

#[test]
fn shared_step_agrees_with_the_exclusive_one() {
    let mut server = Server::new(Some("pw".to_string()));
    server.add_file("a".to_string(), "/a".to_string());
    let cases = vec![
        (SessionState::AwaitingAuth, message(Request::Auth(Some("pw".to_string())))),
        (SessionState::AwaitingAuth, message(Request::Auth(None))),
        (SessionState::Ready, message(Request::List)),
        (SessionState::Ready, message(Request::Download { name: "a".to_string(), offset: 65536 })),
        (SessionState::Ready, message(Request::Download { name: "b".to_string(), offset: 0 })),
        (
            SessionState::Opening { name: "a".to_string(), offset: 65536 },
            SessionEvent::Opened { size: 9, hash: "h".to_string() },
        ),
        (SessionState::Reading { index: 1 }, SessionEvent::Block(vec![1, 2])),
        (SessionState::Reading { index: 1 }, SessionEvent::Block(Vec::new())),
        (SessionState::AwaitingAck { index: 1 }, message(Request::Ack { index: 1 })),
        (SessionState::AwaitingAck { index: 1 }, message(Request::Ack { index: 2 })),
        (SessionState::Closed, SessionEvent::Failed),
    ];
    for (state, event) in cases {
        let shared = server.handle_client_shared(state.clone(), event.clone());
        let exclusive = server.handle_client(state, event);
        assert_eq!(shared, Ok(exclusive));
    }
}
