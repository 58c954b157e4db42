use base64::Engine;
use filest::models::AppState;
use filest::ws_upload::{
    create_upload_session, handle_upload, ws_upload_handler, ClientMessage, Connection,
    ServerMessage, StreamSession, UploadAction, UploadEvent, Work, WsUploadQuery,
};
use std::collections::HashMap;

fn names(parts: &[&str]) -> Vec<String> {
    parts.iter().map(|s| s.to_string()).collect()
}

fn state() -> AppState {
    AppState {
        root_dir: names(&["srv", "files"]),
        username: "admin".to_string(),
        password: "admin123".to_string(),
    }
}

fn fresh(authenticated: bool) -> Connection {
    Connection { authenticated, session: None }
}

fn session(total: u64) -> StreamSession {
    StreamSession {
        upload_id: "id1".to_string(),
        filename: "a.bin".to_string(),
        target_path: names(&["srv", "files", "a.bin"]),
        temp_path: names(&["srv", "files", ".upload_id1.tmp"]),
        total_size: total,
        received_size: 0,
    }
}

fn open(total: u64) -> Connection {
    Connection { authenticated: true, session: Some(session(total)) }
}

fn text(message: ClientMessage) -> UploadEvent {
    UploadEvent::Text(message)
}

fn init_message() -> ClientMessage {
    ClientMessage::Init { filename: "a.bin".to_string(), size: 4, path: "/".to_string() }
}

fn error(code: &str, message: &str) -> ServerMessage {
    ServerMessage::Error { code: code.to_string(), message: message.to_string() }
}

fn reply(message: ServerMessage) -> UploadAction {
    UploadAction { discard: None, reply: Some(message), work: Work::Nothing, stop: false }
}

fn read_on() -> UploadAction {
    UploadAction { discard: None, reply: None, work: Work::Nothing, stop: false }
}

type Disk = HashMap<Vec<String>, Vec<u8>>;

// Runs a connection the way its owner does: feeds the frames, carries out
// each action on a disk held in memory, and collects what is sent.
fn run(conn: &mut Connection, disk: &mut Disk, frames: Vec<(UploadEvent, Vec<u8>)>) -> Vec<ServerMessage> {
    let state = state();
    let mut sent = Vec::new();
    for (frame, payload) in frames {
        let mut event = frame;
        loop {
            let action = handle_upload(&state, conn, event);
            if let Some(file) = &action.discard {
                disk.remove(file);
            }
            if let Some(message) = action.reply {
                sent.push(message);
            }
            let next = match action.work {
                Work::Nothing => None,
                Work::Open { filename, size, path } => {
                    match create_upload_session(&state.root_dir, &filename, size, &path, None) {
                        Ok(session) => {
                            disk.insert(session.temp_path.clone(), Vec::new());
                            Some(UploadEvent::Opened(session))
                        }
                        Err(why) => Some(UploadEvent::OpenFailed(why)),
                    }
                }
                Work::Append => {
                    let temp = conn.session.as_ref().unwrap().temp_path.clone();
                    disk.get_mut(&temp).unwrap().extend_from_slice(&payload);
                    Some(UploadEvent::Appended(payload.len() as u64))
                }
                Work::Finalize { temp_path, target_path } => {
                    let bytes = disk.remove(&temp_path).unwrap();
                    disk.insert(target_path, bytes);
                    Some(UploadEvent::Finalized)
                }
            };
            if action.stop {
                return sent;
            }
            match next {
                Some(e) => event = e,
                None => break,
            }
        }
    }
    sent
}

#[test]
fn end_to_end_two_frames_then_complete() {
    let mut conn = fresh(true);
    let mut disk = Disk::new();
    let sent = run(
        &mut conn,
        &mut disk,
        vec![
            (text(init_message()), vec![]),
            (UploadEvent::Binary, vec![1, 2]),
            (UploadEvent::Binary, vec![3, 4]),
            (text(ClientMessage::Complete), vec![]),
        ],
    );
    assert_eq!(sent.len(), 3);
    assert!(matches!(&sent[0], ServerMessage::InitOk { upload_id } if upload_id.len() == 36));
    assert_eq!(sent[1], ServerMessage::Progress { received: 4, total: 4 });
    assert_eq!(sent[2], ServerMessage::CompleteOk { path: "/a.bin".to_string(), size: 4 });
    assert_eq!(disk.len(), 1);
    assert_eq!(disk.get(&names(&["srv", "files", "a.bin"])).unwrap(), &vec![1, 2, 3, 4]);
    assert_eq!(conn.session, None);
}

#[test]
fn end_to_end_close_without_complete_removes_the_temp_file() {
    let mut conn = fresh(true);
    let mut disk = Disk::new();
    let sent = run(
        &mut conn,
        &mut disk,
        vec![
            (text(init_message()), vec![]),
            (UploadEvent::Binary, vec![1, 2]),
            (UploadEvent::Close, vec![]),
        ],
    );
    assert_eq!(sent.len(), 1);
    assert!(matches!(&sent[0], ServerMessage::InitOk { .. }));
    assert!(disk.is_empty());
    assert_eq!(conn.session, None);
}

#[test]
fn end_to_end_cancel_removes_the_temp_file() {
    let mut conn = fresh(true);
    let mut disk = Disk::new();
    run(
        &mut conn,
        &mut disk,
        vec![
            (text(init_message()), vec![]),
            (UploadEvent::Binary, vec![9]),
            (text(ClientMessage::Cancel), vec![]),
            (UploadEvent::Binary, vec![9]),
        ],
    );
    assert!(disk.is_empty());
}

#[test]
fn init_before_auth_is_answered_with_auth_required_and_asks_for_no_work() {
    let mut conn = fresh(false);
    let action = handle_upload(&state(), &mut conn, text(init_message()));
    assert_eq!(action, reply(ServerMessage::AuthRequired));
    assert_eq!(conn, fresh(false));
    let mut disk = Disk::new();
    let sent = run(&mut conn, &mut disk, vec![(text(init_message()), vec![])]);
    assert_eq!(sent, vec![ServerMessage::AuthRequired]);
    assert!(disk.is_empty());
}

#[test]
fn init_after_auth_asks_for_the_upload_to_be_opened() {
    let mut conn = fresh(true);
    let action = handle_upload(&state(), &mut conn, text(init_message()));
    assert_eq!(
        action,
        UploadAction {
            discard: None,
            reply: None,
            work: Work::Open { filename: "a.bin".to_string(), size: 4, path: "/".to_string() },
            stop: false,
        }
    );
    assert_eq!(conn, fresh(true));
}

#[test]
fn auth_with_the_account_is_accepted() {
    let mut conn = fresh(false);
    let auth = ClientMessage::Auth { username: "admin".to_string(), password: "admin123".to_string() };
    let action = handle_upload(&state(), &mut conn, text(auth));
    assert_eq!(action, reply(ServerMessage::AuthOk));
    assert!(conn.authenticated);
}

#[test]
fn auth_with_a_wrong_account_is_refused_and_may_be_tried_again() {
    let mut conn = fresh(false);
    for (u, p) in [("admin", "nope"), ("root", "admin123"), ("", ""), ("admin123", "admin")] {
        let auth = ClientMessage::Auth { username: u.to_string(), password: p.to_string() };
        let action = handle_upload(&state(), &mut conn, text(auth));
        assert_eq!(
            action,
            reply(ServerMessage::AuthFailed { message: "Invalid credentials".to_string() })
        );
        assert!(!conn.authenticated);
    }
    let auth = ClientMessage::Auth { username: "admin".to_string(), password: "admin123".to_string() };
    assert_eq!(handle_upload(&state(), &mut conn, text(auth)), reply(ServerMessage::AuthOk));
    assert!(conn.authenticated);
}

#[test]
fn a_wrong_account_does_not_undo_an_accepted_one() {
    let mut conn = fresh(true);
    let auth = ClientMessage::Auth { username: "x".to_string(), password: "y".to_string() };
    handle_upload(&state(), &mut conn, text(auth));
    assert!(conn.authenticated);
}

#[test]
fn binary_frame_before_auth_is_answered_with_auth_required() {
    let mut conn = fresh(false);
    let action = handle_upload(&state(), &mut conn, UploadEvent::Binary);
    assert_eq!(action, reply(ServerMessage::AuthRequired));
}

#[test]
fn binary_frame_before_init_is_an_error() {
    let mut conn = fresh(true);
    let action = handle_upload(&state(), &mut conn, UploadEvent::Binary);
    assert_eq!(action, reply(error("NO_SESSION", "Upload not initialized")));
    assert_eq!(conn, fresh(true));
}

#[test]
fn binary_frame_with_an_open_upload_is_appended() {
    let mut conn = open(10);
    let action = handle_upload(&state(), &mut conn, UploadEvent::Binary);
    assert_eq!(action, UploadAction { discard: None, reply: None, work: Work::Append, stop: false });
    assert_eq!(conn, open(10));
}

#[test]
fn malformed_text_is_an_error_that_keeps_the_connection() {
    let mut conn = open(10);
    let action =
        handle_upload(&state(), &mut conn, UploadEvent::Malformed("expected value".to_string()));
    assert_eq!(action, reply(error("INVALID_MESSAGE", "Invalid JSON: expected value")));
    assert_eq!(conn, open(10));
}

#[test]
fn other_frames_are_ignored() {
    let mut conn = open(10);
    assert_eq!(handle_upload(&state(), &mut conn, UploadEvent::Other), read_on());
    assert_eq!(conn, open(10));
}

#[test]
fn opened_upload_is_confirmed_with_its_identifier() {
    let mut conn = fresh(true);
    let action = handle_upload(&state(), &mut conn, UploadEvent::Opened(session(4)));
    assert_eq!(action, reply(ServerMessage::InitOk { upload_id: "id1".to_string() }));
    assert_eq!(conn, open(4));
}

#[test]
fn a_second_upload_replaces_the_first_and_discards_its_temp_file() {
    let mut conn = open(4);
    let mut second = session(8);
    second.upload_id = "id2".to_string();
    second.temp_path = names(&["srv", "files", ".upload_id2.tmp"]);
    let action = handle_upload(&state(), &mut conn, UploadEvent::Opened(second.clone()));
    assert_eq!(
        action,
        UploadAction {
            discard: Some(names(&["srv", "files", ".upload_id1.tmp"])),
            reply: Some(ServerMessage::InitOk { upload_id: "id2".to_string() }),
            work: Work::Nothing,
            stop: false,
        }
    );
    assert_eq!(conn.session, Some(second));
}

#[test]
fn failed_open_is_an_error_that_keeps_the_connection() {
    let mut conn = fresh(true);
    let action =
        handle_upload(&state(), &mut conn, UploadEvent::OpenFailed("Failed to create temp file: x".to_string()));
    assert_eq!(action, reply(error("INIT_FAILED", "Failed to create temp file: x")));
    assert_eq!(conn, fresh(true));
}

#[test]
fn progress_is_reported_at_each_two_mebibytes_and_at_the_total() {
    let mib: u64 = 1024 * 1024;
    let mut conn = open(5 * mib);
    let mut reports = Vec::new();
    for _ in 0..5 {
        let action = handle_upload(&state(), &mut conn, UploadEvent::Appended(mib));
        assert!(!action.stop);
        if let Some(message) = action.reply {
            reports.push(message);
        }
    }
    assert_eq!(
        reports,
        vec![
            ServerMessage::Progress { received: 2 * mib, total: 5 * mib },
            ServerMessage::Progress { received: 4 * mib, total: 5 * mib },
            ServerMessage::Progress { received: 5 * mib, total: 5 * mib },
        ]
    );
    assert_eq!(conn.session.unwrap().received_size, 5 * mib);
}

#[test]
fn progress_is_not_reported_inside_an_interval() {
    let mut conn = open(100_000_000);
    let action = handle_upload(&state(), &mut conn, UploadEvent::Appended(2097151));
    assert_eq!(action, read_on());
    let action = handle_upload(&state(), &mut conn, UploadEvent::Appended(1));
    assert_eq!(action, reply(ServerMessage::Progress { received: 2097152, total: 100_000_000 }));
    let action = handle_upload(&state(), &mut conn, UploadEvent::Appended(0));
    assert_eq!(action, read_on());
    let action = handle_upload(&state(), &mut conn, UploadEvent::Appended(5_000_000));
    assert_eq!(action, reply(ServerMessage::Progress { received: 7097152, total: 100_000_000 }));
}

#[test]
fn received_count_stops_at_the_largest_count() {
    let mut conn = open(10);
    handle_upload(&state(), &mut conn, UploadEvent::Appended(u64::MAX - 1));
    handle_upload(&state(), &mut conn, UploadEvent::Appended(7));
    assert_eq!(conn.session.unwrap().received_size, u64::MAX);
}

#[test]
fn appended_without_an_upload_changes_nothing() {
    let mut conn = fresh(true);
    assert_eq!(handle_upload(&state(), &mut conn, UploadEvent::Appended(5)), read_on());
    assert_eq!(conn, fresh(true));
}

#[test]
fn failed_write_is_reported_and_ends_the_connection_without_the_temp_file() {
    let mut conn = open(10);
    let action =
        handle_upload(&state(), &mut conn, UploadEvent::AppendFailed("Write failed: full".to_string()));
    assert_eq!(
        action,
        UploadAction {
            discard: Some(names(&["srv", "files", ".upload_id1.tmp"])),
            reply: Some(error("WRITE_FAILED", "Write failed: full")),
            work: Work::Nothing,
            stop: true,
        }
    );
    assert_eq!(conn.session, None);
}

#[test]
fn complete_asks_for_the_temp_file_to_be_moved_into_place() {
    let mut conn = open(4);
    let action = handle_upload(&state(), &mut conn, text(ClientMessage::Complete));
    assert_eq!(
        action,
        UploadAction {
            discard: None,
            reply: None,
            work: Work::Finalize {
                temp_path: names(&["srv", "files", ".upload_id1.tmp"]),
                target_path: names(&["srv", "files", "a.bin"]),
            },
            stop: false,
        }
    );
    assert_eq!(conn, open(4));
}

#[test]
fn complete_without_an_upload_ends_the_connection_silently() {
    let mut conn = fresh(true);
    let action = handle_upload(&state(), &mut conn, text(ClientMessage::Complete));
    assert_eq!(action, UploadAction { discard: None, reply: None, work: Work::Nothing, stop: true });
}

#[test]
fn finalized_upload_is_confirmed_with_path_and_size() {
    let mut conn = open(4);
    handle_upload(&state(), &mut conn, UploadEvent::Appended(3));
    let action = handle_upload(&state(), &mut conn, UploadEvent::Finalized);
    assert_eq!(
        action,
        UploadAction {
            discard: None,
            reply: Some(ServerMessage::CompleteOk { path: "/a.bin".to_string(), size: 3 }),
            work: Work::Nothing,
            stop: true,
        }
    );
    assert_eq!(conn.session, None);
}

#[test]
fn failed_finalize_is_reported_and_leaves_the_temp_file() {
    let mut conn = open(4);
    let action =
        handle_upload(&state(), &mut conn, UploadEvent::FinalizeFailed("Failed to move file: x".to_string()));
    assert_eq!(
        action,
        UploadAction {
            discard: None,
            reply: Some(error("COMPLETE_FAILED", "Failed to move file: x")),
            work: Work::Nothing,
            stop: true,
        }
    );
    assert_eq!(conn.session, None);
}

#[test]
fn cancel_and_close_discard_the_temp_file_and_end_the_connection() {
    for event in [text(ClientMessage::Cancel), UploadEvent::Close] {
        let mut conn = open(4);
        let action = handle_upload(&state(), &mut conn, event);
        assert_eq!(
            action,
            UploadAction {
                discard: Some(names(&["srv", "files", ".upload_id1.tmp"])),
                reply: None,
                work: Work::Nothing,
                stop: true,
            }
        );
        assert_eq!(conn.session, None);
    }
    for event in [text(ClientMessage::Cancel), UploadEvent::Close] {
        let mut conn = fresh(false);
        let action = handle_upload(&state(), &mut conn, event);
        assert_eq!(action, UploadAction { discard: None, reply: None, work: Work::Nothing, stop: true });
    }
}

#[test]
fn upgrade_without_a_credential_starts_unauthenticated() {
    let (conn, action) = ws_upload_handler(&state(), &WsUploadQuery { auth: None });
    assert_eq!(conn, fresh(false));
    assert_eq!(action, reply(ServerMessage::AuthRequired));
}

#[test]
fn upgrade_with_the_account_starts_authenticated() {
    let auth = base64::engine::general_purpose::STANDARD.encode("admin:admin123");
    let (conn, action) = ws_upload_handler(&state(), &WsUploadQuery { auth: Some(auth) });
    assert_eq!(conn, fresh(true));
    assert_eq!(action, read_on());
}

#[test]
fn upgrade_with_a_wrong_credential_starts_unauthenticated() {
    for auth in [
        base64::engine::general_purpose::STANDARD.encode("admin:wrong"),
        "admin:admin123".to_string(),
        "%%%".to_string(),
        String::new(),
    ] {
        let (conn, action) = ws_upload_handler(&state(), &WsUploadQuery { auth: Some(auth) });
        assert_eq!(conn, fresh(false));
        assert_eq!(action, reply(ServerMessage::AuthRequired));
    }
}

#[test]
fn create_upload_session_names_the_temp_file_beside_the_target() {
    let root = names(&["srv", "files"]);
    let s = create_upload_session(&root, "a.bin", 4, "/docs/2024", None).unwrap();
    assert_eq!(s.filename, "a.bin");
    assert_eq!(s.total_size, 4);
    assert_eq!(s.received_size, 0);
    assert_eq!(s.upload_id.len(), 36);
    assert_eq!(s.target_path, names(&["srv", "files", "docs", "2024", "a.bin"]));
    let temp_name = format!(".upload_{}.tmp", s.upload_id);
    assert_eq!(s.temp_path, names(&["srv", "files", "docs", "2024", &temp_name]));
}

#[test]
fn create_upload_session_uses_the_resolved_directory() {
    let root = names(&["srv", "files"]);
    let resolved = names(&["srv", "files", "real"]);
    let s = create_upload_session(&root, "a.bin", 4, "link", Some(resolved)).unwrap();
    assert_eq!(s.target_path, names(&["srv", "files", "real", "a.bin"]));
    assert_eq!(s.temp_path[..3].to_vec(), names(&["srv", "files", "real"]));
}

#[test]
fn create_upload_session_refuses_a_path_outside_the_sandbox() {
    let root = names(&["srv", "files"]);
    let e = create_upload_session(&root, "a.bin", 4, "../x", None).unwrap_err();
    assert_eq!(e, "Invalid path: access denied");
    let e = create_upload_session(&root, "a.bin", 4, "link", Some(names(&["etc"]))).unwrap_err();
    assert_eq!(e, "Invalid path: access denied");
}

#[test]
fn init_with_a_path_outside_the_sandbox_fails_and_creates_nothing() {
    let mut conn = fresh(true);
    let mut disk = Disk::new();
    let bad = ClientMessage::Init { filename: "a.bin".to_string(), size: 4, path: "../..".to_string() };
    let sent = run(&mut conn, &mut disk, vec![(text(bad), vec![]), (UploadEvent::Binary, vec![1])]);
    assert_eq!(
        sent,
        vec![
            error("INIT_FAILED", "Invalid path: access denied"),
            error("NO_SESSION", "Upload not initialized"),
        ]
    );
    assert!(disk.is_empty());
    assert_eq!(conn, fresh(true));
}
