//! The streaming upload protocol: one upload over one message-oriented
//! connection, with the account check in band.
//!
//! The connection is driven from outside. Whoever owns the socket and the
//! files hands each thing that happens to [`handle_upload`] as an event and
//! carries out the action that comes back; where the action asks for work
//! on the disk, the outcome of that work is the next event.

use crate::auth::{accepts, base64_decoded, validate_auth};
use crate::chunked::capped_sum;
use crate::ids::{fresh_upload_id, is_hex_digit, is_upload_id};
use crate::models::AppState;
use crate::path::{is_name, resolve, resolved};
use crate::text::{clone_names, names, push_str, string_of};
use vstd::prelude::*;

verus! {

/// The query of the upgrade request.
#[derive(Clone, Debug, PartialEq, Eq)]
pub struct WsUploadQuery {
    /// The base64 form of `user:password`, where the client sent one.
    pub auth: Option<String>,
}

/// What a client says.
#[derive(Clone, Debug, PartialEq, Eq)]
pub enum ClientMessage {
    /// The account, for a connection that was opened without one.
    Auth { username: String, password: String },
    /// Opens the upload of `size` bytes to the file `filename` in `path`.
    Init { filename: String, size: u64, path: String },
    /// Every byte has been sent.
    Complete,
    /// The upload is given up.
    Cancel,
}

/// A [`ClientMessage`] as plain mathematical values.
pub enum ClientMessageView {
    Auth { username: Seq<char>, password: Seq<char> },
    Init { filename: Seq<char>, size: u64, path: Seq<char> },
    Complete,
    Cancel,
}

impl View for ClientMessage {
    type V = ClientMessageView;

    open spec fn view(&self) -> ClientMessageView {
        match self {
            ClientMessage::Auth { username, password } => ClientMessageView::Auth {
                username: username@,
                password: password@,
            },
            ClientMessage::Init { filename, size, path } => ClientMessageView::Init {
                filename: filename@,
                size: *size,
                path: path@,
            },
            ClientMessage::Complete => ClientMessageView::Complete,
            ClientMessage::Cancel => ClientMessageView::Cancel,
        }
    }
}

/// What the service says.
#[derive(Clone, Debug, PartialEq, Eq)]
pub enum ServerMessage {
    /// The client has to send its account first.
    AuthRequired,
    /// The account was accepted.
    AuthOk,
    /// The account was refused. The client may try again.
    AuthFailed { message: String },
    /// The upload is open.
    InitOk { upload_id: String },
    /// So many bytes of the declared total have arrived. The percentage
    /// that the wire format shows beside them is worked out from these two
    /// when the message is written.
    Progress { received: u64, total: u64 },
    /// The file is in place at `path`, `size` bytes long.
    CompleteOk { path: String, size: u64 },
    /// Something went wrong; `code` says what kind of thing.
    Error { code: String, message: String },
}

/// A [`ServerMessage`] as plain mathematical values.
pub enum ServerMessageView {
    AuthRequired,
    AuthOk,
    AuthFailed { message: Seq<char> },
    InitOk { upload_id: Seq<char> },
    Progress { received: u64, total: u64 },
    CompleteOk { path: Seq<char>, size: u64 },
    Error { code: Seq<char>, message: Seq<char> },
}

impl View for ServerMessage {
    type V = ServerMessageView;

    open spec fn view(&self) -> ServerMessageView {
        match self {
            ServerMessage::AuthRequired => ServerMessageView::AuthRequired,
            ServerMessage::AuthOk => ServerMessageView::AuthOk,
            ServerMessage::AuthFailed { message } => ServerMessageView::AuthFailed {
                message: message@,
            },
            ServerMessage::InitOk { upload_id } => ServerMessageView::InitOk {
                upload_id: upload_id@,
            },
            ServerMessage::Progress { received, total } => ServerMessageView::Progress {
                received: *received,
                total: *total,
            },
            ServerMessage::CompleteOk { path, size } => ServerMessageView::CompleteOk {
                path: path@,
                size: *size,
            },
            ServerMessage::Error { code, message } => ServerMessageView::Error {
                code: code@,
                message: message@,
            },
        }
    }
}

/// The upload of a connection: where the bytes go while they arrive, where
/// the file will be, and how far the upload is.
#[derive(Clone, Debug, PartialEq, Eq)]
pub struct StreamSession {
    pub upload_id: String,
    /// The name of the file to create.
    pub filename: String,
    /// The file to create.
    pub target_path: Vec<String>,
    /// The file that takes the bytes until the upload is complete. It lies
    /// in the directory of the target, so that moving it into place is a
    /// rename within one filesystem.
    pub temp_path: Vec<String>,
    /// The size the client declared.
    pub total_size: u64,
    /// The bytes received so far. The count stops at the largest value it
    /// can hold.
    pub received_size: u64,
}

/// A [`StreamSession`] as plain mathematical values.
pub struct StreamSessionView {
    pub upload_id: Seq<char>,
    pub filename: Seq<char>,
    pub target_path: Seq<Seq<char>>,
    pub temp_path: Seq<Seq<char>>,
    pub total_size: u64,
    pub received_size: u64,
}

impl View for StreamSession {
    type V = StreamSessionView;

    open spec fn view(&self) -> StreamSessionView {
        StreamSessionView {
            upload_id: self.upload_id@,
            filename: self.filename@,
            target_path: names(self.target_path@),
            temp_path: names(self.temp_path@),
            total_size: self.total_size,
            received_size: self.received_size,
        }
    }
}

/// The state of a connection: whether the client has shown its account, and
/// the upload, once one is open. A connection has one upload at most.
#[derive(Clone, Debug, PartialEq, Eq)]
pub struct Connection {
    pub authenticated: bool,
    pub session: Option<StreamSession>,
}

/// A [`Connection`] as plain mathematical values.
pub struct ConnectionView {
    pub authenticated: bool,
    pub session: Option<StreamSessionView>,
}

/// The views of an upload that may not be there.
pub open spec fn session_view(session: Option<StreamSession>) -> Option<StreamSessionView> {
    match session {
        Some(s) => Some(s@),
        None => None,
    }
}

impl View for Connection {
    type V = ConnectionView;

    open spec fn view(&self) -> ConnectionView {
        ConnectionView { authenticated: self.authenticated, session: session_view(self.session) }
    }
}

/// Something that happened on a connection.
#[derive(Clone, Debug, PartialEq, Eq)]
pub enum UploadEvent {
    /// A text frame that read as a message.
    Text(ClientMessage),
    /// A text frame that did not; with the reader's complaint.
    Malformed(String),
    /// A binary frame.
    Binary,
    /// The peer closed the connection, or the connection broke.
    Close,
    /// A frame that carries nothing for the upload (a ping, a pong).
    Other,
    /// The temp file of this upload has been created ([`Work::Open`]).
    Opened(StreamSession),
    /// The upload could not be opened ([`Work::Open`]).
    OpenFailed(String),
    /// The binary frame, so many bytes long, is in the temp file
    /// ([`Work::Append`]).
    Appended(u64),
    /// The binary frame could not be written ([`Work::Append`]).
    AppendFailed(String),
    /// The temp file has been flushed, closed and renamed
    /// ([`Work::Finalize`]).
    Finalized,
    /// Flushing or renaming failed ([`Work::Finalize`]).
    FinalizeFailed(String),
}

/// An [`UploadEvent`] as plain mathematical values.
pub enum UploadEventView {
    Text(ClientMessageView),
    Malformed(Seq<char>),
    Binary,
    Close,
    Other,
    Opened(StreamSessionView),
    OpenFailed(Seq<char>),
    Appended(u64),
    AppendFailed(Seq<char>),
    Finalized,
    FinalizeFailed(Seq<char>),
}

impl View for UploadEvent {
    type V = UploadEventView;

    open spec fn view(&self) -> UploadEventView {
        match self {
            UploadEvent::Text(message) => UploadEventView::Text(message@),
            UploadEvent::Malformed(why) => UploadEventView::Malformed(why@),
            UploadEvent::Binary => UploadEventView::Binary,
            UploadEvent::Close => UploadEventView::Close,
            UploadEvent::Other => UploadEventView::Other,
            UploadEvent::Opened(session) => UploadEventView::Opened(session@),
            UploadEvent::OpenFailed(why) => UploadEventView::OpenFailed(why@),
            UploadEvent::Appended(len) => UploadEventView::Appended(*len),
            UploadEvent::AppendFailed(why) => UploadEventView::AppendFailed(why@),
            UploadEvent::Finalized => UploadEventView::Finalized,
            UploadEvent::FinalizeFailed(why) => UploadEventView::FinalizeFailed(why@),
        }
    }
}

/// Work on the disk that an action asks for. Its outcome comes back as an
/// event.
#[derive(Clone, Debug, PartialEq, Eq)]
pub enum Work {
    /// None.
    Nothing,
    /// Resolve the target directory, create it, and create the temp file
    /// that [`create_upload_session`] names.
    Open { filename: String, size: u64, path: String },
    /// Append the binary frame to the temp file.
    Append,
    /// Flush and close the temp file, then rename it to the target. A file
    /// that is already at the target is replaced: the rename overwrites it,
    /// in one step, and the upload that completes last wins.
    Finalize { temp_path: Vec<String>, target_path: Vec<String> },
}

/// A [`Work`] as plain mathematical values.
pub enum WorkView {
    Nothing,
    Open { filename: Seq<char>, size: u64, path: Seq<char> },
    Append,
    Finalize { temp_path: Seq<Seq<char>>, target_path: Seq<Seq<char>> },
}

impl View for Work {
    type V = WorkView;

    open spec fn view(&self) -> WorkView {
        match self {
            Work::Nothing => WorkView::Nothing,
            Work::Open { filename, size, path } => WorkView::Open {
                filename: filename@,
                size: *size,
                path: path@,
            },
            Work::Append => WorkView::Append,
            Work::Finalize { temp_path, target_path } => WorkView::Finalize {
                temp_path: names(temp_path@),
                target_path: names(target_path@),
            },
        }
    }
}

/// What to do after an event, in this order: delete `discard`, send
/// `reply`, do `work`; then, where `stop` is set, stop reading from the
/// connection, else read on.
#[derive(Clone, Debug, PartialEq, Eq)]
pub struct UploadAction {
    /// A temp file that nobody will complete. Deleting it is best effort:
    /// a failure is logged and not reported.
    pub discard: Option<Vec<String>>,
    pub reply: Option<ServerMessage>,
    pub work: Work,
    pub stop: bool,
}

/// An [`UploadAction`] as plain mathematical values.
pub struct UploadActionView {
    pub discard: Option<Seq<Seq<char>>>,
    pub reply: Option<ServerMessageView>,
    pub work: WorkView,
    pub stop: bool,
}

impl View for UploadAction {
    type V = UploadActionView;

    open spec fn view(&self) -> UploadActionView {
        UploadActionView {
            discard: match self.discard {
                Some(file) => Some(names(file@)),
                None => None,
            },
            reply: match self.reply {
                Some(message) => Some(message@),
                None => None,
            },
            work: self.work@,
            stop: self.stop,
        }
    }
}

/// The action that only reads on.
pub open spec fn idle() -> UploadActionView {
    UploadActionView { discard: None, reply: None, work: WorkView::Nothing, stop: false }
}

/// The action that sends `message` and reads on.
pub open spec fn say(message: ServerMessageView) -> UploadActionView {
    UploadActionView { discard: None, reply: Some(message), work: WorkView::Nothing, stop: false }
}

/// The action that asks for `work`.
pub open spec fn ask(work: WorkView) -> UploadActionView {
    UploadActionView { discard: None, reply: None, work, stop: false }
}

/// The action that ends the connection: the temp file of `session`, if
/// there is one, is deleted, and `farewell`, if there is one, is sent.
pub open spec fn end(
    session: Option<StreamSessionView>,
    farewell: Option<ServerMessageView>,
) -> UploadActionView {
    UploadActionView {
        discard: match session {
            Some(s) => Some(s.temp_path),
            None => None,
        },
        reply: farewell,
        work: WorkView::Nothing,
        stop: true,
    }
}

/// An error message of the kind `code`.
pub open spec fn failure(code: Seq<char>, message: Seq<char>) -> ServerMessageView {
    ServerMessageView::Error { code, message }
}

/// The number of bytes between two progress reports: 2 MiB.
pub const PROGRESS_INTERVAL: u64 = 2097152;

/// Whether going from `before` to `after` received bytes is worth a report:
/// the count has passed a multiple of the interval, or has reached the
/// declared total.
pub open spec fn progress_due(before: u64, after: u64, total: u64) -> bool {
    after / PROGRESS_INTERVAL > before / PROGRESS_INTERVAL || after == total
}

/// What the connection `conn` of the account `user` with the password
/// `pass` does on `event`: the state it goes to, and the action it asks
/// for.
///
/// Before the account is shown, an `Init` and a binary frame are answered
/// with `AuthRequired` and change nothing; no work is asked for. A wrong
/// account is answered with `AuthFailed` and may be tried again. A binary
/// frame without an open upload is an error of the kind `NO_SESSION`. A
/// frame that cannot be read is an error of the kind `INVALID_MESSAGE`.
/// None of these ends the connection.
///
/// `Cancel` and `Close` end the connection and delete the temp file. So
/// does a failed write, after the error `WRITE_FAILED`. `Complete` asks for
/// the temp file to be moved into place; the connection ends when that is
/// done (`CompleteOk`) or has failed (`COMPLETE_FAILED`; the temp file is
/// then left where it is). A `Complete` without an open upload ends the
/// connection without a word.
///
/// An upload that is opened while another is open takes its place, and the
/// temp file of the first is deleted: a connection has one upload at most.
pub open spec fn transition(
    user: Seq<char>,
    pass: Seq<char>,
    conn: ConnectionView,
    event: UploadEventView,
) -> (ConnectionView, UploadActionView) {
    match event {
        UploadEventView::Text(ClientMessageView::Auth { username, password }) => {
            if username == user && password == pass {
                (ConnectionView { authenticated: true, ..conn }, say(ServerMessageView::AuthOk))
            } else {
                (conn, say(ServerMessageView::AuthFailed { message: "Invalid credentials"@ }))
            }
        },
        UploadEventView::Text(ClientMessageView::Init { filename, size, path }) => {
            if conn.authenticated {
                (conn, ask(WorkView::Open { filename, size, path }))
            } else {
                (conn, say(ServerMessageView::AuthRequired))
            }
        },
        UploadEventView::Text(ClientMessageView::Complete) => match conn.session {
            Some(s) => (
                conn,
                ask(WorkView::Finalize { temp_path: s.temp_path, target_path: s.target_path }),
            ),
            None => (conn, end(None, None)),
        },
        UploadEventView::Text(ClientMessageView::Cancel) => (
            ConnectionView { session: None, ..conn },
            end(conn.session, None),
        ),
        UploadEventView::Close => (ConnectionView { session: None, ..conn }, end(conn.session, None)),
        UploadEventView::Malformed(why) => (
            conn,
            say(failure("INVALID_MESSAGE"@, "Invalid JSON: "@ + why)),
        ),
        UploadEventView::Binary => {
            if !conn.authenticated {
                (conn, say(ServerMessageView::AuthRequired))
            } else if conn.session is None {
                (conn, say(failure("NO_SESSION"@, "Upload not initialized"@)))
            } else {
                (conn, ask(WorkView::Append))
            }
        },
        UploadEventView::Other => (conn, idle()),
        UploadEventView::Opened(s) => {
            if conn.authenticated {
                (
                    ConnectionView { session: Some(s), ..conn },
                    UploadActionView {
                        discard: match conn.session {
                            Some(old) => Some(old.temp_path),
                            None => None,
                        },
                        reply: Some(ServerMessageView::InitOk { upload_id: s.upload_id }),
                        work: WorkView::Nothing,
                        stop: false,
                    },
                )
            } else {
                (
                    conn,
                    UploadActionView {
                        discard: Some(s.temp_path),
                        reply: Some(ServerMessageView::AuthRequired),
                        work: WorkView::Nothing,
                        stop: false,
                    },
                )
            }
        },
        UploadEventView::OpenFailed(why) => (conn, say(failure("INIT_FAILED"@, why))),
        UploadEventView::Appended(len) => match conn.session {
            Some(s) => {
                let received = capped_sum(s.received_size, len);
                (
                    ConnectionView {
                        session: Some(StreamSessionView { received_size: received, ..s }),
                        ..conn
                    },
                    if progress_due(s.received_size, received, s.total_size) {
                        say(ServerMessageView::Progress { received, total: s.total_size })
                    } else {
                        idle()
                    },
                )
            },
            None => (conn, idle()),
        },
        UploadEventView::AppendFailed(why) => (
            ConnectionView { session: None, ..conn },
            end(conn.session, Some(failure("WRITE_FAILED"@, why))),
        ),
        UploadEventView::Finalized => match conn.session {
            Some(s) => (
                ConnectionView { session: None, ..conn },
                end(
                    None,
                    Some(
                        ServerMessageView::CompleteOk {
                            path: seq!['/'] + s.filename,
                            size: s.received_size,
                        },
                    ),
                ),
            ),
            None => (conn, end(None, None)),
        },
        UploadEventView::FinalizeFailed(why) => (
            ConnectionView { session: None, ..conn },
            end(None, Some(failure("COMPLETE_FAILED"@, why))),
        ),
    }
}

/// The action that only reads on.
fn read_on() -> (action: UploadAction)
    ensures
        action@ == idle(),
{
    UploadAction { discard: None, reply: None, work: Work::Nothing, stop: false }
}

/// The action that sends `message` and reads on.
fn reply(message: ServerMessage) -> (action: UploadAction)
    ensures
        action@ == say(message@),
{
    UploadAction { discard: None, reply: Some(message), work: Work::Nothing, stop: false }
}

/// The action that asks for `work`.
fn request(work: Work) -> (action: UploadAction)
    ensures
        action@ == ask(work@),
{
    UploadAction { discard: None, reply: None, work, stop: false }
}

/// The action that ends the connection.
fn finish(session: Option<StreamSession>, farewell: Option<ServerMessage>) -> (action: UploadAction)
    ensures
        action@ == end(
            session_view(session),
            match farewell {
                Some(message) => Some(message@),
                None => None,
            },
        ),
{
    let discard = match session {
        Some(s) => Some(s.temp_path),
        None => None,
    };
    UploadAction { discard, reply: farewell, work: Work::Nothing, stop: true }
}

/// An error message of the kind `code`.
fn error(code: &str, message: String) -> (r: ServerMessage)
    ensures
        r@ == failure(code@, message@),
{
    ServerMessage::Error { code: code.to_owned(), message }
}

/// Takes a connection one step further: changes `conn` and returns the
/// action, both as [`transition`] says for the account of `state`.
pub fn handle_upload(state: &AppState, conn: &mut Connection, event: UploadEvent) -> (action:
    UploadAction)
    ensures
        (final(conn)@, action@) == transition(
            state.username@,
            state.password@,
            old(conn)@,
            event@,
        ),
{
    match event {
        UploadEvent::Text(ClientMessage::Auth { username, password }) => {
            if username == state.username && password == state.password {
                conn.authenticated = true;
                reply(ServerMessage::AuthOk)
            } else {
                reply(ServerMessage::AuthFailed { message: "Invalid credentials".to_owned() })
            }
        },
        UploadEvent::Text(ClientMessage::Init { filename, size, path }) => {
            if conn.authenticated {
                request(Work::Open { filename, size, path })
            } else {
                reply(ServerMessage::AuthRequired)
            }
        },
        UploadEvent::Text(ClientMessage::Complete) => {
            match &conn.session {
                Some(s) => request(
                    Work::Finalize {
                        temp_path: clone_names(&s.temp_path),
                        target_path: clone_names(&s.target_path),
                    },
                ),
                None => finish(None, None),
            }
        },
        UploadEvent::Text(ClientMessage::Cancel) => {
            let session = conn.session.take();
            finish(session, None)
        },
        UploadEvent::Close => {
            let session = conn.session.take();
            finish(session, None)
        },
        UploadEvent::Malformed(why) => {
            let mut text: Vec<char> = Vec::new();
            push_str(&mut text, "Invalid JSON: ");
            push_str(&mut text, why.as_str());
            assert(text@ =~= "Invalid JSON: "@ + why@);
            reply(error("INVALID_MESSAGE", string_of(&text)))
        },
        UploadEvent::Binary => {
            if !conn.authenticated {
                reply(ServerMessage::AuthRequired)
            } else if conn.session.is_none() {
                reply(error("NO_SESSION", "Upload not initialized".to_owned()))
            } else {
                request(Work::Append)
            }
        },
        UploadEvent::Other => read_on(),
        UploadEvent::Opened(session) => {
            if conn.authenticated {
                let upload_id = session.upload_id.clone();
                let replaced = conn.session.take();
                conn.session = Some(session);
                UploadAction {
                    discard: match replaced {
                        Some(old) => Some(old.temp_path),
                        None => None,
                    },
                    reply: Some(ServerMessage::InitOk { upload_id }),
                    work: Work::Nothing,
                    stop: false,
                }
            } else {
                UploadAction {
                    discard: Some(session.temp_path),
                    reply: Some(ServerMessage::AuthRequired),
                    work: Work::Nothing,
                    stop: false,
                }
            }
        },
        UploadEvent::OpenFailed(why) => reply(error("INIT_FAILED", why)),
        UploadEvent::Appended(len) => {
            match conn.session.take() {
                Some(mut s) => {
                    let before = s.received_size;
                    let received = before.saturating_add(len);
                    let total = s.total_size;
                    s.received_size = received;
                    conn.session = Some(s);
                    if received / PROGRESS_INTERVAL > before / PROGRESS_INTERVAL || received
                        == total {
                        reply(ServerMessage::Progress { received, total })
                    } else {
                        read_on()
                    }
                },
                None => read_on(),
            }
        },
        UploadEvent::AppendFailed(why) => {
            let session = conn.session.take();
            finish(session, Some(error("WRITE_FAILED", why)))
        },
        UploadEvent::Finalized => {
            match conn.session.take() {
                Some(s) => {
                    let mut path: Vec<char> = Vec::new();
                    path.push('/');
                    push_str(&mut path, s.filename.as_str());
                    assert(path@ =~= seq!['/'] + s.filename@);
                    finish(
                        None,
                        Some(
                            ServerMessage::CompleteOk {
                                path: string_of(&path),
                                size: s.received_size,
                            },
                        ),
                    )
                },
                None => finish(None, None),
            }
        },
        UploadEvent::FinalizeFailed(why) => {
            conn.session = None;
            finish(None, Some(error("COMPLETE_FAILED", why)))
        },
    }
}

/// Whether the upgrade request with the query credential `auth` comes from
/// the account `user` with the password `pass`. A request without a
/// credential does not.
pub open spec fn pre_authenticated(auth: Option<String>, user: Seq<char>, pass: Seq<char>) -> bool {
    match auth {
        Some(a) => accepts(base64_decoded(a@), user, pass),
        None => false,
    }
}

/// Opens the connection of an upgrade request: checks the credential of
/// the query, if there is one, and returns the connection with the action
/// to begin with. A client that has not shown its account is told so at
/// once; one that has is told nothing. No upload is open yet.
pub fn ws_upload_handler(state: &AppState, query: &WsUploadQuery) -> (r: (Connection, UploadAction))
    ensures
        r.0@ == (ConnectionView {
            authenticated: pre_authenticated(query.auth, state.username@, state.password@),
            session: None,
        }),
        r.1@ == (if r.0.authenticated {
            idle()
        } else {
            say(ServerMessageView::AuthRequired)
        }),
{
    let pre_auth = match &query.auth {
        Some(auth) => validate_auth(
            auth.as_str(),
            state.username.as_str(),
            state.password.as_str(),
        ),
        None => None,
    };
    let authenticated = match pre_auth {
        Some(b) => b,
        None => false,
    };
    let conn = Connection { authenticated, session: None };
    if authenticated {
        (conn, read_on())
    } else {
        (conn, reply(ServerMessage::AuthRequired))
    }
}

/// The message of the error for a target that lies outside the sandbox.
pub open spec fn path_refused() -> Seq<char> {
    "Invalid path: access denied"@
}

/// The directory that an upload to `path` goes to: the logical path below
/// `root`, or `canonical`, its resolved form, where the caller found the
/// directory on disk. `None` where the path leaves the root, as asked for
/// or as resolved.
pub open spec fn target_directory(
    root: Seq<Seq<char>>,
    path: Seq<char>,
    canonical: Option<Seq<Seq<char>>>,
) -> Option<Seq<Seq<char>>> {
    match resolved(root, path, canonical) {
        None => None,
        Some(paths) => Some(paths.1),
    }
}

/// The name of the temp file of the upload `upload_id`.
pub open spec fn temp_name(upload_id: Seq<char>) -> Seq<char> {
    ".upload_"@ + upload_id + ".tmp"@
}

/// Plans the upload of `size` bytes to the file `filename` in `path`:
/// resolves the directory, draws the identifier, and names the temp file in
/// that same directory. Nothing has been received yet. A path that leaves
/// the sandbox is refused. The identifier is drawn at random, so it is
/// described by its shape only.
///
/// `canonical` is the resolved form of the directory where the caller found
/// it on disk. `filename` is taken as the one name it is given as.
pub fn create_upload_session(
    root: &Vec<String>,
    filename: &str,
    size: u64,
    path: &str,
    canonical: Option<Vec<String>>,
) -> (r: Result<StreamSession, String>)
    ensures
        match target_directory(
            names(root@),
            path@,
            match canonical {
                Some(c) => Some(names(c@)),
                None => None,
            },
        ) {
            None => r is Err && r->Err_0@ == path_refused(),
            Some(dir) => r is Ok && is_upload_id(r->Ok_0.upload_id@) && r->Ok_0@ == (
            StreamSessionView {
                upload_id: r->Ok_0.upload_id@,
                filename: filename@,
                target_path: dir.push(filename@),
                temp_path: dir.push(temp_name(r->Ok_0.upload_id@)),
                total_size: size,
                received_size: 0,
            }) && is_name(temp_name(r->Ok_0.upload_id@)),
        },
{
    let paths = match resolve(root, path, canonical) {
        Ok(paths) => paths,
        Err(_) => {
            return Err("Invalid path: access denied".to_owned());
        },
    };
    let upload_id = fresh_upload_id();
    let mut name: Vec<char> = Vec::new();
    push_str(&mut name, ".upload_");
    push_str(&mut name, upload_id.as_str());
    push_str(&mut name, ".tmp");
    let mut temp_path = clone_names(&paths.actual);
    temp_path.push(string_of(&name));
    let mut target_path = paths.actual;
    let ghost dir = names(target_path@);
    target_path.push(filename.to_owned());
    proof {
        assert(names(temp_path@) =~= dir.push(temp_name(upload_id@)));
        assert(names(target_path@) =~= dir.push(filename@));
        lemma_temp_name_is_name(upload_id@);
    }
    Ok(
        StreamSession {
            upload_id,
            filename: filename.to_owned(),
            target_path,
            temp_path,
            total_size: size,
            received_size: 0,
        },
    )
}

/// The temp file of an upload has a name that can stand in a path, so it
/// lies in the directory of the target and nowhere else.
pub proof fn lemma_temp_name_is_name(upload_id: Seq<char>)
    requires
        is_upload_id(upload_id),
    ensures
        is_name(temp_name(upload_id)),
{
    reveal_strlit(".upload_");
    reveal_strlit(".tmp");
    let head = ".upload_"@;
    let tail = ".tmp"@;
    let name = temp_name(upload_id);
    assert(name.len() == 48);
    if name.contains('/') {
        let k = choose|k: int| 0 <= k < name.len() && name[k] == '/';
        if k < 8 {
            assert(name[k] == head[k]);
        } else if k < 44 {
            assert(name[k] == upload_id[k - 8]);
            assert(upload_id[k - 8] == '-' || is_hex_digit(upload_id[k - 8]));
        } else {
            assert(name[k] == tail[k - 44]);
        }
    }
}

/// An upload is opened only for a client that has shown its account. On a
/// connection that has not been authenticated, neither at the upgrade nor
/// by an accepted `Auth` message, an `Init` is answered with `AuthRequired`,
/// changes nothing and asks for no work, so no temp file is created. On an
/// authenticated connection it asks for the upload to be opened.
pub proof fn lemma_init_needs_account(
    user: Seq<char>,
    pass: Seq<char>,
    conn: ConnectionView,
    filename: Seq<char>,
    size: u64,
    path: Seq<char>,
)
    ensures
        ({
            let init = UploadEventView::Text(ClientMessageView::Init { filename, size, path });
            let (next, action) = transition(user, pass, conn, init);
            &&& next == conn
            &&& !conn.authenticated ==> action == say(ServerMessageView::AuthRequired)
            &&& conn.authenticated ==> action == ask(WorkView::Open { filename, size, path })
        }),
{
}

/// While a client has not shown its account, nothing it sends and nothing
/// that happens asks for work on the disk or leaves an upload open.
pub proof fn lemma_no_upload_without_account(
    user: Seq<char>,
    pass: Seq<char>,
    conn: ConnectionView,
    event: UploadEventView,
)
    requires
        !conn.authenticated,
        conn.session is None,
    ensures
        transition(user, pass, conn, event).1.work == WorkView::Nothing,
        transition(user, pass, conn, event).0.session is None,
        transition(user, pass, conn, event).0.authenticated ==> event == UploadEventView::Text(
            ClientMessageView::Auth { username: user, password: pass },
        ),
{
}

/// A connection never ends with an upload left open. Where it ends with an
/// upload that was not completed (a cancel, a close, a failed write), the
/// temp file of that upload is discarded and nothing is moved into place.
pub proof fn lemma_connection_ends_without_upload(
    user: Seq<char>,
    pass: Seq<char>,
    conn: ConnectionView,
    event: UploadEventView,
)
    requires
        transition(user, pass, conn, event).1.stop,
    ensures
        transition(user, pass, conn, event).0.session is None,
        transition(user, pass, conn, event).1.work == WorkView::Nothing,
        (event == UploadEventView::Close || event == UploadEventView::Text(
            ClientMessageView::Cancel,
        ) || event is AppendFailed) ==> transition(user, pass, conn, event).1.discard == (
        match conn.session {
            Some(s) => Some(s.temp_path),
            None => None,
        }),
{
}

/// The count of received bytes never falls, and a progress report carries
/// the count as it is after the frame.
pub proof fn lemma_received_count_grows(
    user: Seq<char>,
    pass: Seq<char>,
    conn: ConnectionView,
    len: u64,
)
    requires
        conn.session is Some,
    ensures
        ({
            let (next, action) = transition(user, pass, conn, UploadEventView::Appended(len));
            let before = conn.session->0;
            &&& next.session is Some
            &&& next.session->0.received_size >= before.received_size
            &&& next.session->0.received_size == capped_sum(before.received_size, len)
            &&& action.reply matches Some(ServerMessageView::Progress { received, total })
                ==> received == next.session->0.received_size && total == before.total_size
        }),
{
}

} // verus!
