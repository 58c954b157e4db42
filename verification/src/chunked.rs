//! The chunked upload protocol: a session is opened, its chunks arrive in
//! any order, and it is then completed (the chunks are merged in index
//! order) or aborted.
//!
//! Nothing here touches the disk. Each function takes one decision on the
//! registry and tells its caller which file to write, read or delete.

use crate::ids::{fresh_upload_id, is_upload_id, lemma_upload_id_is_name};
use crate::models::{
    ChunkUploadQuery, ChunkUploadResponse, ChunkedUploadAbortRequest,
    ChunkedUploadCompleteRequest, ChunkedUploadCompleteResponse, ChunkedUploadInitRequest,
    ChunkedUploadInitResponse, OperationResponse,
};
use crate::path::{
    access_denied, is_descendant, is_name, is_under, relative, relative_path, resolve, resolved,
};
use crate::session::{missing, SessionStore, SessionView, UploadSession};
use crate::text::{
    clone_names, decimal, lemma_zero_padded_injective, names, push_decimal, push_str,
    push_zero_padded, string_of, zero_padded,
};
use vstd::prelude::*;

verus! {

/// The name of the directory, below the system's temporary directory, that
/// holds one scratch directory per upload.
pub open spec fn scratch_root() -> Seq<char> {
    "filest_uploads"@
}

/// The name of the scratch file of chunk `index`: `chunk_` and the index in
/// decimal, with zeros in front up to six digits, so that the files of an
/// upload list in chunk order.
pub open spec fn chunk_name(index: u32) -> Seq<char> {
    "chunk_"@ + zero_padded(index as nat, 6)
}

/// The name of the scratch file of chunk `index`.
pub fn chunk_file_name(index: u32) -> (name: String)
    ensures
        name@ == chunk_name(index),
{
    let mut out: Vec<char> = Vec::new();
    push_str(&mut out, "chunk_");
    push_zero_padded(&mut out, index as u64, 6);
    string_of(&out)
}

/// Different chunks have different scratch files.
pub proof fn lemma_chunk_names_differ(a: u32, b: u32)
    requires
        a != b,
    ensures
        chunk_name(a) != chunk_name(b),
{
    if chunk_name(a) == chunk_name(b) {
        let head = "chunk_"@;
        let pa = zero_padded(a as nat, 6);
        let pb = zero_padded(b as nat, 6);
        assert(pa =~= (head + pa).subrange(head.len() as int, (head + pa).len() as int));
        assert(pb =~= (head + pb).subrange(head.len() as int, (head + pb).len() as int));
        lemma_zero_padded_injective(a as nat, b as nat, 6);
    }
}

/// Why a request of the chunked protocol is refused.
#[derive(Clone, Debug, PartialEq, Eq)]
pub enum UploadError {
    /// No session has the identifier that the request names.
    SessionNotFound,
    /// The session has no chunk of the index that the request names.
    InvalidIndex,
    /// The upload cannot be completed: these chunks have not arrived.
    MissingChunks(Vec<u32>),
}

/// An [`UploadError`] as plain mathematical values.
pub enum UploadErrorView {
    SessionNotFound,
    InvalidIndex,
    MissingChunks(Seq<u32>),
}

impl View for UploadError {
    type V = UploadErrorView;

    open spec fn view(&self) -> UploadErrorView {
        match self {
            UploadError::SessionNotFound => UploadErrorView::SessionNotFound,
            UploadError::InvalidIndex => UploadErrorView::InvalidIndex,
            UploadError::MissingChunks(indices) => UploadErrorView::MissingChunks(indices@),
        }
    }
}

/// The numbers of `indices` in decimal, separated by a comma and a space.
pub open spec fn listed(indices: Seq<u32>) -> Seq<char>
    decreases indices.len(),
{
    if indices.len() == 0 {
        Seq::<char>::empty()
    } else if indices.len() == 1 {
        decimal(indices[0] as nat)
    } else {
        listed(indices.drop_last()) + ", "@ + decimal(indices.last() as nat)
    }
}

/// The text that a client is shown for `error`.
pub open spec fn error_message(error: UploadErrorView) -> Seq<char> {
    match error {
        UploadErrorView::SessionNotFound => "Upload session not found"@,
        UploadErrorView::InvalidIndex => "Invalid chunk index"@,
        UploadErrorView::MissingChunks(indices) => "Missing chunks: ["@ + listed(indices) + "]"@,
    }
}

impl UploadError {
    /// The text that a client is shown for this error.
    pub fn message(&self) -> (text: String)
        ensures
            text@ == error_message(self@),
    {
        match self {
            UploadError::SessionNotFound => "Upload session not found".to_owned(),
            UploadError::InvalidIndex => "Invalid chunk index".to_owned(),
            UploadError::MissingChunks(indices) => {
                let mut out: Vec<char> = Vec::new();
                push_str(&mut out, "Missing chunks: [");
                let ghost head = out@;
                let mut i: usize = 0;
                proof {
                    assert(indices@.subrange(0, 0) =~= Seq::<u32>::empty());
                    assert(out@ =~= head + listed(indices@.subrange(0, 0)));
                }
                while i < indices.len()
                    invariant
                        i <= indices.len(),
                        out@ == head + listed(indices@.subrange(0, i as int)),
                    decreases indices.len() - i,
                {
                    let ghost done = indices@.subrange(0, i as int);
                    let ghost next = indices@.subrange(0, i + 1);
                    proof {
                        assert(next.drop_last() =~= done);
                    }
                    if i > 0 {
                        push_str(&mut out, ", ");
                    }
                    push_decimal(&mut out, indices[i] as u64);
                    proof {
                        if i == 0 {
                            assert(listed(done) =~= Seq::<char>::empty());
                            assert(out@ =~= head + listed(next));
                        } else {
                            assert(out@ =~= head + (listed(done) + ", "@ + decimal(
                                next.last() as nat,
                            )));
                        }
                    }
                    i += 1;
                }
                proof {
                    assert(indices@.subrange(0, i as int) =~= indices@);
                }
                push_str(&mut out, "]");
                string_of(&out)
            },
        }
    }
}

/// A new upload, resolved and named but not yet registered: what the
/// client declared, where the file will go, the identifier the upload got
/// and where it will keep its chunks. Only [`plan_upload`] makes one, so a
/// plan always stands for a request whose path was accepted.
#[derive(Clone, Debug, PartialEq, Eq)]
pub struct UploadPlan {
    upload_id: String,
    filename: String,
    total_size: u64,
    total_chunks: u32,
    chunk_size: u64,
    upload_path: Vec<String>,
    logical_path: Vec<String>,
    temp_dir: Vec<String>,
}

/// An [`UploadPlan`] as plain mathematical values.
pub struct UploadPlanView {
    pub upload_id: Seq<char>,
    pub filename: Seq<char>,
    pub total_size: u64,
    pub total_chunks: u32,
    pub chunk_size: u64,
    /// The directory the file will be created in (links resolved).
    pub upload_path: Seq<Seq<char>>,
    /// The same directory as the client asked for it.
    pub logical_path: Seq<Seq<char>>,
    /// The scratch directory of the upload.
    pub temp_dir: Seq<Seq<char>>,
}

impl View for UploadPlan {
    type V = UploadPlanView;

    closed spec fn view(&self) -> UploadPlanView {
        UploadPlanView {
            upload_id: self.upload_id@,
            filename: self.filename@,
            total_size: self.total_size,
            total_chunks: self.total_chunks,
            chunk_size: self.chunk_size,
            upload_path: names(self.upload_path@),
            logical_path: names(self.logical_path@),
            temp_dir: names(self.temp_dir@),
        }
    }
}

impl UploadPlan {
    /// The identifier of the upload.
    pub fn upload_id(&self) -> (id: String)
        ensures
            id@ == self@.upload_id,
    {
        self.upload_id.clone()
    }

    /// The scratch directory of the upload. It is the caller's to create
    /// before the upload is registered.
    pub fn temp_dir(&self) -> (dir: Vec<String>)
        ensures
            names(dir@) == self@.temp_dir,
    {
        clone_names(&self.temp_dir)
    }
}

/// The plan for the request `req`, with the identifier `upload_id`: the
/// target directory as resolved and as asked for, and the scratch directory
/// named by the identifier, in the directory of all uploads below
/// `temp_root`.
pub open spec fn planned(
    req: ChunkedUploadInitRequest,
    logical: Seq<Seq<char>>,
    actual: Seq<Seq<char>>,
    temp_root: Seq<Seq<char>>,
    upload_id: Seq<char>,
) -> UploadPlanView {
    UploadPlanView {
        upload_id,
        filename: req.filename@,
        total_size: req.total_size,
        total_chunks: req.total_chunks,
        chunk_size: req.chunk_size,
        upload_path: actual,
        logical_path: logical,
        temp_dir: temp_root.push(scratch_root()).push(upload_id),
    }
}

/// Plans the upload that `req` asks for: resolves its path below `root`,
/// draws the identifier of the upload and names its scratch directory.
///
/// A request whose path leaves the sandbox, as asked for or through a link,
/// is refused with the resolver's one error; nothing is drawn, named or
/// registered for it. `canonical` is the resolved form of the target
/// directory where the caller found it on disk (see
/// [`resolve`](crate::path::resolve)). The identifier is drawn at random,
/// so it is described by its shape only.
pub fn plan_upload(
    root: &Vec<String>,
    req: &ChunkedUploadInitRequest,
    canonical: Option<Vec<String>>,
    temp_root: &Vec<String>,
) -> (r: Result<UploadPlan, String>)
    ensures
        match resolved(
            names(root@),
            req.path@,
            match canonical {
                Some(c) => Some(names(c@)),
                None => None,
            },
        ) {
            None => r is Err && r->Err_0@ == access_denied(),
            Some((logical, actual)) => r is Ok && is_upload_id(r->Ok_0@.upload_id) && r->Ok_0@
                == planned(*req, logical, actual, names(temp_root@), r->Ok_0@.upload_id)
                && is_descendant(names(temp_root@), r->Ok_0@.temp_dir) && is_descendant(
                names(root@),
                logical,
            ) && is_under(names(root@), actual),
        },
{
    let paths = match resolve(root, req.path.as_str(), canonical) {
        Ok(paths) => paths,
        Err(e) => {
            return Err(e);
        },
    };
    let upload_id = fresh_upload_id();
    let mut temp_dir = clone_names(temp_root);
    temp_dir.push("filest_uploads".to_owned());
    temp_dir.push(upload_id.clone());
    proof {
        let made = names(temp_root@).push(scratch_root()).push(upload_id@);
        assert(names(temp_dir@) =~= made);
        lemma_upload_id_is_name(upload_id@);
        lemma_scratch_root_is_name();
        assert(names(temp_root@) =~= made.subrange(0, temp_root.len() as int));
    }
    Ok(
        UploadPlan {
            upload_id,
            filename: req.filename.clone(),
            total_size: req.total_size,
            total_chunks: req.total_chunks,
            chunk_size: req.chunk_size,
            upload_path: paths.actual,
            logical_path: paths.logical,
            temp_dir,
        },
    )
}

/// Uploads with different identifiers keep their chunks in different
/// directories, and so in different files.
pub proof fn lemma_scratch_directories_differ(
    temp_root: Seq<Seq<char>>,
    a: Seq<char>,
    b: Seq<char>,
    i: u32,
    j: u32,
)
    requires
        a != b,
    ensures
        temp_root.push(scratch_root()).push(a) != temp_root.push(scratch_root()).push(b),
        temp_root.push(scratch_root()).push(a).push(chunk_name(i)) != temp_root.push(
            scratch_root(),
        ).push(b).push(chunk_name(j)),
{
    let da = temp_root.push(scratch_root()).push(a);
    let db = temp_root.push(scratch_root()).push(b);
    assert(da.last() == a);
    assert(db.last() == b);
    let fa = da.push(chunk_name(i));
    let fb = db.push(chunk_name(j));
    assert(fa[fa.len() - 2] == a);
    assert(fb[fb.len() - 2] == b);
}

/// The directory of all uploads has a name that can stand in a path.
pub proof fn lemma_scratch_root_is_name()
    ensures
        is_name(scratch_root()),
{
    reveal_strlit("filest_uploads");
    let name = scratch_root();
    assert(name.len() == 14);
    if name.contains('/') {
        let k = choose|k: int| 0 <= k < name.len() && name[k] == '/';
        assert(name[k] != '/');
    }
}

/// The session that the plan `plan` opens at the time `now`: no chunk
/// received, everything else as planned.
pub open spec fn opened_session(plan: UploadPlanView, now: u64) -> SessionView {
    SessionView {
        upload_id: plan.upload_id,
        filename: plan.filename,
        total_size: plan.total_size,
        total_chunks: plan.total_chunks,
        chunk_size: plan.chunk_size,
        upload_path: plan.upload_path,
        logical_path: plan.logical_path,
        temp_dir: plan.temp_dir,
        received_chunks: Seq::new(plan.total_chunks as nat, |i: int| false),
        created_at: now,
    }
}

/// Opens the upload of `plan`: registers its session under its identifier,
/// with no chunk received, and answers with that identifier and the chunk
/// size that the client asked for.
///
/// The caller has created the scratch directory of the plan; `now` is the
/// caller's clock. A request whose path is refused never gets here: it has
/// no plan (see [`plan_upload`]), so it leaves the registry as it is.
pub fn chunked_upload_init(store: &mut SessionStore, plan: UploadPlan, now: u64) -> (response:
    ChunkedUploadInitResponse)
    ensures
        final(store)@ == old(store)@.insert(plan@.upload_id, opened_session(plan@, now)),
        response.upload_id@ == plan@.upload_id,
        response.chunk_size == plan@.chunk_size,
{
    let upload_id = plan.upload_id.clone();
    let chunk_size = plan.chunk_size;
    let session = UploadSession::new(
        plan.upload_id,
        plan.filename,
        plan.total_size,
        plan.total_chunks,
        plan.chunk_size,
        plan.upload_path,
        plan.logical_path,
        plan.temp_dir,
        now,
    );
    store.create(session);
    ChunkedUploadInitResponse { upload_id, chunk_size }
}

/// Decides where the chunk that `query` names is to be written: the file
/// named after the chunk's index, in the scratch directory of the session.
/// Refused with `SessionNotFound` where no such session is registered, and
/// with `InvalidIndex` where the session has no chunk of that index. The
/// registry does not change: the chunk counts only once it is on disk (see
/// [`chunk_stored`]).
pub fn chunked_upload_chunk(store: &SessionStore, query: &ChunkUploadQuery) -> (r: Result<
    Vec<String>,
    UploadError,
>)
    ensures
        match r {
            Ok(file) => store@.contains_key(query.upload_id@) && query.chunk_index
                < store@[query.upload_id@].total_chunks && names(file@)
                == store@[query.upload_id@].temp_dir.push(chunk_name(query.chunk_index)),
            Err(e) => if store@.contains_key(query.upload_id@) {
                e@ == UploadErrorView::InvalidIndex && query.chunk_index
                    >= store@[query.upload_id@].total_chunks
            } else {
                e@ == UploadErrorView::SessionNotFound
            },
        },
{
    match store.get(query.upload_id.as_str()) {
        None => Err(UploadError::SessionNotFound),
        Some(session) => {
            if query.chunk_index >= session.total_chunks {
                Err(UploadError::InvalidIndex)
            } else {
                Ok(chunk_path(&session, query.chunk_index))
            }
        },
    }
}

/// The scratch file of chunk `index` of `session`.
pub fn chunk_path(session: &UploadSession, index: u32) -> (file: Vec<String>)
    ensures
        names(file@) == session@.temp_dir.push(chunk_name(index)),
{
    let mut file = clone_names(&session.temp_dir);
    file.push(chunk_file_name(index));
    assert(names(file@) =~= names(session.temp_dir@).push(chunk_name(index)));
    file
}

/// Records that the chunk which `query` names is on disk, and confirms it.
/// The chunk's flag goes up in one step; a chunk that arrives again leaves
/// the registry as it is. Where the session has gone in the meantime, or
/// has no such chunk, the registry stays unchanged and the chunk is
/// confirmed all the same: its file lies in a directory that nobody will
/// read.
pub fn chunk_stored(store: &mut SessionStore, query: &ChunkUploadQuery) -> (response:
    ChunkUploadResponse)
    ensures
        response.chunk_index == query.chunk_index,
        response.received,
        final(store)@ == (if old(store)@.contains_key(query.upload_id@) && query.chunk_index < old(
            store,
        )@[query.upload_id@].total_chunks {
            old(store)@.insert(
                query.upload_id@,
                old(store)@[query.upload_id@].with_chunk(query.chunk_index),
            )
        } else {
            old(store)@
        }),
{
    store.mark_received(query.upload_id.as_str(), query.chunk_index);
    ChunkUploadResponse { chunk_index: query.chunk_index, received: true }
}

/// What completing the upload `id` does to the registry `store`, and what
/// it answers: an unknown upload is refused; one with chunks missing is
/// refused with their indices and stays registered, so that the client can
/// send them and try again; one that has every chunk leaves the registry
/// and is handed out for merging.
pub open spec fn completion(store: Map<Seq<char>, SessionView>, id: Seq<char>) -> (
    Map<Seq<char>, SessionView>,
    Result<SessionView, UploadErrorView>,
) {
    if !store.contains_key(id) {
        (store, Err(UploadErrorView::SessionNotFound))
    } else if missing(store[id].received_chunks).len() > 0 {
        (store, Err(UploadErrorView::MissingChunks(missing(store[id].received_chunks))))
    } else {
        (store.remove(id), Ok(store[id]))
    }
}

/// Completes the upload that `req` names, as [`completion`] says.
///
/// The session is taken out of the registry before it is looked at, so of
/// two requests that race to complete one upload only the first finds it.
/// On success the caller merges the chunks (see [`Merge`]); the session is
/// then gone for good, whether or not the merge succeeds.
pub fn chunked_upload_complete(store: &mut SessionStore, req: &ChunkedUploadCompleteRequest) -> (r:
    Result<UploadSession, UploadError>)
    ensures
        final(store)@ == completion(old(store)@, req.upload_id@).0,
        match r {
            Ok(session) => completion(old(store)@, req.upload_id@).1 == Ok::<
                SessionView,
                UploadErrorView,
            >(session@) && session.wf(),
            Err(e) => completion(old(store)@, req.upload_id@).1 == Err::<
                SessionView,
                UploadErrorView,
            >(e@),
        },
{
    match store.remove(req.upload_id.as_str()) {
        None => {
            assert(store@ =~= old(store)@);
            Err(UploadError::SessionNotFound)
        },
        Some(session) => {
            let absent = session.missing_chunks();
            if absent.len() > 0 {
                store.create(session);
                assert(store@ =~= old(store)@);
                Err(UploadError::MissingChunks(absent))
            } else {
                Ok(session)
            }
        },
    }
}

/// What is left to do after an upload was aborted.
#[derive(Clone, Debug, PartialEq, Eq)]
pub struct AbortOutcome {
    /// The answer to the client. Aborting always succeeds.
    pub response: OperationResponse,
    /// The scratch directory to delete, where the upload was registered.
    pub scratch: Option<Vec<String>>,
}

/// Aborts the upload that `req` names: takes its session out of the
/// registry and hands back its scratch directory for deletion. An upload
/// that is not registered is no error: the registry stays as it is and
/// there is nothing to delete.
pub fn chunked_upload_abort(store: &mut SessionStore, req: &ChunkedUploadAbortRequest) -> (outcome:
    AbortOutcome)
    ensures
        final(store)@ == old(store)@.remove(req.upload_id@),
        !old(store)@.contains_key(req.upload_id@) ==> final(store)@ == old(store)@,
        outcome.response.message@ == "Upload aborted"@,
        outcome.response.new_path is None,
        match outcome.scratch {
            Some(dir) => old(store)@.contains_key(req.upload_id@) && names(dir@) == old(
                store,
            )@[req.upload_id@].temp_dir,
            None => !old(store)@.contains_key(req.upload_id@),
        },
{
    let response = OperationResponse { message: "Upload aborted".to_owned(), new_path: None };
    match store.remove(req.upload_id.as_str()) {
        None => {
            assert(store@ =~= old(store)@);
            AbortOutcome { response, scratch: None }
        },
        Some(session) => AbortOutcome { response, scratch: Some(session.temp_dir) },
    }
}

/// The step of a merge that failed.
#[derive(Clone, Copy, Debug, PartialEq, Eq, Structural)]
pub enum MergeFailure {
    /// The target directory could not be created.
    CreateDirectory,
    /// The final file could not be created.
    CreateFile,
    /// A scratch file could not be read.
    Read,
    /// A chunk could not be appended to the final file.
    Write,
    /// The final file could not be synced to disk.
    Sync,
}

/// How a failed merge ends.
#[derive(Clone, Debug, PartialEq, Eq)]
pub struct MergeAbort {
    /// The error to answer with.
    pub message: String,
    /// Whether the final file exists in part and has to be deleted.
    pub remove_final: bool,
}

/// Whether a failure of the step `kind` leaves a partly written final file
/// behind: every failure after the file was created does.
pub open spec fn leaves_partial_file(kind: MergeFailure) -> bool {
    kind == MergeFailure::Read || kind == MergeFailure::Write || kind == MergeFailure::Sync
}

/// What the error for a failed step says before the reason; `next` is the
/// index of the chunk that the merge was at.
pub open spec fn merge_failure_text(kind: MergeFailure, next: u32) -> Seq<char> {
    match kind {
        MergeFailure::CreateDirectory => "Failed to create upload directory"@,
        MergeFailure::CreateFile => "Failed to create final file"@,
        MergeFailure::Read => "Failed to read chunk "@ + decimal(next as nat),
        MergeFailure::Write => "Failed to write chunk "@ + decimal(next as nat)
            + " to final file"@,
        MergeFailure::Sync => "Failed to sync file"@,
    }
}

/// What the merge has to do next.
#[derive(Clone, Debug, PartialEq, Eq)]
pub enum MergeStep {
    /// Append the whole of this scratch file to the final file, then report
    /// its length with [`Merge::appended`].
    Append(Vec<String>),
    /// Every chunk has been appended: sync the final file and delete the
    /// scratch directory. The number is the size of the final file.
    Finish(u64),
}

/// The merge of a completed upload: which chunk is next, and how many bytes
/// the final file holds so far. Chunks are appended in index order, from 0
/// to the last, whatever order they arrived in.
#[derive(Clone, Debug, PartialEq, Eq)]
pub struct Merge {
    /// The scratch directory that holds the chunks.
    pub temp_dir: Vec<String>,
    /// The number of chunks to append.
    pub total_chunks: u32,
    /// The index of the next chunk to append.
    pub next: u32,
    /// The bytes appended so far. The count stops at the largest value it
    /// can hold.
    pub written: u64,
}

/// The sum of `a` and `b`, or the largest 64-bit value where the sum is
/// larger than that.
pub open spec fn capped_sum(a: u64, b: u64) -> u64 {
    if a + b > u64::MAX {
        u64::MAX
    } else {
        (a + b) as u64
    }
}

impl Merge {
    /// The merge of `session`, before its first chunk.
    pub fn start(session: &UploadSession) -> (merge: Merge)
        ensures
            names(merge.temp_dir@) == session@.temp_dir,
            merge.total_chunks == session.total_chunks,
            merge.next == 0,
            merge.written == 0,
    {
        Merge {
            temp_dir: clone_names(&session.temp_dir),
            total_chunks: session.total_chunks,
            next: 0,
            written: 0,
        }
    }

    /// What to do next: append the scratch file of the next chunk, or, after
    /// the last chunk, finish.
    pub fn step(&self) -> (step: MergeStep)
        ensures
            match step {
                MergeStep::Append(file) => self.next < self.total_chunks && names(file@) == names(
                    self.temp_dir@,
                ).push(chunk_name(self.next)),
                MergeStep::Finish(size) => self.next >= self.total_chunks && size == self.written,
            },
    {
        if self.next < self.total_chunks {
            let mut file = clone_names(&self.temp_dir);
            file.push(chunk_file_name(self.next));
            assert(names(file@) =~= names(self.temp_dir@).push(chunk_name(self.next)));
            MergeStep::Append(file)
        } else {
            MergeStep::Finish(self.written)
        }
    }

    /// What to do when the step `kind` of the merge has failed for the
    /// reason `why`: the error to answer with, and whether a partly written
    /// final file has to be deleted. The merge is then over. The scratch
    /// directory stays, and the session is not registered again.
    pub fn failed(&self, kind: MergeFailure, why: &str) -> (abort: MergeAbort)
        ensures
            abort.message@ == merge_failure_text(kind, self.next) + ": "@ + why@,
            abort.remove_final == leaves_partial_file(kind),
    {
        let mut out: Vec<char> = Vec::new();
        let remove_final = match kind {
            MergeFailure::CreateDirectory => {
                push_str(&mut out, "Failed to create upload directory");
                false
            },
            MergeFailure::CreateFile => {
                push_str(&mut out, "Failed to create final file");
                false
            },
            MergeFailure::Read => {
                push_str(&mut out, "Failed to read chunk ");
                push_decimal(&mut out, self.next as u64);
                true
            },
            MergeFailure::Write => {
                push_str(&mut out, "Failed to write chunk ");
                push_decimal(&mut out, self.next as u64);
                push_str(&mut out, " to final file");
                true
            },
            MergeFailure::Sync => {
                push_str(&mut out, "Failed to sync file");
                true
            },
        };
        push_str(&mut out, ": ");
        push_str(&mut out, why);
        MergeAbort { message: string_of(&out), remove_final }
    }

    /// Records that the next chunk, `len` bytes long, has been appended.
    /// After the last chunk this changes nothing.
    pub fn appended(&mut self, len: u64)
        ensures
            final(self).temp_dir == old(self).temp_dir,
            final(self).total_chunks == old(self).total_chunks,
            old(self).next < old(self).total_chunks ==> final(self).next == old(self).next + 1
                && final(self).written == capped_sum(old(self).written, len),
            old(self).next >= old(self).total_chunks ==> final(self).next == old(self).next
                && final(self).written == old(self).written,
    {
        if self.next < self.total_chunks {
            self.next = self.next + 1;
            self.written = self.written.saturating_add(len);
        }
    }
}

/// Where the file of `session` is for the client: its name, in the target
/// directory as the client asked for it. No link is followed in it, so the
/// client finds it under the path it gave.
pub fn logical_destination(session: &UploadSession) -> (file: Vec<String>)
    ensures
        names(file@) == session@.logical_path.push(session.filename@),
{
    let mut file = clone_names(&session.logical_path);
    file.push(session.filename.clone());
    assert(names(file@) =~= names(session.logical_path@).push(session.filename@));
    file
}

/// The answer to a completed upload of `size` bytes: the name of the file,
/// its size, and its logical path as the client sees it.
pub fn chunked_upload_finished(root: &Vec<String>, session: &UploadSession, size: u64) -> (response:
    ChunkedUploadCompleteResponse)
    ensures
        response.name@ == session.filename@,
        response.size == size,
        response.path@ == relative(names(root@), session@.logical_path.push(session.filename@)),
{
    let destination = logical_destination(session);
    ChunkedUploadCompleteResponse {
        name: session.filename.clone(),
        size,
        path: relative_path(root, &destination),
    }
}

/// The file that the upload of `session` creates on disk: its name, in the
/// target directory with its links resolved. A file that is already there
/// is overwritten by the merge.
pub fn final_path(session: &UploadSession) -> (file: Vec<String>)
    ensures
        names(file@) == session@.upload_path.push(session.filename@),
{
    let mut file = clone_names(&session.upload_path);
    file.push(session.filename.clone());
    assert(names(file@) =~= names(session.upload_path@).push(session.filename@));
    file
}

/// The scratch directory after `arrivals`, as a map from file name to
/// content: each arrival, a chunk index with the bytes sent for it, writes
/// the scratch file of that index, over what an earlier arrival of the same
/// index left there.
pub open spec fn scratch_after(arrivals: Seq<(u32, Seq<u8>)>) -> Map<Seq<char>, Seq<u8>>
    decreases arrivals.len(),
{
    if arrivals.len() == 0 {
        Map::<Seq<char>, Seq<u8>>::empty()
    } else {
        scratch_after(arrivals.drop_last()).insert(
            chunk_name(arrivals.last().0),
            arrivals.last().1,
        )
    }
}

/// The file that a merge of `total_chunks` chunks makes of the scratch
/// directory `scratch`: the contents of the scratch files in index order,
/// as the steps of a [`Merge`] ask for them.
pub open spec fn merged(scratch: Map<Seq<char>, Seq<u8>>, total_chunks: nat) -> Seq<u8>
    decreases total_chunks,
{
    if total_chunks == 0 {
        Seq::<u8>::empty()
    } else {
        merged(scratch, (total_chunks - 1) as nat) + scratch[chunk_name((total_chunks - 1) as u32)]
    }
}

/// The chunks one after the other.
pub open spec fn concatenated(chunks: Seq<Seq<u8>>) -> Seq<u8>
    decreases chunks.len(),
{
    if chunks.len() == 0 {
        Seq::<u8>::empty()
    } else {
        concatenated(chunks.drop_last()) + chunks.last()
    }
}

/// The flags of a session after the chunks `indices` were stored, starting
/// from `flags`.
pub open spec fn flags_after(flags: Seq<bool>, indices: Seq<u32>) -> Seq<bool>
    decreases indices.len(),
{
    if indices.len() == 0 {
        flags
    } else {
        let before = flags_after(flags, indices.drop_last());
        if indices.last() < before.len() {
            before.update(indices.last() as int, true)
        } else {
            before
        }
    }
}

/// Whether `arrivals` brings each chunk of `chunks` at least once, and
/// under each index the bytes of that chunk. Every order of the chunks does
/// so, and so does one in which a chunk comes twice.
pub open spec fn delivers(arrivals: Seq<(u32, Seq<u8>)>, chunks: Seq<Seq<u8>>) -> bool {
    &&& forall|k: int|
        0 <= k < arrivals.len() ==> (#[trigger] arrivals[k]).0 < chunks.len() && arrivals[k].1
            == chunks[arrivals[k].0 as int]
    &&& forall|i: int| 0 <= i < chunks.len() ==> #[trigger] arrives(arrivals, i)
}

/// Whether chunk `index` is among `arrivals`.
pub open spec fn arrives(arrivals: Seq<(u32, Seq<u8>)>, index: int) -> bool {
    exists|k: int| 0 <= k < arrivals.len() && (#[trigger] arrivals[k]).0 == index
}

/// Whether chunk `index` is among `indices`.
pub open spec fn listed_in(indices: Seq<u32>, index: int) -> bool {
    exists|k: int| 0 <= k < indices.len() && #[trigger] indices[k] == index
}

/// After the arrivals, the scratch file of a chunk that arrived holds the
/// bytes of that chunk.
proof fn lemma_scratch_holds(arrivals: Seq<(u32, Seq<u8>)>, chunks: Seq<Seq<u8>>, i: u32)
    requires
        forall|k: int|
            0 <= k < arrivals.len() ==> (#[trigger] arrivals[k]).0 < chunks.len() && arrivals[k].1
                == chunks[arrivals[k].0 as int],
        arrives(arrivals, i as int),
    ensures
        scratch_after(arrivals).contains_key(chunk_name(i)),
        scratch_after(arrivals)[chunk_name(i)] == chunks[i as int],
    decreases arrivals.len(),
{
    let last = arrivals.last();
    let before = arrivals.drop_last();
    if last.0 != i {
        lemma_chunk_names_differ(last.0, i);
        let k = choose|k: int| 0 <= k < arrivals.len() && (#[trigger] arrivals[k]).0 == i;
        assert(before[k] == arrivals[k]);
        assert forall|j: int| 0 <= j < before.len() implies (#[trigger] before[j]).0 < chunks.len()
            && before[j].1 == chunks[before[j].0 as int] by {
            assert(before[j] == arrivals[j]);
        }
        lemma_scratch_holds(before, chunks, i);
    }
}

/// The merge of the first `n` chunks gives them one after the other, where
/// each of them has arrived.
proof fn lemma_merged_prefix(arrivals: Seq<(u32, Seq<u8>)>, chunks: Seq<Seq<u8>>, n: nat)
    requires
        chunks.len() <= u32::MAX,
        delivers(arrivals, chunks),
        n <= chunks.len(),
    ensures
        merged(scratch_after(arrivals), n) == concatenated(chunks.subrange(0, n as int)),
    decreases n,
{
    if n == 0 {
        assert(chunks.subrange(0, 0) =~= Seq::<Seq<u8>>::empty());
    } else {
        lemma_merged_prefix(arrivals, chunks, (n - 1) as nat);
        assert(arrives(arrivals, n - 1));
        lemma_scratch_holds(arrivals, chunks, (n - 1) as u32);
        assert(chunks.subrange(0, n as int).drop_last() =~= chunks.subrange(0, n - 1));
    }
}

/// Reassembly does not depend on the order of arrival. Whatever order the
/// chunks of a file arrive in, and however often one of them is sent
/// again, the merge yields the chunks in index order: byte for byte the
/// file that arrival in index order yields.
pub proof fn lemma_merge_ignores_arrival_order(
    chunks: Seq<Seq<u8>>,
    arrivals: Seq<(u32, Seq<u8>)>,
    in_order: Seq<(u32, Seq<u8>)>,
)
    requires
        chunks.len() <= u32::MAX,
        delivers(arrivals, chunks),
        in_order == Seq::new(chunks.len(), |i: int| (i as u32, chunks[i])),
    ensures
        merged(scratch_after(arrivals), chunks.len()) == concatenated(chunks),
        merged(scratch_after(arrivals), chunks.len()) == merged(
            scratch_after(in_order),
            chunks.len(),
        ),
{
    assert(chunks.subrange(0, chunks.len() as int) =~= chunks);
    lemma_merged_prefix(arrivals, chunks, chunks.len());
    assert(delivers(in_order, chunks)) by {
        assert forall|i: int| 0 <= i < chunks.len() implies #[trigger] arrives(in_order, i) by {
            assert(in_order[i].0 == i);
        }
    }
    lemma_merged_prefix(in_order, chunks, chunks.len());
}

/// A chunk that was stored stays stored, and storing chunks keeps the
/// number of flags.
proof fn lemma_flags_after(flags: Seq<bool>, indices: Seq<u32>)
    ensures
        flags_after(flags, indices).len() == flags.len(),
        forall|i: int| 0 <= i < flags.len() && flags[i] ==> flags_after(flags, indices)[i],
        forall|i: int, k: int|
            0 <= i < flags.len() && 0 <= k < indices.len() && indices[k] == i ==> flags_after(
                flags,
                indices,
            )[i],
    decreases indices.len(),
{
    if indices.len() > 0 {
        lemma_flags_after(flags, indices.drop_last());
        assert forall|i: int, k: int|
            0 <= i < flags.len() && 0 <= k < indices.len() && indices[k] == i implies flags_after(
            flags,
            indices,
        )[i] by {
            if k < indices.len() - 1 {
                assert(indices.drop_last()[k] == indices[k]);
            }
        }
    }
}

/// Once every chunk of a fresh session has been stored, in whatever order,
/// no chunk is missing, so the upload can be completed.
pub proof fn lemma_all_stored_none_missing(total_chunks: u32, indices: Seq<u32>)
    requires
        forall|i: int| 0 <= i < total_chunks ==> #[trigger] listed_in(indices, i),
    ensures
        missing(flags_after(Seq::new(total_chunks as nat, |i: int| false), indices)).len() == 0,
{
    let fresh = Seq::new(total_chunks as nat, |i: int| false);
    let flags = flags_after(fresh, indices);
    lemma_flags_after(fresh, indices);
    crate::session::lemma_missing_lists_unreceived(flags);
    assert forall|i: int| 0 <= i < flags.len() implies flags[i] by {
        assert(listed_in(indices, i));
        let k = choose|k: int| 0 <= k < indices.len() && #[trigger] indices[k] == i;
        assert(indices[k] == i);
    }
}

/// Completing an upload that lacks a chunk fails with the missing indices,
/// the lacking one among them, and changes nothing: the session is still
/// registered as it was, so the client can send the chunk and try again.
pub proof fn lemma_incomplete_upload_stays(
    store: Map<Seq<char>, SessionView>,
    id: Seq<char>,
    index: u32,
)
    requires
        store.contains_key(id),
        store[id].wf(),
        index < store[id].total_chunks,
        !store[id].received_chunks[index as int],
    ensures
        completion(store, id).0 == store,
        completion(store, id).1 == Err::<SessionView, UploadErrorView>(
            UploadErrorView::MissingChunks(missing(store[id].received_chunks)),
        ),
        missing(store[id].received_chunks).contains(index),
{
    crate::session::lemma_missing_lists_unreceived(store[id].received_chunks);
    let m = missing(store[id].received_chunks);
    assert(m.contains(index));
    let k = choose|k: int| 0 <= k < m.len() && m[k] == index;
}

/// An upload is completed once. After a completion that succeeded, the
/// session is gone: a second completion finds no session, and so does one
/// that lost a race against the first.
pub proof fn lemma_completion_happens_once(store: Map<Seq<char>, SessionView>, id: Seq<char>)
    requires
        completion(store, id).1 is Ok,
    ensures
        completion(completion(store, id).0, id).1 == Err::<SessionView, UploadErrorView>(
            UploadErrorView::SessionNotFound,
        ),
        completion(completion(store, id).0, id).0 == completion(store, id).0,
{
}

} // verus!
