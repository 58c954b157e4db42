//! The values that travel between the service and its clients: request
//! bodies, query parameters and response bodies, as plain data.

pub use crate::session::{new_upload_sessions, UploadSession, UploadSessions};
use vstd::prelude::*;

verus! {

/// What the service is set up with: the sandbox root and the one account.
#[derive(Clone, Debug, PartialEq, Eq)]
pub struct AppState {
    /// The sandbox root, as the names of its path.
    pub root_dir: Vec<String>,
    pub username: String,
    pub password: String,
}

/// The envelope of every JSON answer: either the data of a success, or the
/// message of a failure.
#[derive(Clone, Debug, PartialEq, Eq)]
pub struct ApiResponse<T> {
    pub success: bool,
    pub error: Option<String>,
    pub data: Option<T>,
}

impl<T> ApiResponse<T> {
    /// The answer that carries `data`.
    pub fn success(data: T) -> (r: Self)
        ensures
            r.success,
            r.error is None,
            r.data == Some(data),
    {
        ApiResponse { success: true, error: None, data: Some(data) }
    }

    /// The answer that carries the error `message` and nothing else.
    pub fn error(message: String) -> (r: ApiResponse<()>)
        ensures
            !r.success,
            r.error == Some(message),
            r.data is None,
    {
        ApiResponse { success: false, error: Some(message), data: None }
    }
}

/// One entry of a directory listing.
#[derive(Clone, Debug, PartialEq, Eq)]
pub struct FileInfo {
    pub name: String,
    pub path: String,
    pub file_type: String,
    pub size: u64,
    pub size_formatted: String,
    pub modified: String,
    pub created: String,
}

/// A directory listing.
#[derive(Clone, Debug, PartialEq, Eq)]
pub struct FilesResponse {
    pub path: String,
    pub files: Vec<FileInfo>,
}

/// Every directory of the sandbox.
#[derive(Clone, Debug, PartialEq, Eq)]
pub struct FoldersResponse {
    pub folders: Vec<FolderItem>,
}

/// One directory: its path, and the indented name to show for it.
#[derive(Clone, Debug, PartialEq, Eq)]
pub struct FolderItem {
    pub path: String,
    pub display: String,
}

/// How full the disk under the sandbox is, in bytes.
#[derive(Clone, Debug, PartialEq, Eq)]
pub struct DiskResponse {
    pub total: u64,
    pub used: u64,
    pub free: u64,
    pub used_formatted: String,
}

/// The details of one file or directory.
#[derive(Clone, Debug, PartialEq, Eq)]
pub struct InfoResponse {
    pub info: FileInfoDetail,
}

/// A listing entry, with the number of children where it is a directory.
#[derive(Clone, Debug, PartialEq, Eq)]
pub struct FileInfoDetail {
    pub name: String,
    pub path: String,
    pub file_type: String,
    pub size: u64,
    pub size_formatted: String,
    pub modified: String,
    pub created: String,
    pub children: Option<usize>,
}

/// The entries a search found.
#[derive(Clone, Debug, PartialEq, Eq)]
pub struct SearchResponse {
    pub results: Vec<FileInfo>,
}

/// The files a single-request upload stored.
#[derive(Clone, Debug, PartialEq, Eq)]
pub struct UploadResponse {
    pub files: Vec<UploadedFile>,
}

/// One stored file: its name, its size in bytes, and where it is.
#[derive(Clone, Debug, PartialEq, Eq)]
pub struct UploadedFile {
    pub name: String,
    pub size: u64,
    pub path: String,
}

/// The outcome of an operation that changes the tree.
#[derive(Clone, Debug, PartialEq, Eq)]
pub struct OperationResponse {
    pub message: String,
    pub new_path: Option<String>,
}

#[derive(Clone, Debug, PartialEq, Eq)]
pub struct CreateFolderRequest {
    pub path: String,
    pub name: String,
}

#[derive(Clone, Debug, PartialEq, Eq)]
pub struct RenameRequest {
    pub path: String,
    pub new_name: String,
}

#[derive(Clone, Debug, PartialEq, Eq)]
pub struct MoveRequest {
    pub source: String,
    pub destination: String,
}

#[derive(Clone, Debug, PartialEq, Eq)]
pub struct CopyRequest {
    pub source: String,
    pub destination: String,
}

#[derive(Clone, Debug, PartialEq, Eq)]
pub struct DeleteRequest {
    pub path: String,
}

#[derive(Clone, Debug, PartialEq, Eq)]
pub struct PathQuery {
    pub path: Option<String>,
}

#[derive(Clone, Debug, PartialEq, Eq)]
pub struct SearchQuery {
    pub query: String,
    pub path: Option<String>,
}

/// Opens a chunked upload: where the file goes, and how it will be cut.
#[derive(Clone, Debug, PartialEq, Eq)]
pub struct ChunkedUploadInitRequest {
    pub path: String,
    pub filename: String,
    pub total_size: u64,
    pub chunk_size: u64,
    pub total_chunks: u32,
}

/// The identifier of the new upload, and the chunk size to use.
#[derive(Clone, Debug, PartialEq, Eq)]
pub struct ChunkedUploadInitResponse {
    pub upload_id: String,
    pub chunk_size: u64,
}

/// Names the upload and the chunk that a request body holds.
#[derive(Clone, Debug, PartialEq, Eq)]
pub struct ChunkUploadQuery {
    pub upload_id: String,
    pub chunk_index: u32,
}

/// Confirms one chunk.
#[derive(Clone, Debug, PartialEq, Eq)]
pub struct ChunkUploadResponse {
    pub chunk_index: u32,
    pub received: bool,
}

#[derive(Clone, Debug, PartialEq, Eq)]
pub struct ChunkedUploadCompleteRequest {
    pub upload_id: String,
}

/// The merged file: its name, its size in bytes, and where it is.
#[derive(Clone, Debug, PartialEq, Eq)]
pub struct ChunkedUploadCompleteResponse {
    pub name: String,
    pub size: u64,
    pub path: String,
}

#[derive(Clone, Debug, PartialEq, Eq)]
pub struct ChunkedUploadAbortRequest {
    pub upload_id: String,
}

} // verus!
