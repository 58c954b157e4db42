//! What the file operations decide before and after they touch the disk:
//! how an entry is described, what a copy is called, where a renamed file
//! goes, which disk the sandbox lies on, and how a single-request upload
//! keeps track of its files.

use crate::models::{
    DiskResponse, FileInfo, FileInfoDetail, FolderItem, UploadResponse, UploadedFile,
};
use crate::path::{
    access_denied, is_descendant, is_under, relative, relative_path, resolve, resolved,
    starts_with,
};
use crate::size::{format_size, size_text};
use crate::text::{chars_of, clone_names, decimal, names, push_decimal, push_str, string_of};
use vstd::prelude::*;

verus! {

/// What the filesystem says of an entry.
#[derive(Clone, Debug, PartialEq, Eq)]
pub struct EntryMeta {
    pub is_dir: bool,
    /// The size in bytes.
    pub len: u64,
    /// When the entry was last changed, as text; `None` where the
    /// filesystem does not say.
    pub modified: Option<String>,
    /// When the entry was created, as text; `None` where the filesystem
    /// does not say.
    pub created: Option<String>,
}

/// The last name of `path`, or nothing for the empty path.
pub open spec fn last_name(path: Seq<Seq<char>>) -> Seq<char> {
    if path.len() == 0 {
        Seq::<char>::empty()
    } else {
        path.last()
    }
}

/// The kind of an entry, as clients are told it.
pub open spec fn kind_name(is_dir: bool) -> Seq<char> {
    if is_dir {
        "folder"@
    } else {
        "file"@
    }
}

/// A time as clients are told it: the text, or a dash where there is none.
pub open spec fn time_text(time: Option<String>) -> Seq<char> {
    match time {
        Some(text) => text@,
        None => "-"@,
    }
}

/// The last name of `path`, or the empty string for the empty path.
pub fn file_name(path: &Vec<String>) -> (name: String)
    ensures
        name@ == last_name(names(path@)),
{
    if path.len() == 0 {
        String::new()
    } else {
        path[path.len() - 1].clone()
    }
}

/// A time as clients are told it.
fn shown_time(time: &Option<String>) -> (text: String)
    ensures
        text@ == time_text(*time),
{
    match time {
        Some(text) => text.clone(),
        None => "-".to_owned(),
    }
}

/// The kind of an entry, as clients are told it.
fn shown_kind(is_dir: bool) -> (text: String)
    ensures
        text@ == kind_name(is_dir),
{
    if is_dir {
        "folder".to_owned()
    } else {
        "file".to_owned()
    }
}

/// Describes the entry at `path`, of which the filesystem says `meta`: its
/// name is the last name of the path, and its path is shown relative to
/// `root`.
pub fn get_file_info(root: &Vec<String>, path: &Vec<String>, meta: &EntryMeta) -> (info: FileInfo)
    ensures
        info.name@ == last_name(names(path@)),
        info.path@ == relative(names(root@), names(path@)),
        info.file_type@ == kind_name(meta.is_dir),
        info.size == meta.len,
        info.size_formatted@ == size_text(meta.len),
        info.modified@ == time_text(meta.modified),
        info.created@ == time_text(meta.created),
{
    FileInfo {
        name: file_name(path),
        path: relative_path(root, path),
        file_type: shown_kind(meta.is_dir),
        size: meta.len,
        size_formatted: format_size(meta.len),
        modified: shown_time(&meta.modified),
        created: shown_time(&meta.created),
    }
}

/// The path under which an entry of a listed directory is shown: the
/// directory as it was asked for, and the entry's name.
pub open spec fn listed_path(logical_dir: Seq<Seq<char>>, name: Seq<char>) -> Seq<Seq<char>> {
    if name.len() == 0 {
        logical_dir
    } else {
        logical_dir.push(name)
    }
}

/// Describes an entry of a listed directory. The entry was found at
/// `actual_file`, but it is shown below `logical_dir`, the directory as the
/// client asked for it, so that paths stay the same across links.
pub fn get_file_info_with_logical_base(
    root: &Vec<String>,
    logical_dir: &Vec<String>,
    actual_file: &Vec<String>,
    meta: &EntryMeta,
) -> (info: FileInfo)
    ensures
        info.name@ == last_name(names(actual_file@)),
        info.path@ == relative(
            names(root@),
            listed_path(names(logical_dir@), last_name(names(actual_file@))),
        ),
        info.file_type@ == kind_name(meta.is_dir),
        info.size == meta.len,
        info.size_formatted@ == size_text(meta.len),
        info.modified@ == time_text(meta.modified),
        info.created@ == time_text(meta.created),
{
    let name = file_name(actual_file);
    let mut shown = clone_names(logical_dir);
    if name.as_str().unicode_len() > 0 {
        shown.push(name.clone());
        assert(names(shown@) =~= names(logical_dir@).push(name@));
    } else {
        assert(names(shown@) =~= names(logical_dir@));
    }
    FileInfo {
        name,
        path: relative_path(root, &shown),
        file_type: shown_kind(meta.is_dir),
        size: meta.len,
        size_formatted: format_size(meta.len),
        modified: shown_time(&meta.modified),
        created: shown_time(&meta.created),
    }
}

/// The details of an entry. For a directory, `dir` holds the number of its
/// children and the size of all that is in it, which then stand for the
/// size of the entry itself.
pub fn get_info(info: FileInfo, dir: Option<(usize, u64)>) -> (detail: FileInfoDetail)
    ensures
        detail.name == info.name,
        detail.path == info.path,
        detail.file_type == info.file_type,
        detail.modified == info.modified,
        detail.created == info.created,
        match dir {
            Some((children, size)) => detail.children == Some(children) && detail.size == size
                && detail.size_formatted@ == size_text(size),
            None => detail.children is None && detail.size == info.size && detail.size_formatted
                == info.size_formatted,
        },
{
    let (children, size, size_formatted) = match dir {
        Some((children, size)) => (Some(children), size, format_size(size)),
        None => (None, info.size, info.size_formatted),
    };
    FileInfoDetail {
        name: info.name,
        path: info.path,
        file_type: info.file_type,
        size,
        size_formatted,
        modified: info.modified,
        created: info.created,
        children,
    }
}

/// Where `path` goes when its last name is changed to `name`: the same
/// directory, the new name. `None` for the empty path, which has no
/// directory above it.
pub fn rename_target(path: &Vec<String>, name: &str) -> (r: Option<Vec<String>>)
    ensures
        match r {
            Some(target) => path.len() > 0 && names(target@) == names(path@).drop_last().push(
                name@,
            ),
            None => path.len() == 0,
        },
{
    if path.len() == 0 {
        return None;
    }
    let mut target: Vec<String> = Vec::new();
    let mut i: usize = 0;
    while i < path.len() - 1
        invariant
            path.len() > 0,
            i <= path.len() - 1,
            names(target@) == names(path@).subrange(0, i as int),
        decreases path.len() - 1 - i,
    {
        let ghost so_far = names(target@);
        target.push(path[i].clone());
        assert(names(target@) =~= so_far.push(path@[i as int]@));
        i += 1;
        assert(names(path@).subrange(0, i as int) =~= names(path@).subrange(0, i - 1).push(
            path@[i - 1]@,
        ));
    }
    let ghost dir = names(target@);
    target.push(name.to_owned());
    assert(dir =~= names(path@).drop_last());
    assert(names(target@) =~= dir.push(name@));
    Some(target)
}

/// Whether moving `source` to `dest` would put a directory into itself.
pub fn moves_into_itself(source: &Vec<String>, source_is_dir: bool, dest: &Vec<String>) -> (inside: bool)
    ensures
        inside == (source_is_dir && is_under(names(source@), names(dest@))),
{
    source_is_dir && starts_with(dest, source)
}

/// The place of the last dot that parts a file name into stem and
/// extension: a dot that is not the first character. `None` where the name
/// has no such dot, and for `..`.
pub open spec fn extension_dot(name: Seq<char>) -> Option<int> {
    if name == seq!['.', '.'] {
        None
    } else {
        match name.index_of_last('.') {
            Some(i) => if i > 0 {
                Some(i)
            } else {
                None
            },
            None => None,
        }
    }
}

/// The name without its extension and the dot before it.
pub open spec fn stem_of(name: Seq<char>) -> Seq<char> {
    match extension_dot(name) {
        Some(i) => name.subrange(0, i),
        None => name,
    }
}

/// The extension of the name: what follows its last dot.
pub open spec fn extension_of(name: Seq<char>) -> Option<Seq<char>> {
    match extension_dot(name) {
        Some(i) => Some(name.subrange(i + 1, name.len() as int)),
        None => None,
    }
}

/// The name of the `counter`-th copy of a file beside the file itself: the
/// stem, the counter in brackets and, where the name has an extension, a
/// dot, a space and the extension.
pub open spec fn copy_name(name: Seq<char>, counter: u64) -> Seq<char> {
    match extension_of(name) {
        Some(ext) => stem_of(name) + " ("@ + decimal(counter as nat) + "). "@ + ext,
        None => stem_of(name) + " ("@ + decimal(counter as nat) + ")"@,
    }
}

/// The name to try for a copy of the file `name` when the names tried
/// before it are taken; `counter` counts the tries from 1.
pub fn copy_file_name(name: &str, counter: u64) -> (copy: String)
    ensures
        copy@ == copy_name(name@, counter),
{
    let text = chars_of(name);
    let mut dot: Option<usize> = None;
    let mut i: usize = 0;
    while i < text.len()
        invariant
            i <= text.len(),
            match dot {
                Some(k) => k < i && text@[k as int] == '.' && forall|j: int|
                    k < j < i ==> text@[j] != '.',
                None => forall|j: int| 0 <= j < i ==> text@[j] != '.',
            },
        decreases text.len() - i,
    {
        if text[i] == '.' {
            dot = Some(i);
        }
        i += 1;
    }
    proof {
        text@.index_of_last_ensures('.');
        match dot {
            Some(k) => {
                assert(text@.contains('.'));
                let found = text@.index_of_last('.')->0;
                if found < k {
                    assert(text@[k as int] == '.');
                } else if k < found {
                    assert(text@[found] != '.');
                }
                assert(text@.index_of_last('.') == Some(k as int));
            },
            None => {
                assert(!text@.contains('.'));
            },
        }
    }
    let is_parent = text.len() == 2 && text[0] == '.' && text[1] == '.';
    proof {
        if is_parent {
            assert(text@ =~= seq!['.', '.']);
        } else if text@ == seq!['.', '.'] {
            assert(text@.len() == 2 && text@[0] == '.' && text@[1] == '.');
        }
    }
    let cut: Option<usize> = match dot {
        Some(k) => if k > 0 && !is_parent {
            Some(k)
        } else {
            None
        },
        None => None,
    };
    assert(match cut {
        Some(k) => extension_dot(text@) == Some(k as int),
        None => extension_dot(text@) is None,
    });
    let mut out: Vec<char> = Vec::new();
    match cut {
        Some(k) => {
            let mut j: usize = 0;
            while j < k
                invariant
                    j <= k < text.len(),
                    out@ == text@.subrange(0, j as int),
                decreases k - j,
            {
                out.push(text[j]);
                j += 1;
            }
            push_str(&mut out, " (");
            push_decimal(&mut out, counter);
            push_str(&mut out, "). ");
            let ghost head = out@;
            let mut j: usize = k + 1;
            while j < text.len()
                invariant
                    k + 1 <= j <= text.len(),
                    out@ == head + text@.subrange(k + 1, j as int),
                decreases text.len() - j,
            {
                out.push(text[j]);
                j += 1;
            }
            assert(out@ =~= copy_name(name@, counter));
        },
        None => {
            let mut j: usize = 0;
            while j < text.len()
                invariant
                    j <= text.len(),
                    out@ == text@.subrange(0, j as int),
                decreases text.len() - j,
            {
                out.push(text[j]);
                j += 1;
            }
            assert(text@.subrange(0, j as int) =~= text@);
            push_str(&mut out, " (");
            push_decimal(&mut out, counter);
            push_str(&mut out, ")");
            assert(out@ =~= copy_name(name@, counter));
        },
    }
    string_of(&out)
}

/// A disk of the machine: where it is mounted, how large it is, and how
/// much of it is free, in bytes.
#[derive(Clone, Debug, PartialEq, Eq)]
pub struct DiskInfo {
    pub mount_point: Vec<String>,
    pub total_space: u64,
    pub available_space: u64,
}

/// The size that is reported where no disk is found: 500 GiB.
pub const DEFAULT_TOTAL: u64 = 536870912000;

/// The free space that is reported where no disk is found: 400 GiB.
pub const DEFAULT_FREE: u64 = 429496729600;

/// The first of `disks` that `root` lies on: the first whose mount point is
/// `root` or a directory above it. `None` where there is no such disk.
pub open spec fn disk_of(root: Seq<Seq<char>>, disks: Seq<DiskInfo>) -> Option<int>
    decreases disks.len(),
{
    if disks.len() == 0 {
        None
    } else {
        match disk_of(root, disks.drop_last()) {
            Some(i) => Some(i),
            None => if is_under(names(disks.last().mount_point@), root) {
                Some(disks.len() - 1)
            } else {
                None
            },
        }
    }
}

/// How full the disk of the sandbox is: the numbers of the first of
/// `disks` that `root` lies on, or the default numbers where there is none.
/// What is not free counts as used.
pub fn get_disk_info(root: &Vec<String>, disks: &Vec<DiskInfo>) -> (r: DiskResponse)
    ensures
        match disk_of(names(root@), disks@) {
            Some(i) => 0 <= i < disks.len() && r.total == disks@[i].total_space && r.free
                == disks@[i].available_space,
            None => r.total == DEFAULT_TOTAL && r.free == DEFAULT_FREE,
        },
        r.used == (if r.total >= r.free {
            r.total - r.free
        } else {
            0
        }),
        r.used_formatted@ == size_text(r.used),
{
    let (total, free) = match find_disk(root, disks) {
        Some(i) => (disks[i].total_space, disks[i].available_space),
        None => (DEFAULT_TOTAL, DEFAULT_FREE),
    };
    let used = total.saturating_sub(free);
    DiskResponse { total, used, free, used_formatted: format_size(used) }
}

/// The place in `disks` of the first disk that `root` lies on.
fn find_disk(root: &Vec<String>, disks: &Vec<DiskInfo>) -> (r: Option<usize>)
    ensures
        match r {
            Some(i) => i < disks.len() && disk_of(names(root@), disks@) == Some(i as int),
            None => disk_of(names(root@), disks@) is None,
        },
{
    let mut i: usize = 0;
    proof {
        assert(disks@.subrange(0, 0) =~= Seq::<DiskInfo>::empty());
    }
    while i < disks.len()
        invariant
            i <= disks.len(),
            disk_of(names(root@), disks@.subrange(0, i as int)) is None,
        decreases disks.len() - i,
    {
        proof {
            assert(disks@.subrange(0, i + 1).drop_last() =~= disks@.subrange(0, i as int));
        }
        if starts_with(root, &disks[i].mount_point) {
            proof {
                lemma_disk_found(names(root@), disks@, i + 1);
            }
            return Some(i);
        }
        i += 1;
    }
    proof {
        assert(disks@.subrange(0, i as int) =~= disks@);
    }
    None
}

/// A disk that is found among the first `upto` disks is the one found
/// among all of them.
proof fn lemma_disk_found(root: Seq<Seq<char>>, disks: Seq<DiskInfo>, upto: int)
    requires
        0 <= upto <= disks.len(),
        disk_of(root, disks.subrange(0, upto)) is Some,
    ensures
        disk_of(root, disks) == disk_of(root, disks.subrange(0, upto)),
    decreases disks.len() - upto,
{
    if upto == disks.len() {
        assert(disks.subrange(0, upto) =~= disks);
    } else {
        assert(disks.subrange(0, upto + 1).drop_last() =~= disks.subrange(0, upto));
        lemma_disk_found(root, disks, upto + 1);
    }
}

/// The name that the sandbox root is listed under.
pub open spec fn root_label() -> Seq<char> {
    "根目录"@
}

/// The indentation that one level of the directory tree adds.
pub open spec fn indent() -> Seq<char> {
    "\u{3000}"@
}

/// The entry of the directory `dir` in the list of all directories: its
/// path relative to `root`, and its name after `prefix`, the indentation of
/// its level. The root is shown under a label of its own.
pub fn folder_item(root: &Vec<String>, dir: &Vec<String>, prefix: &str) -> (item: FolderItem)
    ensures
        item.path@ == relative(names(root@), names(dir@)),
        item.display@ == prefix@ + (if relative(names(root@), names(dir@)) == seq!['/'] {
            root_label()
        } else {
            last_name(names(dir@))
        }),
{
    let path = relative_path(root, dir);
    let shown = chars_of(path.as_str());
    let mut display: Vec<char> = Vec::new();
    push_str(&mut display, prefix);
    assert(display@ =~= prefix@);
    if shown.len() == 1 && shown[0] == '/' {
        assert(shown@ =~= seq!['/']);
        push_str(&mut display, "根目录");
    } else {
        assert(shown@ != seq!['/']) by {
            if shown@ == seq!['/'] {
                assert(shown@.len() == 1 && shown@[0] == '/');
            }
        }
        let name = file_name(dir);
        push_str(&mut display, name.as_str());
    }
    FolderItem { path, display: string_of(&display) }
}

/// The indentation of the level below the one that `prefix` indents.
pub fn deeper(prefix: &str) -> (next: String)
    ensures
        next@ == prefix@ + indent(),
{
    let mut out: Vec<char> = Vec::new();
    push_str(&mut out, prefix);
    push_str(&mut out, "\u{3000}");
    assert(out@ =~= prefix@ + indent());
    string_of(&out)
}

/// What a field of an upload request is for.
#[derive(Clone, Copy, Debug, PartialEq, Eq, Structural)]
pub enum FieldKind {
    /// The field names the directory for the files that follow it.
    Path,
    /// The field holds a file.
    Files,
    /// The field is of no concern and is skipped.
    Other,
}

/// What the field named `name` is for.
pub fn field_kind(name: &str) -> (kind: FieldKind)
    ensures
        kind == (if name@ == "path"@ {
            FieldKind::Path
        } else if name@ == "files"@ {
            FieldKind::Files
        } else {
            FieldKind::Other
        }),
{
    let given = name.to_owned();
    if given == "path".to_owned() {
        FieldKind::Path
    } else if given == "files".to_owned() {
        FieldKind::Files
    } else {
        FieldKind::Other
    }
}

/// The step of storing an uploaded file that failed.
#[derive(Clone, Copy, Debug, PartialEq, Eq, Structural)]
pub enum UploadFailure {
    /// The directory could not be created.
    CreateDirectory,
    /// The file could not be created.
    CreateFile,
    /// A piece of the file could not be written.
    Write,
    /// A piece of the file could not be read from the request.
    Read,
    /// The file could not be synced to disk.
    Sync,
}

/// How a failed upload ends.
#[derive(Clone, Debug, PartialEq, Eq)]
pub struct UploadAbort {
    /// The error to answer with.
    pub message: String,
    /// Whether the file exists in part and has to be deleted.
    pub remove_file: bool,
}

/// What the error for a failed step says before the reason.
pub open spec fn upload_failure_text(kind: UploadFailure) -> Seq<char> {
    match kind {
        UploadFailure::CreateDirectory => "创建目录失败"@,
        UploadFailure::CreateFile => "创建文件失败"@,
        UploadFailure::Write => "写入文件失败"@,
        UploadFailure::Read => "读取上传数据失败"@,
        UploadFailure::Sync => "同步文件失败"@,
    }
}

/// Whether a failure of the step `kind` leaves a partly written file
/// behind: every failure after the file was created does.
pub open spec fn leaves_partial_upload(kind: UploadFailure) -> bool {
    kind == UploadFailure::Write || kind == UploadFailure::Read || kind == UploadFailure::Sync
}

/// What to do when the step `kind` of storing a file has failed for the
/// reason `why`: the error to answer the whole request with, and whether a
/// partly written file has to be deleted. Files stored before stay.
pub fn upload_failed(kind: UploadFailure, why: &str) -> (abort: UploadAbort)
    ensures
        abort.message@ == upload_failure_text(kind) + ": "@ + why@,
        abort.remove_file == leaves_partial_upload(kind),
{
    let mut out: Vec<char> = Vec::new();
    let remove_file = match kind {
        UploadFailure::CreateDirectory => {
            push_str(&mut out, "创建目录失败");
            false
        },
        UploadFailure::CreateFile => {
            push_str(&mut out, "创建文件失败");
            false
        },
        UploadFailure::Write => {
            push_str(&mut out, "写入文件失败");
            true
        },
        UploadFailure::Read => {
            push_str(&mut out, "读取上传数据失败");
            true
        },
        UploadFailure::Sync => {
            push_str(&mut out, "同步文件失败");
            true
        },
    };
    push_str(&mut out, ": ");
    push_str(&mut out, why);
    UploadAbort { message: string_of(&out), remove_file }
}

/// The files of one upload request, as they come in: the sandbox root, the
/// directory that the next file goes to, as asked for and as it is on disk,
/// and the files stored so far. The directory is only ever set by resolving
/// a path below the root, so it lies in the sandbox.
#[derive(Clone, Debug, PartialEq, Eq)]
pub struct UploadBatch {
    root: Vec<String>,
    actual_dir: Vec<String>,
    logical_dir: Vec<String>,
    files: Vec<UploadedFile>,
}

/// An [`UploadBatch`] as plain mathematical values.
pub struct UploadBatchView {
    pub root: Seq<Seq<char>>,
    /// The directory that files are written to (links resolved).
    pub actual_dir: Seq<Seq<char>>,
    /// The same directory as the client asked for it.
    pub logical_dir: Seq<Seq<char>>,
    /// The files stored so far, in order.
    pub files: Seq<UploadedFile>,
}

impl View for UploadBatch {
    type V = UploadBatchView;

    closed spec fn view(&self) -> UploadBatchView {
        UploadBatchView {
            root: names(self.root@),
            actual_dir: names(self.actual_dir@),
            logical_dir: names(self.logical_dir@),
            files: self.files@,
        }
    }
}

/// Where one file of an upload request goes.
#[derive(Clone, Debug, PartialEq, Eq)]
pub struct FileTarget {
    /// The name of the file.
    pub name: String,
    /// The file to write.
    pub actual: Vec<String>,
    /// The file as the client will be told of it.
    pub logical: Vec<String>,
}

/// The name of a file that came without one.
pub open spec fn unnamed() -> Seq<char> {
    "unknown"@
}

/// The name a file is stored under: its own, or the stock name where it
/// came without one.
pub open spec fn stored_name(filename: Option<&str>) -> Seq<char> {
    match filename {
        Some(name) => name@,
        None => unnamed(),
    }
}

/// The name a file is stored under.
fn name_for(filename: Option<&str>) -> (name: String)
    ensures
        name@ == stored_name(filename),
{
    match filename {
        Some(name) => name.to_owned(),
        None => "unknown".to_owned(),
    }
}

impl UploadBatch {
    /// An upload request before its first field: files go to the root.
    pub fn new(root: &Vec<String>) -> (batch: UploadBatch)
        ensures
            batch@ == (UploadBatchView {
                root: names(root@),
                actual_dir: names(root@),
                logical_dir: names(root@),
                files: Seq::<UploadedFile>::empty(),
            }),
    {
        UploadBatch {
            root: clone_names(root),
            actual_dir: clone_names(root),
            logical_dir: clone_names(root),
            files: Vec::new(),
        }
    }

    /// Takes a `path` field: resolves `path` below the root, and the files
    /// that follow go there. A path that leaves the sandbox, as asked for or
    /// through a link, is refused with the resolver's error and changes
    /// nothing; the request is then over. `canonical` is the resolved form
    /// of the directory where the caller found it on disk.
    pub fn set_path(&mut self, path: &str, canonical: Option<Vec<String>>) -> (r: Result<
        (),
        String,
    >)
        ensures
            match resolved(
                old(self)@.root,
                path@,
                match canonical {
                    Some(c) => Some(names(c@)),
                    None => None,
                },
            ) {
                None => r is Err && r->Err_0@ == access_denied() && final(self)@ == old(self)@,
                Some((logical, actual)) => r is Ok && final(self)@ == (UploadBatchView {
                    actual_dir: actual,
                    logical_dir: logical,
                    ..old(self)@
                }) && is_descendant(old(self)@.root, logical) && is_under(
                    old(self)@.root,
                    actual,
                ),
            },
    {
        match resolve(&self.root, path, canonical) {
            Err(e) => Err(e),
            Ok(paths) => {
                self.actual_dir = paths.actual;
                self.logical_dir = paths.logical;
                Ok(())
            },
        }
    }

    /// The directory that the next file is written to. It is the caller's
    /// to create.
    pub fn actual_dir(&self) -> (dir: Vec<String>)
        ensures
            names(dir@) == self@.actual_dir,
    {
        clone_names(&self.actual_dir)
    }

    /// Where the next file goes: under its name, or under a stock name
    /// where it came without one, in the current directory.
    pub fn next_file(&self, filename: Option<&str>) -> (target: FileTarget)
        ensures
            target.name@ == stored_name(filename),
            names(target.actual@) == self@.actual_dir.push(target.name@),
            names(target.logical@) == self@.logical_dir.push(target.name@),
    {
        let name = name_for(filename);
        let mut actual = clone_names(&self.actual_dir);
        actual.push(name.clone());
        let mut logical = clone_names(&self.logical_dir);
        logical.push(name.clone());
        proof {
            assert(names(actual@) =~= names(self.actual_dir@).push(name@));
            assert(names(logical@) =~= names(self.logical_dir@).push(name@));
        }
        FileTarget { name, actual, logical }
    }

    /// Records that the file that came as `filename` is on disk in the
    /// current directory, `size` bytes long. The client is told of it under
    /// the directory as it asked for it.
    pub fn stored(&mut self, filename: Option<&str>, size: u64)
        ensures
            final(self)@.root == old(self)@.root,
            final(self)@.actual_dir == old(self)@.actual_dir,
            final(self)@.logical_dir == old(self)@.logical_dir,
            final(self)@.files.len() == old(self)@.files.len() + 1,
            final(self)@.files.drop_last() == old(self)@.files,
            final(self)@.files.last().name@ == stored_name(filename),
            final(self)@.files.last().size == size,
            final(self)@.files.last().path@ == relative(
                old(self)@.root,
                old(self)@.logical_dir.push(stored_name(filename)),
            ),
    {
        let target = self.next_file(filename);
        let file = UploadedFile {
            name: target.name,
            size,
            path: relative_path(&self.root, &target.logical),
        };
        self.files.push(file);
        assert(self.files@.drop_last() =~= old(self).files@);
    }

    /// The answer to the request: every file that was stored, in order.
    pub fn finish(self) -> (response: UploadResponse)
        ensures
            response.files@ == self@.files,
    {
        UploadResponse { files: self.files }
    }
}

/// The media type that `mime_guess` has for the file name `name`, going by
/// its extension, or the type of arbitrary bytes where it has none.
pub uninterp spec fn guessed_mime(name: Seq<char>) -> Seq<char>;

/// `mime_guess::from_path`, `first_or_octet_stream` of its result, and that
/// written out. Trusted: the text is named [`guessed_mime`]; nothing more
/// is claimed of it than that equal names get equal types.
#[verifier::external_body]
fn guess_mime(name: &str) -> (mime: String)
    ensures
        mime@ == guessed_mime(name@),
{
    mime_guess::from_path(name).first_or_octet_stream().to_string()
}

/// `text` in lower case, as the standard library turns it.
pub uninterp spec fn lowercased(text: Seq<char>) -> Seq<char>;

/// `str::to_lowercase` of the standard library. Trusted: the text is named
/// [`lowercased`]; nothing more is claimed of it than that equal texts turn
/// out equal.
#[verifier::external_body]
fn lowercase(text: &str) -> (lower: String)
    ensures
        lower@ == lowercased(text@),
{
    text.to_lowercase()
}

/// The headers that a download carries.
#[derive(Clone, Debug, PartialEq, Eq)]
pub struct DownloadHeaders {
    pub content_type: String,
    pub content_length: u64,
    pub content_disposition: String,
}

/// The name a file is offered under where its path has none.
pub open spec fn stock_name() -> Seq<char> {
    "download"@
}

/// The name that a download of `path` is offered under.
pub open spec fn offered_name(path: Seq<Seq<char>>) -> Seq<char> {
    if path.len() == 0 {
        stock_name()
    } else {
        path.last()
    }
}

/// The disposition that offers a file for saving under `name`.
pub open spec fn disposition(name: Seq<char>) -> Seq<char> {
    "attachment; filename=\""@ + name + "\""@
}

/// The headers of a download of `len` bytes with the media type `mime`,
/// offered under `name`.
pub fn attachment(mime: String, len: u64, name: &str) -> (headers: DownloadHeaders)
    ensures
        headers.content_type == mime,
        headers.content_length == len,
        headers.content_disposition@ == disposition(name@),
{
    let mut text: Vec<char> = Vec::new();
    push_str(&mut text, "attachment; filename=\"");
    push_str(&mut text, name);
    push_str(&mut text, "\"");
    DownloadHeaders {
        content_type: mime,
        content_length: len,
        content_disposition: string_of(&text),
    }
}

/// The headers of a download of the file at `path`, `len` bytes long: the
/// media type goes by the extension of the file's name.
pub fn download_headers(path: &Vec<String>, len: u64) -> (headers: DownloadHeaders)
    ensures
        headers.content_type@ == guessed_mime(last_name(names(path@))),
        headers.content_length == len,
        headers.content_disposition@ == disposition(offered_name(names(path@))),
{
    let name = file_name(path);
    let mime = guess_mime(name.as_str());
    if path.len() == 0 {
        attachment(mime, len, "download")
    } else {
        attachment(mime, len, name.as_str())
    }
}

/// Whether `needle` stands somewhere in `hay`, character for character.
pub open spec fn occurs_in(needle: Seq<char>, hay: Seq<char>) -> bool {
    exists|at: int| occurs_at(needle, hay, at)
}

/// Whether `needle` stands in `hay` at `at`.
pub open spec fn occurs_at(needle: Seq<char>, hay: Seq<char>, at: int) -> bool {
    0 <= at && at + needle.len() <= hay.len() && hay.subrange(at, at + needle.len()) == needle
}

/// Whether `needle` stands in `hay` at `at`.
fn stands_at(needle: &Vec<char>, hay: &Vec<char>, at: usize) -> (r: bool)
    requires
        at + needle.len() <= hay.len(),
    ensures
        r == occurs_at(needle@, hay@, at as int),
{
    let mut i: usize = 0;
    while i < needle.len()
        invariant
            i <= needle.len(),
            at + needle.len() <= hay.len(),
            forall|j: int| 0 <= j < i ==> hay@[at + j] == needle@[j],
        decreases needle.len() - i,
    {
        if hay[at + i] != needle[i] {
            assert(hay@.subrange(at as int, at + needle.len())[i as int] != needle@[i as int]);
            return false;
        }
        i += 1;
    }
    assert(hay@.subrange(at as int, at + needle.len()) =~= needle@);
    true
}

/// Whether `needle` stands somewhere in `hay`. The empty text stands in
/// every text.
pub fn contains_text(hay: &str, needle: &str) -> (r: bool)
    ensures
        r == occurs_in(needle@, hay@),
{
    let text = chars_of(hay);
    let word = chars_of(needle);
    if word.len() > text.len() {
        assert(forall|at: int| !occurs_at(word@, text@, at));
        return false;
    }
    let last = text.len() - word.len();
    let mut at: usize = 0;
    while at < last
        invariant
            at <= last,
            last == text.len() - word.len(),
            word.len() <= text.len(),
            text@ == hay@,
            word@ == needle@,
            forall|k: int| 0 <= k < at ==> !occurs_at(word@, text@, k),
        decreases last - at,
    {
        if stands_at(&word, &text, at) {
            assert(occurs_at(needle@, hay@, at as int));
            return true;
        }
        at += 1;
    }
    let found = stands_at(&word, &text, last);
    proof {
        if found {
            assert(occurs_at(needle@, hay@, last as int));
        } else {
            assert(forall|k: int| !occurs_at(needle@, hay@, k));
        }
    }
    found
}

/// The largest number of entries that a search returns.
pub const SEARCH_LIMIT: usize = 100;

/// Whether the entry named `name` is a hit for `query`: whether the query
/// stands in the name, both in lower case.
pub fn matches_search(name: &str, query: &str) -> (hit: bool)
    ensures
        hit == occurs_in(lowercased(query@), lowercased(name@)),
{
    let name = lowercase(name);
    let query = lowercase(query);
    contains_text(name.as_str(), query.as_str())
}

/// Whether a search that has `found` entries has to stop.
pub fn search_is_full(found: usize) -> (full: bool)
    ensures
        full == (found >= SEARCH_LIMIT),
{
    found >= SEARCH_LIMIT
}

} // verus!
