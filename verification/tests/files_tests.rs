use filest::files::{
    field_kind, upload_failed, FieldKind, UploadFailure,
    attachment, contains_text, copy_file_name, deeper, download_headers, file_name, folder_item,
    get_disk_info, get_file_info, get_file_info_with_logical_base, get_info, matches_search,
    moves_into_itself, rename_target, search_is_full, DiskInfo, EntryMeta, UploadBatch,
};
use filest::models::{ApiResponse, FileInfo};

fn names(parts: &[&str]) -> Vec<String> {
    parts.iter().map(|s| s.to_string()).collect()
}

fn root() -> Vec<String> {
    names(&["srv", "files"])
}

fn meta(is_dir: bool, len: u64) -> EntryMeta {
    EntryMeta {
        is_dir,
        len,
        modified: Some("2024-05-01 10:30".to_string()),
        created: None,
    }
}

#[test]
fn file_name_is_the_last_name() {
    assert_eq!(file_name(&names(&["a", "b.txt"])), "b.txt");
    assert_eq!(file_name(&names(&[])), "");
}

#[test]
fn file_info_describes_a_file() {
    let info = get_file_info(&root(), &names(&["srv", "files", "docs", "a.txt"]), &meta(false, 1536));
    assert_eq!(
        info,
        FileInfo {
            name: "a.txt".to_string(),
            path: "/docs/a.txt".to_string(),
            file_type: "file".to_string(),
            size: 1536,
            size_formatted: "1.50 KB".to_string(),
            modified: "2024-05-01 10:30".to_string(),
            created: "-".to_string(),
        }
    );
}

#[test]
fn file_info_describes_a_folder() {
    let info = get_file_info(&root(), &names(&["srv", "files", "docs"]), &meta(true, 0));
    assert_eq!(info.name, "docs");
    assert_eq!(info.path, "/docs");
    assert_eq!(info.file_type, "folder");
    assert_eq!(info.size_formatted, "0 B");
}

#[test]
fn listed_entry_is_shown_below_the_directory_as_asked_for() {
    let info = get_file_info_with_logical_base(
        &root(),
        &names(&["srv", "files", "link"]),
        &names(&["srv", "files", "real", "a.txt"]),
        &meta(false, 10),
    );
    assert_eq!(info.name, "a.txt");
    assert_eq!(info.path, "/link/a.txt");
    assert_eq!(info.size_formatted, "10.00 B");
}

#[test]
fn detail_of_a_file_keeps_its_size() {
    let info = get_file_info(&root(), &names(&["srv", "files", "a.txt"]), &meta(false, 2048));
    let detail = get_info(info.clone(), None);
    assert_eq!(detail.children, None);
    assert_eq!(detail.size, 2048);
    assert_eq!(detail.size_formatted, "2.00 KB");
    assert_eq!(detail.name, info.name);
    assert_eq!(detail.path, info.path);
    assert_eq!(detail.modified, info.modified);
}

#[test]
fn detail_of_a_folder_counts_children_and_sums_sizes() {
    let info = get_file_info(&root(), &names(&["srv", "files", "d"]), &meta(true, 4096));
    let detail = get_info(info, Some((7, 3 * 1024 * 1024)));
    assert_eq!(detail.children, Some(7));
    assert_eq!(detail.size, 3 * 1024 * 1024);
    assert_eq!(detail.size_formatted, "3.00 MB");
    assert_eq!(detail.file_type, "folder");
}

#[test]
fn rename_keeps_the_directory() {
    assert_eq!(rename_target(&names(&["a", "b", "old"]), "new"), Some(names(&["a", "b", "new"])));
    assert_eq!(rename_target(&names(&["old"]), "new"), Some(names(&["new"])));
    assert_eq!(rename_target(&names(&[]), "new"), None);
}

#[test]
fn a_folder_cannot_move_into_itself() {
    assert!(moves_into_itself(&names(&["r", "a"]), true, &names(&["r", "a", "b", "a"])));
    assert!(moves_into_itself(&names(&["r", "a"]), true, &names(&["r", "a"])));
    assert!(!moves_into_itself(&names(&["r", "a"]), true, &names(&["r", "b", "a"])));
    assert!(!moves_into_itself(&names(&["r", "a"]), false, &names(&["r", "a", "b"])));
}

#[test]
fn copies_are_numbered_before_the_extension() {
    assert_eq!(copy_file_name("report.pdf", 1), "report (1). pdf");
    assert_eq!(copy_file_name("report.pdf", 12), "report (12). pdf");
    assert_eq!(copy_file_name("a.tar.gz", 2), "a.tar (2). gz");
    assert_eq!(copy_file_name("README", 1), "README (1)");
    assert_eq!(copy_file_name(".bashrc", 3), ".bashrc (3)");
    assert_eq!(copy_file_name("a.", 1), "a (1). ");
    assert_eq!(copy_file_name("..", 1), ".. (1)");
    assert_eq!(copy_file_name("...", 1), ".. (1). ");
}

#[test]
fn disk_info_takes_the_first_disk_the_root_lies_on() {
    let disks = vec![
        DiskInfo { mount_point: names(&["boot"]), total_space: 1, available_space: 1 },
        DiskInfo { mount_point: names(&[]), total_space: 1000, available_space: 400 },
        DiskInfo { mount_point: names(&["srv"]), total_space: 5000, available_space: 100 },
    ];
    let r = get_disk_info(&root(), &disks);
    assert_eq!((r.total, r.free, r.used), (1000, 400, 600));
    assert_eq!(r.used_formatted, "600.00 B");
}

#[test]
fn disk_info_falls_back_to_stock_numbers() {
    let disks =
        vec![DiskInfo { mount_point: names(&["mnt"]), total_space: 1, available_space: 1 }];
    let r = get_disk_info(&root(), &disks);
    assert_eq!(r.total, 500 * 1024 * 1024 * 1024);
    assert_eq!(r.free, 400 * 1024 * 1024 * 1024);
    assert_eq!(r.used, 100 * 1024 * 1024 * 1024);
    assert_eq!(r.used_formatted, "100.00 GB");
    let r = get_disk_info(&root(), &Vec::new());
    assert_eq!(r.total, 500 * 1024 * 1024 * 1024);
}

#[test]
fn disk_info_never_reports_negative_use() {
    let disks =
        vec![DiskInfo { mount_point: names(&["srv"]), total_space: 10, available_space: 25 }];
    let r = get_disk_info(&root(), &disks);
    assert_eq!((r.total, r.free, r.used), (10, 25, 0));
    assert_eq!(r.used_formatted, "0 B");
}

#[test]
fn folders_are_listed_with_their_indentation() {
    let top = folder_item(&root(), &root(), "");
    assert_eq!(top.path, "/");
    assert_eq!(top.display, "根目录");
    let next = deeper("");
    assert_eq!(next, "\u{3000}");
    let child = folder_item(&root(), &names(&["srv", "files", "docs"]), &next);
    assert_eq!(child.path, "/docs");
    assert_eq!(child.display, "\u{3000}docs");
    let grandchild = folder_item(&root(), &names(&["srv", "files", "docs", "x"]), &deeper(&next));
    assert_eq!(grandchild.path, "/docs/x");
    assert_eq!(grandchild.display, "\u{3000}\u{3000}x");
}

#[test]
fn upload_batch_starts_at_the_root() {
    let batch = UploadBatch::new(&root());
    assert_eq!(batch.actual_dir(), root());
    let target = batch.next_file(Some("a.txt"));
    assert_eq!(target.name, "a.txt");
    assert_eq!(target.actual, names(&["srv", "files", "a.txt"]));
    assert_eq!(target.logical, names(&["srv", "files", "a.txt"]));
    assert!(batch.finish().files.is_empty());
}

#[test]
fn upload_batch_follows_the_path_field_and_records_files() {
    let mut batch = UploadBatch::new(&root());
    batch.set_path("link/sub", Some(names(&["srv", "files", "real", "sub"]))).unwrap();
    assert_eq!(batch.actual_dir(), names(&["srv", "files", "real", "sub"]));
    let first = batch.next_file(Some("a.txt"));
    assert_eq!(first.actual, names(&["srv", "files", "real", "sub", "a.txt"]));
    assert_eq!(first.logical, names(&["srv", "files", "link", "sub", "a.txt"]));
    batch.stored(Some("a.txt"), 12);
    let second = batch.next_file(None);
    assert_eq!(second.name, "unknown");
    batch.stored(None, 0);
    let response = batch.finish();
    assert_eq!(response.files.len(), 2);
    assert_eq!(response.files[0].name, "a.txt");
    assert_eq!(response.files[0].size, 12);
    assert_eq!(response.files[0].path, "/link/sub/a.txt");
    assert_eq!(response.files[1].name, "unknown");
    assert_eq!(response.files[1].path, "/link/sub/unknown");
}

#[test]
fn upload_batch_refuses_a_path_outside_the_sandbox_and_stays_where_it_was() {
    let mut batch = UploadBatch::new(&root());
    batch.set_path("docs", None).unwrap();
    let before = batch.clone();
    assert_eq!(batch.set_path("../x", None).unwrap_err(), "Access denied: Invalid path");
    assert_eq!(batch, before);
    let e = batch.set_path("link", Some(names(&["etc"]))).unwrap_err();
    assert_eq!(e, "Access denied: Invalid path");
    assert_eq!(batch, before);
    assert_eq!(batch.actual_dir(), names(&["srv", "files", "docs"]));
}

#[test]
fn download_goes_by_the_extension() {
    let h = download_headers(&names(&["srv", "files", "notes.txt"]), 42);
    assert_eq!(h.content_type, "text/plain");
    assert_eq!(h.content_length, 42);
    assert_eq!(h.content_disposition, "attachment; filename=\"notes.txt\"");
    let h = download_headers(&names(&["srv", "files", "pic.PNG"]), 1);
    assert_eq!(h.content_type, "image/png");
    let h = download_headers(&names(&["srv", "files", "blob.zzzunknown"]), 1);
    assert_eq!(h.content_type, "application/octet-stream");
    let h = download_headers(&names(&["srv", "files", "noext"]), 1);
    assert_eq!(h.content_type, "application/octet-stream");
    assert_ne!(h.content_type, "noext");
}

#[test]
fn download_of_a_nameless_path_gets_a_stock_name() {
    let h = download_headers(&names(&[]), 0);
    assert_eq!(h.content_disposition, "attachment; filename=\"download\"");
    assert_eq!(h.content_type, "application/octet-stream");
}

#[test]
fn attachment_quotes_the_name() {
    let h = attachment("text/html".to_string(), 9, "a b.html");
    assert_eq!(h.content_type, "text/html");
    assert_eq!(h.content_length, 9);
    assert_eq!(h.content_disposition, "attachment; filename=\"a b.html\"");
}

#[test]
fn contains_text_finds_a_word_anywhere() {
    assert!(contains_text("hello world", "hello"));
    assert!(contains_text("hello world", "o w"));
    assert!(contains_text("hello world", "world"));
    assert!(contains_text("hello world", ""));
    assert!(contains_text("", ""));
    assert!(contains_text("aab", "ab"));
    assert!(!contains_text("hello world", "worlds"));
    assert!(!contains_text("hello", "hello world"));
    assert!(!contains_text("", "a"));
    assert!(!contains_text("abc", "ac"));
}

#[test]
fn search_ignores_case() {
    assert!(matches_search("Report-2024.PDF", "report"));
    assert!(matches_search("Report-2024.PDF", "PDF"));
    assert!(matches_search("ÄRGER.txt", "ärg"));
    assert!(!matches_search("Report-2024.PDF", "2025"));
    assert!(matches_search("anything", ""));
}

#[test]
fn search_stops_at_a_hundred_entries() {
    assert!(!search_is_full(0));
    assert!(!search_is_full(99));
    assert!(search_is_full(100));
    assert!(search_is_full(101));
}

#[test]
fn api_response_success_carries_the_data() {
    let r = ApiResponse::success(5u32);
    assert!(r.success);
    assert_eq!(r.error, None);
    assert_eq!(r.data, Some(5));
}

#[test]
fn api_response_error_carries_the_message() {
    let r = ApiResponse::<()>::error("boom".to_string());
    assert!(!r.success);
    assert_eq!(r.error, Some("boom".to_string()));
    assert_eq!(r.data, None);
}

#[test]
fn upload_fields_are_told_apart_by_name() {
    assert_eq!(field_kind("path"), FieldKind::Path);
    assert_eq!(field_kind("files"), FieldKind::Files);
    for name in ["", "file", "Path", "files[]", "paths", " path"] {
        assert_eq!(field_kind(name), FieldKind::Other, "{}", name);
    }
}

#[test]
fn upload_failures_after_the_file_exists_remove_it() {
    let cases = [
        (UploadFailure::Write, "写入文件失败: full", true),
        (UploadFailure::Read, "读取上传数据失败: full", true),
        (UploadFailure::Sync, "同步文件失败: full", true),
        (UploadFailure::CreateDirectory, "创建目录失败: full", false),
        (UploadFailure::CreateFile, "创建文件失败: full", false),
    ];
    for (kind, message, remove) in cases {
        let abort = upload_failed(kind, "full");
        assert_eq!(abort.message, message);
        assert_eq!(abort.remove_file, remove);
    }
}
