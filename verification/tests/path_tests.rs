use filest::path::{join, relative_path, resolve, safe_path, starts_with};

fn names(parts: &[&str]) -> Vec<String> {
    parts.iter().map(|s| s.to_string()).collect()
}

fn root() -> Vec<String> {
    names(&["srv", "files"])
}

#[test]
fn resolves_plain_path_below_root() {
    let r = safe_path(&root(), "a/b").unwrap();
    assert_eq!(r.logical, names(&["srv", "files", "a", "b"]));
    assert_eq!(r.actual, names(&["srv", "files", "a", "b"]));
}

#[test]
fn empty_path_and_slash_are_the_root() {
    assert_eq!(safe_path(&root(), "").unwrap().logical, root());
    assert_eq!(safe_path(&root(), "/").unwrap().logical, root());
    assert_eq!(safe_path(&root(), "///").unwrap().logical, root());
    assert_eq!(safe_path(&root(), ".").unwrap().logical, root());
}

#[test]
fn leading_slashes_dots_and_empty_pieces_are_skipped() {
    let r = safe_path(&root(), "//a//./b/").unwrap();
    assert_eq!(r.logical, names(&["srv", "files", "a", "b"]));
}

#[test]
fn parent_goes_up_inside_the_root() {
    let r = safe_path(&root(), "a/b/../c").unwrap();
    assert_eq!(r.logical, names(&["srv", "files", "a", "c"]));
    let r = safe_path(&root(), "a/..").unwrap();
    assert_eq!(r.logical, root());
}

#[test]
fn refuses_to_leave_the_root() {
    for p in ["..", "../x", "/..", "a/../..", "a/b/../../../c", "./../a"] {
        let e = safe_path(&root(), p).unwrap_err();
        assert_eq!(e, "Access denied: Invalid path", "{}", p);
    }
}

#[test]
fn leaving_the_root_is_final_even_if_the_path_comes_back() {
    let e = safe_path(&root(), "../files/a").unwrap_err();
    assert_eq!(e, "Access denied: Invalid path");
    let e = safe_path(&root(), "a/../../files").unwrap_err();
    assert_eq!(e, "Access denied: Invalid path");
}

#[test]
fn names_with_dots_are_ordinary_names() {
    let r = safe_path(&root(), "...//.a/b..").unwrap();
    assert_eq!(r.logical, names(&["srv", "files", "...", ".a", "b.."]));
}

#[test]
fn works_below_the_filesystem_root() {
    let top: Vec<String> = Vec::new();
    assert_eq!(safe_path(&top, "a").unwrap().logical, names(&["a"]));
    assert!(safe_path(&top, "..").is_err());
}

#[test]
fn every_resolved_path_stays_below_the_root() {
    let pieces = ["a", "..", ".", "", "b", "...", "c d"];
    let n = pieces.len();
    let mut count = 0;
    for len in 0..5usize {
        let total = n.pow(len as u32);
        for code in 0..total {
            let mut c = code;
            let mut parts: Vec<&str> = Vec::new();
            for _ in 0..len {
                parts.push(pieces[c % n]);
                c /= n;
            }
            let path = parts.join("/");
            // The same walk, on a plain stack.
            let mut stack: Vec<String> = Vec::new();
            let mut left = false;
            for p in &parts {
                if left {
                    break;
                }
                match *p {
                    "" | "." => {}
                    ".." => {
                        if stack.pop().is_none() {
                            left = true;
                        }
                    }
                    name => stack.push(name.to_string()),
                }
            }
            match safe_path(&root(), &path) {
                Ok(r) => {
                    assert!(!left, "{}", path);
                    assert!(starts_with(&r.logical, &root()));
                    assert!(starts_with(&r.actual, &root()));
                    assert_eq!(r.logical[2..].to_vec(), stack, "{}", path);
                    for name in &r.logical[2..] {
                        assert!(!name.is_empty() && name != "." && name != "..");
                        assert!(!name.contains('/'));
                    }
                }
                Err(e) => {
                    assert!(left, "{}", path);
                    assert_eq!(e, "Access denied: Invalid path");
                }
            }
            count += 1;
        }
    }
    assert!(count > 2000);
}

#[test]
fn with_actual_takes_a_resolved_path_below_the_root() {
    let r = safe_path(&root(), "link/x").unwrap();
    let r = r.with_actual(&root(), names(&["srv", "files", "real", "x"])).unwrap();
    assert_eq!(r.logical, names(&["srv", "files", "link", "x"]));
    assert_eq!(r.actual, names(&["srv", "files", "real", "x"]));
}

#[test]
fn with_actual_refuses_a_link_that_leads_out() {
    let r = safe_path(&root(), "link").unwrap();
    let e = r.with_actual(&root(), names(&["etc"])).unwrap_err();
    assert_eq!(e, "Access denied: Invalid path");
    let r = safe_path(&root(), "link").unwrap();
    let e = r.with_actual(&root(), names(&["srv", "filesystem"])).unwrap_err();
    assert_eq!(e, "Access denied: Invalid path");
    let r = safe_path(&root(), "link").unwrap();
    assert!(r.with_actual(&root(), names(&["srv"])).is_err());
}

#[test]
fn relative_path_of_root_is_slash() {
    assert_eq!(relative_path(&root(), &root()), "/");
}

#[test]
fn relative_path_lists_the_names_below_the_root() {
    assert_eq!(relative_path(&root(), &names(&["srv", "files", "a"])), "/a");
    assert_eq!(relative_path(&root(), &names(&["srv", "files", "a", "b.txt"])), "/a/b.txt");
}

#[test]
fn relative_path_outside_the_root_is_slash() {
    assert_eq!(relative_path(&root(), &names(&["srv"])), "/");
    assert_eq!(relative_path(&root(), &names(&["etc", "passwd"])), "/");
    assert_eq!(relative_path(&root(), &names(&["srv", "filesx", "a"])), "/");
}

#[test]
fn relative_path_turns_backslashes_into_slashes() {
    assert_eq!(relative_path(&root(), &names(&["srv", "files", "a\\b", "c"])), "/a/b/c");
}

#[test]
fn starts_with_compares_whole_names() {
    assert!(starts_with(&names(&["a", "b", "c"]), &names(&["a", "b"])));
    assert!(starts_with(&names(&["a", "b"]), &names(&["a", "b"])));
    assert!(starts_with(&names(&["a"]), &names(&[])));
    assert!(!starts_with(&names(&["a", "bc"]), &names(&["a", "b"])));
    assert!(!starts_with(&names(&["a"]), &names(&["a", "b"])));
}

#[test]
fn join_adds_one_name() {
    assert_eq!(join(&names(&["a"]), "b"), names(&["a", "b"]));
    assert_eq!(join(&names(&[]), "x y"), names(&["x y"]));
}

#[test]
fn resolve_without_a_target_on_disk_works_on_the_logical_path() {
    let r = resolve(&root(), "a/./b", None).unwrap();
    assert_eq!(r.logical, names(&["srv", "files", "a", "b"]));
    assert_eq!(r.actual, r.logical);
}

#[test]
fn resolve_follows_links_that_stay_inside() {
    let r = resolve(&root(), "link/x", Some(names(&["srv", "files", "real", "x"]))).unwrap();
    assert_eq!(r.logical, names(&["srv", "files", "link", "x"]));
    assert_eq!(r.actual, names(&["srv", "files", "real", "x"]));
}

#[test]
fn resolve_refuses_both_ways_out_alike() {
    let by_walk = resolve(&root(), "../etc", None).unwrap_err();
    let by_link = resolve(&root(), "link", Some(names(&["etc"]))).unwrap_err();
    assert_eq!(by_walk, "Access denied: Invalid path");
    assert_eq!(by_link, by_walk);
    assert!(resolve(&root(), "..", Some(names(&["srv", "files"]))).is_err());
}
