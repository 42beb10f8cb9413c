use davcore::dirlist::{
    build_dirents, dirlist_page, dirlist_redirect, is_collection_form, render_dirlist,
    sort_dirents, Dirent, EntryMeta, RawDirEntry,
};
use davcore::timefmt::{
    format_stamp, local_date_fields, DateFields, MAX_STAMP_SECS, MIN_STAMP_SECS,
};

fn file_entry(name: &str) -> Dirent {
    Dirent {
        href: format!("/d/{}", name),
        name: String::from(name),
        is_dir: false,
        is_file: true,
        size: 1,
        stamp: None,
    }
}

fn dir_entry(name: &str) -> Dirent {
    Dirent {
        href: format!("/d/{}", name),
        name: String::from(name),
        is_dir: true,
        is_file: false,
        size: 0,
        stamp: None,
    }
}

#[test]
fn directories_first_then_alphabetical() {
    let v = vec![
        file_entry("a.txt"),
        dir_entry("zdir/"),
        file_entry("b.txt"),
        dir_entry("adir/"),
    ];
    let sorted = sort_dirents(v);
    let names: Vec<&str> = sorted.iter().map(|d| d.name.as_str()).collect();
    assert_eq!(names, vec!["adir/", "zdir/", "a.txt", "b.txt"]);
}

#[test]
fn build_skips_hidden_and_unresolved() {
    let meta_file = EntryMeta { is_dir: false, is_file: true, size: 5, modified: None };
    let raw = vec![
        RawDirEntry { name: String::from(".hidden"), meta: Some(meta_file) },
        RawDirEntry { name: String::from("broken"), meta: None },
        RawDirEntry { name: String::from("kept.txt"), meta: Some(meta_file) },
    ];
    let built = build_dirents("/base/", &raw);
    assert_eq!(built.len(), 1);
    assert_eq!(built[0].name, "kept.txt");
    assert_eq!(built[0].href, "/base/kept.txt");
    assert!(built[0].stamp.is_none());
}

#[test]
fn build_appends_slash_to_directories() {
    let meta_dir = EntryMeta { is_dir: true, is_file: false, size: 0, modified: None };
    let raw = vec![RawDirEntry { name: String::from("sub"), meta: Some(meta_dir) }];
    let built = build_dirents("/base/", &raw);
    assert_eq!(built[0].name, "sub/");
    assert_eq!(built[0].href, "/base/sub/");
    assert!(!built[0].is_file);
}

#[test]
fn build_resolves_stamps_in_range() {
    let meta = EntryMeta {
        is_dir: false,
        is_file: true,
        size: 5,
        modified: Some(1_700_000_000),
    };
    let raw = vec![RawDirEntry { name: String::from("f"), meta: Some(meta) }];
    let built = build_dirents("/", &raw);
    let f = built[0].stamp.as_ref().expect("a known time yields fields");
    assert!((1..=12).contains(&f.month));
    assert!((1..=31).contains(&f.day));
    assert!(f.hour < 24 && f.minute < 60);
    assert!((2023..=2024).contains(&f.year));
}

#[test]
fn stamp_rendering_is_zero_padded() {
    let f = DateFields { year: 2024, month: 1, day: 5, hour: 7, minute: 9 };
    assert_eq!(format_stamp(&f), "2024-01-05 07:09");
    let f = DateFields { year: 987, month: 12, day: 31, hour: 23, minute: 59 };
    assert_eq!(format_stamp(&f), "0987-12-31 23:59");
}

#[test]
fn local_fields_lie_in_calendar_ranges() {
    let f = local_date_fields(0).expect("the epoch is representable");
    assert!((1..=12).contains(&f.month));
    assert!((1..=31).contains(&f.day));
    assert!(f.hour < 24 && f.minute < 60);
}

#[test]
fn stamp_bounds_are_exact() {
    assert!(local_date_fields(MIN_STAMP_SECS).is_some());
    assert!(local_date_fields(MAX_STAMP_SECS).is_some());
    assert!(local_date_fields(MIN_STAMP_SECS - 1).is_none());
    assert!(local_date_fields(MAX_STAMP_SECS + 1).is_none());
}

#[test]
fn script_name_is_escaped_everywhere() {
    // The raw name flows into both the link text and the href; neither
    // may carry it unescaped.
    let d = file_entry("<script>");
    assert_eq!(d.href, "/d/<script>");
    let body = render_dirlist("/d/", &vec![d]);
    assert!(body.contains(">&lt;script&gt;</a>"));
    assert!(body.contains("href=\"/d/&lt;script&gt;\""));
    assert!(!body.contains("<script>"));
}

#[test]
fn quote_in_name_cannot_leave_the_attribute() {
    let d = file_entry("a\"onmouseover=\"x");
    let body = render_dirlist("/d/", &vec![d]);
    assert!(body.contains("href=\"/d/a&quot;onmouseover=&quot;x\""));
    assert!(!body.contains("a\"onmouseover"));
}

#[test]
fn listing_page_structure() {
    let entries = vec![dir_entry("sub/"), file_entry("a.txt")];
    let body = render_dirlist("/col/", &entries);
    assert!(body.starts_with("<html><head>\n<title>Index of /col/</title>"));
    assert!(body.contains("<h1>Index of /col/</h1>"));
    assert!(body.contains("<a href=\"..\">Parent Directory</a>"));
    assert!(body.contains("<a href=\"/d/sub/\">sub/</a>"));
    assert!(body.contains("[DIR]"));
    assert!(body.contains("<td class=\"mono\" align=\"right\">1</td>"));
    assert!(body.ends_with("</table></body></html>\n"));
}

#[test]
fn head_listing_has_same_headers_and_no_body() {
    let entries = vec![file_entry("a.txt")];
    let get = dirlist_page("/col/", &entries, false);
    let head = dirlist_page("/col/", &entries, true);
    assert_eq!(get.status, head.status);
    assert_eq!(get.headers, head.headers);
    assert_eq!(get.headers[0].0, "Content-Type");
    assert_eq!(get.headers[0].1, "text/html; charset=utf-8");
    assert!(get.body.is_some());
    assert!(head.body.is_none());
}

#[test]
fn empty_listing_still_renders_the_frame() {
    let body = render_dirlist("/col/", &Vec::new());
    assert!(body.contains("<title>Index of /col/</title>"));
    assert!(body.contains("Parent Directory"));
    assert!(body.ends_with("</table></body></html>\n"));
}

#[test]
fn sorting_degenerate_inputs() {
    assert!(sort_dirents(Vec::new()).is_empty());
    let one = sort_dirents(vec![file_entry("only")]);
    assert_eq!(one.len(), 1);
    assert_eq!(one[0].name, "only");
}

#[test]
fn non_collection_path_redirects() {
    assert!(!is_collection_form("/prefix/dir"));
    assert!(is_collection_form("/prefix/dir/"));
    let r = dirlist_redirect("/prefix/dir");
    assert_eq!(r.status, 302);
    assert_eq!(r.headers[0], (String::from("Location"), String::from("/prefix/dir/")));
    assert_eq!(r.headers[1], (String::from("Content-Length"), String::from("0")));
    assert!(r.body.is_none());
}
