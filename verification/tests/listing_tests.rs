use reposerve::listing::{directory_listing, format_timestamp, parent_path, CivilTime, ListEntry};

// 2015-05-15 00:00:00 UTC.
const MAY_2015: u64 = 1431648000;

#[test]
fn civil_time_of_epoch() {
    let t = CivilTime::from_unix(0).unwrap();
    assert_eq!((t.year, t.month, t.day), (1970, 1, 1));
    assert_eq!((t.hour, t.minute, t.second), (0, 0, 0));
}

#[test]
fn civil_time_of_known_instant() {
    let t = CivilTime::from_unix(MAY_2015).unwrap();
    assert_eq!(format_timestamp(&t), "2015/05/15 00:00:00");
}

#[test]
fn civil_time_past_year_9999_is_refused() {
    assert!(CivilTime::from_unix(253402300799).is_some());
    assert!(CivilTime::from_unix(253402300800).is_none());
}

#[test]
fn timestamps_are_zero_padded() {
    let t = CivilTime::from_unix(31539661).unwrap();  // 1971-01-01 01:01:01
    assert_eq!(format_timestamp(&t), "1971/01/01 01:01:01");
}

#[test]
fn directories_sort_before_files_and_names_are_escaped() {
    let b = ListEntry::new("b.txt", "/b.txt", MAY_2015, 12, false).unwrap();
    let a = ListEntry::new("A", "/A", MAY_2015, 0, true).unwrap();
    let html = directory_listing(vec![b, a], "/", true);
    let dir_item = "<li><span><a href=\"/A\">A/</a></span></li>";
    let file_item = "<li><span><a href=\"/b.txt\">b.txt</a></span><span>2015/05/15 00:00:00</span><span>12B</span></li>";
    let dir_at = html.find(dir_item).expect("directory item missing");
    let file_at = html.find(file_item).expect("file item missing");
    assert!(dir_at < file_at, "directory must render before the file");
}

#[test]
fn angle_bracket_in_name_renders_as_entity() {
    let e = ListEntry::new("a<b.txt", "/a<b.txt", MAY_2015, 1, false).unwrap();
    assert_eq!(e.name, "a&lt;b.txt");
    let html = directory_listing(vec![e], "/", true);
    assert!(html.contains(">a&lt;b.txt</a>"));
    assert!(!html.contains(">a<b.txt</a>"));
}

#[test]
fn ampersand_and_quote_are_escaped() {
    let e = ListEntry::new("a&\"b", "/x", MAY_2015, 1, false).unwrap();
    assert_eq!(e.name, "a&amp;&quot;b");
}

#[test]
fn control_characters_in_links_are_percent_encoded() {
    let e = ListEntry::new("x", "/a\u{1}b", MAY_2015, 1, false).unwrap();
    assert_eq!(e.url, "/a%01b");
}

#[test]
fn reserved_url_characters_in_links_are_percent_encoded() {
    let q = ListEntry::new("x", "/a?b", MAY_2015, 1, false).unwrap();
    assert_eq!(q.url, "/a%3Fb");
    let h = ListEntry::new("x", "/a#b", MAY_2015, 1, false).unwrap();
    assert_eq!(h.url, "/a%23b");
    let sp = ListEntry::new("x", "/a b", MAY_2015, 1, false).unwrap();
    assert_eq!(sp.url, "/a%20b");
    let pc = ListEntry::new("x", "/100%", MAY_2015, 1, false).unwrap();
    assert_eq!(pc.url, "/100%25");
}

#[test]
fn separators_and_plain_characters_stay_raw_in_links() {
    let e = ListEntry::new("x", "/pkgs/x86_64/a.apk", MAY_2015, 1, false).unwrap();
    assert_eq!(e.url, "/pkgs/x86_64/a.apk");
    let acc = ListEntry::new("x", "/caf\u{e9}", MAY_2015, 1, false).unwrap();
    assert_eq!(acc.url, "/caf\u{e9}");
}

#[test]
fn parent_link_of_reserved_path_is_encoded() {
    let html = directory_listing(Vec::new(), "/a?b/c", false);
    assert!(html.contains("<li><a href=\"/a%3Fb\">../</a></li>"));
}

#[test]
fn sizes_use_binary_prefixes() {
    let e = ListEntry::new("big.apk", "/big.apk", MAY_2015, 42 * 1024 * 1024, false).unwrap();
    let html = directory_listing(vec![e], "/", true);
    assert!(html.contains("<span>42.0MiB</span>"));
}

#[test]
fn parent_entry_appears_unless_at_root() {
    let html = directory_listing(Vec::new(), "/x86_64", false);
    assert!(html.contains("<li><a href=\"/\">../</a></li>"));
    let root_html = directory_listing(Vec::new(), "/", true);
    assert!(!root_html.contains("../"));
}

#[test]
fn page_carries_title_with_request_path() {
    let html = directory_listing(Vec::new(), "/main", true);
    assert!(html.contains("<title>Index of /main</title>"));
    assert!(html.contains("<h1>Index of /main</h1>"));
    assert!(html.starts_with("<html><head>"));
    assert!(html.ends_with("</ul><hr></body>\n</html>"));
}

#[test]
fn parent_of_nested_path() {
    assert_eq!(parent_path("/a/b"), "/a");
    assert_eq!(parent_path("/a"), "/");
    assert_eq!(parent_path("/"), "");
    assert_eq!(parent_path("a"), "");
    assert_eq!(parent_path("a/b/"), "a");
}

#[test]
fn entries_sort_lexicographically_within_kind() {
    let c = ListEntry::new("c", "/c", MAY_2015, 1, false).unwrap();
    let a = ListEntry::new("a", "/a", MAY_2015, 1, false).unwrap();
    let b = ListEntry::new("b", "/b", MAY_2015, 1, false).unwrap();
    let html = directory_listing(vec![c, a, b], "/", true);
    let at_a = html.find("\">a</a>").unwrap();
    let at_b = html.find("\">b</a>").unwrap();
    let at_c = html.find("\">c</a>").unwrap();
    assert!(at_a < at_b && at_b < at_c);
}
