use reposerve::auth::{route_mode, RouteMode, TokenAuth};
use reposerve::coordinate::{joined_path, ApkInfo};
use reposerve::opts::cmd;
use reposerve::strutil::{str_eq, str_le};

#[test]
fn default_coordinate_fields() {
    let info = ApkInfo::default();
    assert_eq!(info.version, "edge");
    assert_eq!(info.repo, "main");
    assert_eq!(info.arch, "x86_64");
}

#[test]
fn set_overwrites_matching_field() {
    let mut info = ApkInfo::default();
    info.set("version", "v3.18".to_owned());
    assert_eq!(info.version, "v3.18");
    assert_eq!(info.repo, "main");
    assert_eq!(info.arch, "x86_64");
    info.set("repo", "community".to_owned());
    assert_eq!(info.repo, "community");
    info.set("arch", "aarch64".to_owned());
    assert_eq!(info.arch, "aarch64");
}

#[test]
fn set_last_write_wins() {
    let mut info = ApkInfo::default();
    info.set("version", "v1".to_owned());
    info.set("version", "v2".to_owned());
    assert_eq!(info.version, "v2");
}

#[test]
fn set_ignores_unknown_field() {
    let mut info = ApkInfo::default();
    info.set("flavour", "salty".to_owned());
    assert_eq!(info.version, "edge");
    assert_eq!(info.repo, "main");
    assert_eq!(info.arch, "x86_64");
}

#[test]
fn default_coordinate_routes_to_edge_main_x86_64() {
    let info = ApkInfo::default();
    assert_eq!(info.dest_dir("root"), "root/edge/main/x86_64");
}

#[test]
fn traversal_in_coordinate_is_neutralized() {
    let mut info = ApkInfo::default();
    info.set("version", "../../etc".to_owned());
    assert_eq!(info.dest_dir("root"), "root/....etc/main/x86_64");
}

#[test]
fn separators_and_illegal_chars_stripped_from_coordinate() {
    let mut info = ApkInfo::default();
    info.set("repo", "a<b|c/d".to_owned());
    assert_eq!(info.dest_dir("root"), "root/edge/abcd/x86_64");
}

#[test]
fn untouched_coordinate_with_space_passes_through() {
    let mut info = ApkInfo::default();
    info.set("version", "3.18 beta".to_owned());
    assert_eq!(info.dest_dir("root"), "root/3.18 beta/main/x86_64");
}

#[test]
fn joined_path_inserts_separator() {
    assert_eq!(joined_path("root/edge", "pkg.apk"), "root/edge/pkg.apk");
}

#[test]
fn cmd_takes_file_name_of_path() {
    assert_eq!(cmd("fallback", "/usr/bin/reposerve"), "reposerve");
    assert_eq!(cmd("fallback", "reposerve"), "reposerve");
    assert_eq!(cmd("fallback", "bin/reposerve/"), "reposerve");
}

#[test]
fn cmd_drops_trailing_dot_components() {
    assert_eq!(cmd("fallback", "a/."), "a");
    assert_eq!(cmd("fallback", "foo.txt/."), "foo.txt");
    assert_eq!(cmd("fallback", "a/.//"), "a");
    assert_eq!(cmd("fallback", "a/././"), "a");
}

#[test]
fn cmd_falls_back_on_unusable_paths() {
    assert_eq!(cmd("fallback", ""), "fallback");
    assert_eq!(cmd("fallback", "/"), "fallback");
    assert_eq!(cmd("fallback", ".."), "fallback");
    assert_eq!(cmd("fallback", "a/.."), "fallback");
    assert_eq!(cmd("fallback", "."), "fallback");
    assert_eq!(cmd("fallback", "./"), "fallback");
}

#[test]
fn token_gate_requires_exact_match() {
    assert!(TokenAuth::allows(Some("SECRET-REDACTED"), "SECRET-REDACTED"));
    assert!(!TokenAuth::allows(Some("wrong"), "SECRET-REDACTED"));
    assert!(!TokenAuth::allows(None, "SECRET-REDACTED"));
}

#[test]
fn str_eq_compares_contents() {
    assert!(str_eq("abc", "abc"));
    assert!(!str_eq("abc", "abd"));
    assert!(!str_eq("abc", "ab"));
    assert!(str_eq("", ""));
}

#[test]
fn str_le_is_lexicographic() {
    assert!(str_le("A", "b"));
    assert!(str_le("ab", "abc"));
    assert!(!str_le("abd", "abc"));
    assert!(str_le("", "a"));
    assert!(str_le("same", "same"));
}

#[test]
fn routes_hide_without_jwt_outside_dev_mode() {
    assert_eq!(route_mode(true, false), RouteMode::Protected);
    assert_eq!(route_mode(true, true), RouteMode::Protected);
    assert_eq!(route_mode(false, true), RouteMode::Open);
    assert_eq!(route_mode(false, false), RouteMode::Absent);
}
