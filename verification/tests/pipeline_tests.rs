use reposerve::pipeline::{index_args, is_apk_file, IngestAction, IngestError, IngestEvent,
    Ingestion};

fn owned(items: &[&str]) -> Vec<String> {
    items.iter().map(|s| (*s).to_owned()).collect()
}

#[test]
fn empty_stream_routes_to_default_coordinate() {
    let mut ing = Ingestion::new("root".to_owned());
    match ing.step(IngestEvent::StreamEnd) {
        IngestAction::Commit { dir, files } => {
            assert_eq!(dir, "root/edge/main/x86_64");
            assert!(files.is_empty());
        },
        _ => panic!("expected a commit"),
    }
}

#[test]
fn full_ingest_places_files_and_survives_indexer_failure() {
    let mut ing = Ingestion::new("root".to_owned());
    match ing.step(IngestEvent::FilePart { filename: "test-1.0.apk".to_owned() }) {
        IngestAction::Stage { name } => assert_eq!(name, "test-1.0.apk"),
        _ => panic!("expected staging"),
    }
    match ing.step(IngestEvent::FieldPart {
        name: "version".to_owned(),
        value: "v3.18".to_owned(),
    }) {
        IngestAction::Skip => {},
        _ => panic!("expected to read on"),
    }
    match ing.step(IngestEvent::StreamEnd) {
        IngestAction::Commit { dir, files } => {
            assert_eq!(dir, "root/v3.18/main/x86_64");
            assert_eq!(files, owned(&["test-1.0.apk"]));
        },
        _ => panic!("expected a commit"),
    }
    match ing.step(IngestEvent::CommitOk {
        listing: owned(&["test-1.0.apk", "APKINDEX.tar.gz", "readme.txt"]),
    }) {
        IngestAction::Index { dir, args } => {
            assert_eq!(dir, "root/v3.18/main/x86_64");
            assert_eq!(
                args,
                owned(&["index", "-o", "APKINDEX.tar.gz", "--rewrite-arch", "x86_64",
                    "test-1.0.apk"])
            );
        },
        _ => panic!("expected an index run"),
    }
    // The indexer fails: the request must still go on and succeed.
    match ing.step(IngestEvent::IndexFinished { ok: false }) {
        IngestAction::Sign { dir, args } => {
            assert_eq!(dir, "root/v3.18/main/x86_64");
            assert_eq!(args, owned(&["APKINDEX.tar.gz"]));
        },
        _ => panic!("expected a sign run"),
    }
    match ing.step(IngestEvent::SignFinished { ok: false }) {
        IngestAction::Finish { result } => assert_eq!(result, Ok(())),
        _ => panic!("expected completion"),
    }
}

#[test]
fn traversal_in_filename_is_neutralized() {
    let mut ing = Ingestion::new("root".to_owned());
    match ing.step(IngestEvent::FilePart { filename: "../../etc".to_owned() }) {
        IngestAction::Stage { name } => assert_eq!(name, "....etc"),
        _ => panic!("expected staging"),
    }
}

#[test]
fn opaque_parts_are_skipped() {
    let mut ing = Ingestion::new("root".to_owned());
    match ing.step(IngestEvent::OpaquePart) {
        IngestAction::Skip => {},
        _ => panic!("expected a skip"),
    }
    match ing.step(IngestEvent::StreamEnd) {
        IngestAction::Commit { dir, files } => {
            assert_eq!(dir, "root/edge/main/x86_64");
            assert!(files.is_empty());
        },
        _ => panic!("expected a commit"),
    }
}

#[test]
fn truncated_stream_aborts_with_truncated() {
    let mut ing = Ingestion::new("root".to_owned());
    ing.step(IngestEvent::FilePart { filename: "a.apk".to_owned() });
    match ing.step(IngestEvent::StreamTruncated) {
        IngestAction::Finish { result } => assert_eq!(result, Err(IngestError::Truncated)),
        _ => panic!("expected an abort"),
    }
}

#[test]
fn commit_failure_aborts_with_io_error() {
    let mut ing = Ingestion::new("root".to_owned());
    ing.step(IngestEvent::StreamEnd);
    match ing.step(IngestEvent::CommitFailed) {
        IngestAction::Finish { result } => assert_eq!(result, Err(IngestError::Io)),
        _ => panic!("expected an abort"),
    }
}

#[test]
fn apk_names_need_a_stem_and_the_apk_extension() {
    assert!(is_apk_file("a.apk"));
    assert!(is_apk_file("pkg-1.0.apk"));
    assert!(!is_apk_file(".apk"));
    assert!(!is_apk_file("apk"));
    assert!(!is_apk_file("a.apk.sig"));
    assert!(!is_apk_file("APKINDEX.tar.gz"));
}

#[test]
fn index_args_filter_package_archives_in_order() {
    let args = index_args(
        &"aarch64".to_owned(),
        &owned(&["z.apk", "APKINDEX.tar.gz", ".apk", "a.apk", "notes.txt"]),
    );
    assert_eq!(
        args,
        owned(&["index", "-o", "APKINDEX.tar.gz", "--rewrite-arch", "aarch64", "z.apk", "a.apk"])
    );
}

#[test]
fn duplicate_coordinate_field_takes_last_value() {
    let mut ing = Ingestion::new("root".to_owned());
    ing.step(IngestEvent::FieldPart { name: "arch".to_owned(), value: "armv7".to_owned() });
    ing.step(IngestEvent::FieldPart { name: "arch".to_owned(), value: "aarch64".to_owned() });
    match ing.step(IngestEvent::StreamEnd) {
        IngestAction::Commit { dir, .. } => assert_eq!(dir, "root/edge/main/aarch64"),
        _ => panic!("expected a commit"),
    }
}
