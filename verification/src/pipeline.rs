//! The ingestion pipeline: the state machine that turns an in-flight upload
//! into a durable, correctly placed, re-indexed repository tree.
//!
//! The pipeline itself decides; the surrounding program performs the
//! filesystem work and the external indexer and signer invocations, and
//! reports each outcome back as the next event. The phases run strictly
//! forward: Receiving, Committing, Indexing, Signing, Done. A failure of
//! the indexer or the signer never fails the request — the committed files
//! are already durable — while a truncated stream or a filesystem failure
//! aborts it before anything outside the staging area is touched.

use vstd::prelude::*;

use crate::coordinate::{ApkInfo, Coord};
use crate::names::{is_kept_name, is_safe_segment, sanitize_name, sanitized_of};

verus! {

/// Where an ingestion stands; the phases only ever advance.
#[derive(Clone, Copy, PartialEq, Eq, Structural, Debug)]
pub enum Phase {
    /// Parts are still arriving and being staged.
    Receiving,
    /// The stream is drained; the staged files are being copied into the
    /// destination directory.
    Committing,
    /// The files are durable; the external indexer is rebuilding the index.
    Indexing,
    /// The index is rebuilt; the external signer is signing it.
    Signing,
    /// The request is answered.
    Done,
}

/// How far a phase is along the pipeline.
pub open spec fn phase_index(p: Phase) -> int {
    match p {
        Phase::Receiving => 0,
        Phase::Committing => 1,
        Phase::Indexing => 2,
        Phase::Signing => 3,
        Phase::Done => 4,
    }
}

/// Why an ingestion failed. Indexer and signer failures are deliberately
/// absent: they are logged and the request still succeeds.
#[derive(Clone, Copy, PartialEq, Eq, Structural, Debug)]
pub enum IngestError {
    /// The upload stream ended before it was fully drained.
    Truncated,
    /// A staging or commit filesystem operation failed.
    Io,
}

/// One thing the pipeline learns from outside.
pub enum IngestEvent {
    /// A file part arrived carrying this client-supplied filename.
    FilePart { filename: String },
    /// A form-field part arrived, fully decoded as UTF-8.
    FieldPart { name: String, value: String },
    /// A part with no usable name or filename arrived; it is skipped.
    OpaquePart,
    /// The stream is fully drained.
    StreamEnd,
    /// The stream ended early (client disconnect mid-part).
    StreamTruncated,
    /// The staged files were copied into the destination directory, which
    /// now holds exactly these regular files.
    CommitOk { listing: Vec<String> },
    /// Creating the destination directory or copying a file failed.
    CommitFailed,
    /// The external indexer finished, successfully or not.
    IndexFinished { ok: bool },
    /// The external signer finished, successfully or not.
    SignFinished { ok: bool },
}

/// What the pipeline asks the surrounding program to do next.
pub enum IngestAction {
    /// Create a staged file under this sanitized name and stream the part's
    /// bytes into it verbatim.
    Stage { name: String },
    /// Nothing to do; read the next part.
    Skip,
    /// Create `dir` (and all missing ancestors), copy every staged file
    /// into it under its sanitized name, then list the regular files in it.
    Commit { dir: String, files: Vec<String> },
    /// Run the indexer in `dir` with these arguments.
    Index { dir: String, args: Vec<String> },
    /// Run the signer in `dir` with these arguments.
    Sign { dir: String, args: Vec<String> },
    /// Release the staging area and answer the request with this result.
    Finish { result: Result<(), IngestError> },
}

/// The mathematical value of an ingestion in progress.
#[verifier::ext_equal]
pub ghost struct IngestModel {
    pub root: Seq<char>,
    pub coord: Coord,
    pub files: Seq<Seq<char>>,
    pub phase: Phase,
}

/// The mathematical value of an event.
pub ghost enum EventModel {
    FilePart { filename: Seq<char> },
    FieldPart { name: Seq<char>, value: Seq<char> },
    OpaquePart,
    StreamEnd,
    StreamTruncated,
    CommitOk { listing: Seq<Seq<char>> },
    CommitFailed,
    IndexFinished { ok: bool },
    SignFinished { ok: bool },
}

/// The mathematical value of an action.
pub ghost enum ActionModel {
    Stage { name: Seq<char> },
    Skip,
    Commit { dir: Seq<char>, files: Seq<Seq<char>> },
    Index { dir: Seq<char>, args: Seq<Seq<char>> },
    Sign { dir: Seq<char>, args: Seq<Seq<char>> },
    Finish { result: Result<(), IngestError> },
}

impl View for IngestEvent {
    type V = EventModel;

    open spec fn view(&self) -> EventModel {
        match self {
            IngestEvent::FilePart { filename } => EventModel::FilePart { filename: filename@ },
            IngestEvent::FieldPart { name, value } => EventModel::FieldPart {
                name: name@,
                value: value@,
            },
            IngestEvent::OpaquePart => EventModel::OpaquePart,
            IngestEvent::StreamEnd => EventModel::StreamEnd,
            IngestEvent::StreamTruncated => EventModel::StreamTruncated,
            IngestEvent::CommitOk { listing } => EventModel::CommitOk {
                listing: listing.deep_view(),
            },
            IngestEvent::CommitFailed => EventModel::CommitFailed,
            IngestEvent::IndexFinished { ok } => EventModel::IndexFinished { ok: *ok },
            IngestEvent::SignFinished { ok } => EventModel::SignFinished { ok: *ok },
        }
    }
}

impl View for IngestAction {
    type V = ActionModel;

    open spec fn view(&self) -> ActionModel {
        match self {
            IngestAction::Stage { name } => ActionModel::Stage { name: name@ },
            IngestAction::Skip => ActionModel::Skip,
            IngestAction::Commit { dir, files } => ActionModel::Commit {
                dir: dir@,
                files: files.deep_view(),
            },
            IngestAction::Index { dir, args } => ActionModel::Index {
                dir: dir@,
                args: args.deep_view(),
            },
            IngestAction::Sign { dir, args } => ActionModel::Sign {
                dir: dir@,
                args: args.deep_view(),
            },
            IngestAction::Finish { result } => ActionModel::Finish { result: *result },
        }
    }
}

/// A name that the indexer treats as a package archive: it ends in `.apk`
/// with a non-empty stem before the dot.
pub open spec fn is_apk_name(s: Seq<char>) -> bool {
    &&& s.len() >= 5
    &&& s[s.len() - 4] == '.'
    &&& s[s.len() - 3] == 'a'
    &&& s[s.len() - 2] == 'p'
    &&& s[s.len() - 1] == 'k'
}

/// Whether the indexer treats this filename as a package archive.
pub fn is_apk_file(name: &str) -> (r: bool)
    ensures
        r == is_apk_name(name@),
{
    let n = name.unicode_len();
    if n < 5 {
        return false;
    }
    name.get_char(n - 4) == '.' && name.get_char(n - 3) == 'a' && name.get_char(n - 2) == 'p'
        && name.get_char(n - 1) == 'k'
}

/// The package archives among the names in a directory listing, in listing
/// order.
pub open spec fn apk_names(listing: Seq<Seq<char>>) -> Seq<Seq<char>>
    decreases listing.len(),
{
    if listing.len() == 0 {
        Seq::empty()
    } else {
        let rest = apk_names(listing.drop_last());
        if is_apk_name(listing.last()) {
            rest.push(listing.last())
        } else {
            rest
        }
    }
}

/// The argument list for the indexer invocation: rebuild `APKINDEX.tar.gz`
/// in place, tag it with the coordinate's architecture, and index every
/// package archive in the directory listing.
pub open spec fn index_args_spec(arch: Seq<char>, listing: Seq<Seq<char>>) -> Seq<Seq<char>> {
    seq!["index"@, "-o"@, "APKINDEX.tar.gz"@, "--rewrite-arch"@, arch] + apk_names(listing)
}

/// The argument list for the signer invocation.
pub open spec fn sign_args_spec() -> Seq<Seq<char>> {
    seq!["APKINDEX.tar.gz"@]
}

/// Builds the indexer's argument list from the architecture tag and the
/// destination directory's current listing.
pub fn index_args(arch: &String, listing: &Vec<String>) -> (r: Vec<String>)
    ensures
        r.deep_view() == index_args_spec(arch@, listing.deep_view()),
{
    let ghost head: Seq<Seq<char>> = seq![
        "index"@,
        "-o"@,
        "APKINDEX.tar.gz"@,
        "--rewrite-arch"@,
        arch@,
    ];
    let mut r: Vec<String> = Vec::new();
    r.push("index".to_owned());
    r.push("-o".to_owned());
    r.push("APKINDEX.tar.gz".to_owned());
    r.push("--rewrite-arch".to_owned());
    r.push(arch.clone());
    proof {
        assert(r.deep_view() =~= head);
    }
    let n = listing.len();
    let mut i: usize = 0;
    proof {
        assert(listing.deep_view().take(0) =~= Seq::<Seq<char>>::empty());
        assert(apk_names(Seq::<Seq<char>>::empty()) =~= Seq::<Seq<char>>::empty());
        assert(head + Seq::<Seq<char>>::empty() =~= head);
    }
    while i < n
        invariant
            i <= n,
            n == listing.len(),
            r.deep_view() =~= head + apk_names(listing.deep_view().take(i as int)),
        decreases n - i,
    {
        let ghost prefix = listing.deep_view().take(i as int);
        let ghost next_prefix = listing.deep_view().take(i as int + 1);
        let ghost cur = listing.deep_view()[i as int];
        proof {
            assert(next_prefix.drop_last() =~= prefix);
            assert(next_prefix.last() == cur);
            assert(cur == listing[i as int]@);
            assert(next_prefix.len() > 0);
            assert(apk_names(next_prefix) == if is_apk_name(cur) {
                apk_names(prefix).push(cur)
            } else {
                apk_names(prefix)
            });
        }
        if is_apk_file(listing[i].as_str()) {
            let ghost r0 = r.deep_view();
            let ghost rv0 = r@;
            let elem = listing[i].clone();
            proof {
                assert(elem@ == cur);
            }
            r.push(elem);
            proof {
                assert(r@ == rv0.push(elem));
                assert forall|j: int| 0 <= j < r0.len() implies r.deep_view()[j] == r0[j] by {
                    assert(r@[j] == rv0[j]);
                }
                assert(r.deep_view()[r0.len() as int] == cur);
                assert(r.deep_view() =~= r0.push(cur));
                assert(r.deep_view() =~= head + apk_names(next_prefix));
            }
        }
        i += 1;
    }
    proof {
        assert(listing.deep_view().take(n as int) =~= listing.deep_view());
    }
    r
}

/// Which events the pipeline can take in which phase: the protocol the
/// driving program follows.
pub open spec fn accepts(m: IngestModel, e: EventModel) -> bool {
    match e {
        EventModel::FilePart { .. } => m.phase == Phase::Receiving,
        EventModel::FieldPart { .. } => m.phase == Phase::Receiving,
        EventModel::OpaquePart => m.phase == Phase::Receiving,
        EventModel::StreamEnd => m.phase == Phase::Receiving,
        EventModel::StreamTruncated => m.phase == Phase::Receiving,
        EventModel::CommitOk { .. } => m.phase == Phase::Committing,
        EventModel::CommitFailed => m.phase == Phase::Committing,
        EventModel::IndexFinished { .. } => m.phase == Phase::Indexing,
        EventModel::SignFinished { .. } => m.phase == Phase::Signing,
    }
}

/// The state after one event.
pub open spec fn next_state(m: IngestModel, e: EventModel) -> IngestModel {
    match e {
        EventModel::FilePart { filename } => IngestModel {
            files: m.files.push(sanitized_of(filename)),
            ..m
        },
        EventModel::FieldPart { name, value } => IngestModel {
            coord: m.coord.with_field(name, value),
            ..m
        },
        EventModel::OpaquePart => m,
        EventModel::StreamEnd => IngestModel { phase: Phase::Committing, ..m },
        EventModel::StreamTruncated => IngestModel { phase: Phase::Done, ..m },
        EventModel::CommitOk { .. } => IngestModel { phase: Phase::Indexing, ..m },
        EventModel::CommitFailed => IngestModel { phase: Phase::Done, ..m },
        EventModel::IndexFinished { .. } => IngestModel { phase: Phase::Signing, ..m },
        EventModel::SignFinished { .. } => IngestModel { phase: Phase::Done, ..m },
    }
}

/// The action requested after one event.
pub open spec fn next_action(m: IngestModel, e: EventModel) -> ActionModel {
    match e {
        EventModel::FilePart { filename } => ActionModel::Stage {
            name: sanitized_of(filename),
        },
        EventModel::FieldPart { .. } => ActionModel::Skip,
        EventModel::OpaquePart => ActionModel::Skip,
        EventModel::StreamEnd => ActionModel::Commit {
            dir: m.coord.dest_dir_spec(m.root),
            files: m.files,
        },
        EventModel::StreamTruncated => ActionModel::Finish {
            result: Err(IngestError::Truncated),
        },
        EventModel::CommitOk { listing } => ActionModel::Index {
            dir: m.coord.dest_dir_spec(m.root),
            args: index_args_spec(m.coord.arch, listing),
        },
        EventModel::CommitFailed => ActionModel::Finish { result: Err(IngestError::Io) },
        EventModel::IndexFinished { .. } => ActionModel::Sign {
            dir: m.coord.dest_dir_spec(m.root),
            args: sign_args_spec(),
        },
        EventModel::SignFinished { .. } => ActionModel::Finish { result: Ok(()) },
    }
}

/// Every staged name is a safe path segment: sanitization admits no
/// separator and no parent-directory name.
pub open spec fn files_wf(m: IngestModel) -> bool {
    forall|i: int| 0 <= i < m.files.len() ==> is_safe_segment(#[trigger] m.files[i])
}

/// The model a fresh ingestion starts from: the default coordinate, no
/// staged files, receiving.
pub open spec fn init_model(root: Seq<char>) -> IngestModel {
    IngestModel {
        root: root,
        coord: Coord::default_spec(),
        files: Seq::empty(),
        phase: Phase::Receiving,
    }
}

/// An ingestion in progress: one upload request being staged, classified,
/// committed, indexed and signed.
pub struct Ingestion {
    pub root: String,
    pub info: ApkInfo,
    pub files: Vec<String>,
    pub phase: Phase,
}

impl View for Ingestion {
    type V = IngestModel;

    open spec fn view(&self) -> IngestModel {
        IngestModel {
            root: self.root@,
            coord: self.info@,
            files: self.files.deep_view(),
            phase: self.phase,
        }
    }
}

impl Ingestion {
    /// Starts handling one upload request against the repository rooted at
    /// `root`.
    pub fn new(root: String) -> (r: Self)
        ensures
            r@ == init_model(root@),
            files_wf(r@),
    {
        let r = Ingestion {
            root,
            info: ApkInfo::default(),
            files: Vec::new(),
            phase: Phase::Receiving,
        };
        proof {
            assert(r@ =~= init_model(r.root@));
        }
        r
    }

    /// Feeds one event into the pipeline and returns the next thing the
    /// driving program must do. The phase never moves backward.
    pub fn step(&mut self, event: IngestEvent) -> (action: IngestAction)
        requires
            accepts(old(self)@, event@),
            files_wf(old(self)@),
        ensures
            final(self)@ == next_state(old(self)@, event@),
            action@ == next_action(old(self)@, event@),
            phase_index(final(self)@.phase) >= phase_index(old(self)@.phase),
            files_wf(final(self)@),
            (next_action(old(self)@, event@) matches ActionModel::Stage { name }
                ==> is_safe_segment(name)),
            (event@ matches EventModel::FilePart { filename } ==> (is_kept_name(filename)
                ==> sanitized_of(filename) == filename)),
            event@ == EventModel::StreamEnd ==> is_safe_segment(
                sanitized_of(old(self)@.coord.version),
            ) && is_safe_segment(sanitized_of(old(self)@.coord.repo)) && is_safe_segment(
                sanitized_of(old(self)@.coord.arch),
            ),
    {
        match event {
            IngestEvent::FilePart { filename } => {
                let sane = sanitize_name(filename.as_str());
                self.files.push(sane.clone());
                proof {
                    assert(self@ =~= next_state(old(self)@, event@)) by {
                        assert(self.files.deep_view() =~= old(self).files.deep_view().push(
                            sanitized_of(filename@),
                        ));
                    }
                }
                IngestAction::Stage { name: sane }
            },
            IngestEvent::FieldPart { name, value } => {
                self.info.set(name.as_str(), value);
                proof {
                    assert(self@ =~= next_state(old(self)@, event@));
                }
                IngestAction::Skip
            },
            IngestEvent::OpaquePart => {
                proof {
                    assert(self@ =~= next_state(old(self)@, event@));
                }
                IngestAction::Skip
            },
            IngestEvent::StreamEnd => {
                let dir = self.info.dest_dir(self.root.as_str());
                let files = self.files.clone();
                self.phase = Phase::Committing;
                proof {
                    broadcast use vstd::std_specs::vec::vec_clone_deep_view_proof;

                    assert(files.deep_view() =~= old(self).files.deep_view());
                    assert(self@ =~= next_state(old(self)@, event@));
                }
                IngestAction::Commit { dir, files }
            },
            IngestEvent::StreamTruncated => {
                self.phase = Phase::Done;
                proof {
                    assert(self@ =~= next_state(old(self)@, event@));
                }
                IngestAction::Finish { result: Err(IngestError::Truncated) }
            },
            IngestEvent::CommitOk { listing } => {
                let dir = self.info.dest_dir(self.root.as_str());
                let args = index_args(&self.info.arch, &listing);
                self.phase = Phase::Indexing;
                proof {
                    assert(self@ =~= next_state(old(self)@, event@));
                }
                IngestAction::Index { dir, args }
            },
            IngestEvent::CommitFailed => {
                self.phase = Phase::Done;
                proof {
                    assert(self@ =~= next_state(old(self)@, event@));
                }
                IngestAction::Finish { result: Err(IngestError::Io) }
            },
            IngestEvent::IndexFinished { ok: _ } => {
                let dir = self.info.dest_dir(self.root.as_str());
                let mut args: Vec<String> = Vec::new();
                args.push("APKINDEX.tar.gz".to_owned());
                self.phase = Phase::Signing;
                proof {
                    assert(args.deep_view() =~= sign_args_spec());
                    assert(self@ =~= next_state(old(self)@, event@));
                }
                IngestAction::Sign { dir, args }
            },
            IngestEvent::SignFinished { ok: _ } => {
                self.phase = Phase::Done;
                proof {
                    assert(self@ =~= next_state(old(self)@, event@));
                }
                IngestAction::Finish { result: Ok(()) }
            },
        }
    }
}


/// The state after a whole sequence of events.
pub open spec fn run(m: IngestModel, evs: Seq<EventModel>) -> IngestModel
    decreases evs.len(),
{
    if evs.len() == 0 {
        m
    } else {
        run(next_state(m, evs[0]), evs.drop_first())
    }
}

/// An event of the Receiving phase: one part of the multipart stream.
pub open spec fn is_part(e: EventModel) -> bool {
    match e {
        EventModel::FilePart { .. } => true,
        EventModel::FieldPart { .. } => true,
        EventModel::OpaquePart => true,
        _ => false,
    }
}

/// The sanitized names of a stream's file parts, in arrival order.
pub open spec fn staged_names(evs: Seq<EventModel>) -> Seq<Seq<char>>
    decreases evs.len(),
{
    if evs.len() == 0 {
        Seq::empty()
    } else {
        let rest = staged_names(evs.drop_first());
        match evs[0] {
            EventModel::FilePart { filename } => seq![sanitized_of(filename)] + rest,
            _ => rest,
        }
    }
}

/// The coordinate after a stream's field parts are applied in order.
pub open spec fn coord_after(c: Coord, evs: Seq<EventModel>) -> Coord
    decreases evs.len(),
{
    if evs.len() == 0 {
        c
    } else {
        let c1 = match evs[0] {
            EventModel::FieldPart { name, value } => c.with_field(name, value),
            _ => c,
        };
        coord_after(c1, evs.drop_first())
    }
}

/// Receiving a stream of parts stages exactly the file parts' sanitized
/// names, in arrival order, and folds the field parts into the coordinate;
/// the root and the phase do not move. Every uploaded file is therefore
/// recorded for placement at `root/version/repo/arch/sanitizedName`.
pub proof fn lemma_receiving_accumulates(m: IngestModel, evs: Seq<EventModel>)
    requires
        m.phase == Phase::Receiving,
        forall|i: int| 0 <= i < evs.len() ==> is_part(#[trigger] evs[i]),
    ensures
        run(m, evs) == (IngestModel {
            coord: coord_after(m.coord, evs),
            files: m.files + staged_names(evs),
            ..m
        }),
    decreases evs.len(),
{
    if evs.len() == 0 {
        assert(m.files + staged_names(evs) =~= m.files);
        assert(run(m, evs) =~= IngestModel {
            coord: coord_after(m.coord, evs),
            files: m.files + staged_names(evs),
            ..m
        });
    } else {
        let m1 = next_state(m, evs[0]);
        assert(is_part(evs[0]));
        assert(m1.phase == Phase::Receiving);
        assert(forall|i: int|
            0 <= i < evs.drop_first().len() ==> is_part(#[trigger] evs.drop_first()[i]));
        lemma_receiving_accumulates(m1, evs.drop_first());
        match evs[0] {
            EventModel::FilePart { filename } => {
                assert(m1.files =~= m.files.push(sanitized_of(filename)));
                assert(m.files.push(sanitized_of(filename)) + staged_names(evs.drop_first())
                    =~= m.files + staged_names(evs));
            },
            _ => {
                assert(m1.files + staged_names(evs.drop_first()) =~= m.files + staged_names(evs));
            },
        }
        assert(run(m, evs) =~= IngestModel {
            coord: coord_after(m.coord, evs),
            files: m.files + staged_names(evs),
            ..m
        });
    }
}

/// A stream whose field parts name no coordinate field leaves the
/// coordinate untouched: an upload that omits version, repo and arch keeps
/// the defaults, so it routes to `root/edge/main/x86_64`.
pub proof fn lemma_unnamed_fields_keep_coordinate(c: Coord, evs: Seq<EventModel>)
    requires
        forall|i: int| 0 <= i < evs.len() ==> (match #[trigger] evs[i] {
            EventModel::FieldPart { name, .. } => crate::coordinate::field_of_name(name) is None,
            _ => true,
        }),
    ensures
        coord_after(c, evs) == c,
    decreases evs.len(),
{
    if evs.len() > 0 {
        let c1 = match evs[0] {
            EventModel::FieldPart { name, value } => c.with_field(name, value),
            _ => c,
        };
        assert(c1 == c);
        assert(forall|i: int| 0 <= i < evs.drop_first().len() ==> match #[trigger] evs.drop_first()[i] {
            EventModel::FieldPart { name, .. } => crate::coordinate::field_of_name(name) is None,
            _ => true,
        });
        lemma_unnamed_fields_keep_coordinate(c, evs.drop_first());
    }
}

/// An indexer failure is not fatal: from the Indexing phase both indexer
/// outcomes lead to the same state and the same signer invocation, the
/// staged files stay recorded, and the request then finishes with success
/// whatever the signer reports in turn.
pub proof fn lemma_indexer_failure_nonfatal(m: IngestModel, ok1: bool, ok2: bool, sok: bool)
    requires
        m.phase == Phase::Indexing,
    ensures
        next_state(m, EventModel::IndexFinished { ok: ok1 }) == next_state(
            m,
            EventModel::IndexFinished { ok: ok2 },
        ),
        next_action(m, EventModel::IndexFinished { ok: ok1 }) == next_action(
            m,
            EventModel::IndexFinished { ok: ok2 },
        ),
        next_state(m, EventModel::IndexFinished { ok: ok1 }).files == m.files,
        next_action(
            next_state(m, EventModel::IndexFinished { ok: ok1 }),
            EventModel::SignFinished { ok: sok },
        ) == (ActionModel::Finish { result: Ok(()) }),
{
    assert(next_state(m, EventModel::IndexFinished { ok: ok1 }) =~= next_state(
        m,
        EventModel::IndexFinished { ok: ok2 },
    ));
}


/// Ingesting a drained stream of parts commits exactly the file parts'
/// sanitized names, in arrival order, into the directory of the coordinate
/// the field parts select (with defaults for fields never supplied): every
/// uploaded file is headed for `root/version/repo/arch/sanitizedName`.
pub proof fn lemma_ingest_places_uploads(root: Seq<char>, evs: Seq<EventModel>)
    requires
        forall|i: int| 0 <= i < evs.len() ==> is_part(#[trigger] evs[i]),
    ensures
        next_action(run(init_model(root), evs), EventModel::StreamEnd) == (ActionModel::Commit {
            dir: coord_after(Coord::default_spec(), evs).dest_dir_spec(root),
            files: staged_names(evs),
        }),
{
    lemma_receiving_accumulates(init_model(root), evs);
    let m = run(init_model(root), evs);
    assert(m.files =~= staged_names(evs));
}

} // verus!
