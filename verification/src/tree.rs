//! A model of the persistent repository tree: which file lives where, and
//! what one commit does to it.
//!
//! A file's place is its directory — the sanitized (version, repo, arch)
//! triple — plus its sanitized name; its value is its content. A commit
//! copies a set of staged files into one directory, overwriting files of
//! the same name there and touching nothing else. The lemmas here pin down
//! the commit's effect: placement is byte-identical, re-committing disjoint
//! files yields the union, and commits to distinct directories commute.

use vstd::prelude::*;

use crate::coordinate::Coord;
use crate::names::sanitized_of;

verus! {

/// The place of one arch directory in the tree: the three sanitized
/// coordinate segments.
#[verifier::ext_equal]
pub ghost struct DirKey {
    pub version: Seq<char>,
    pub repo: Seq<char>,
    pub arch: Seq<char>,
}

/// The place of one file: its directory and its name inside it.
#[verifier::ext_equal]
pub ghost struct FileKey {
    pub dir: DirKey,
    pub name: Seq<char>,
}

/// The directory a coordinate commits into.
pub open spec fn dir_of_coord(c: Coord) -> DirKey {
    DirKey {
        version: sanitized_of(c.version),
        repo: sanitized_of(c.repo),
        arch: sanitized_of(c.arch),
    }
}

/// The tree after one commit of `staged` (name to content) into `dir`:
/// every staged file is placed there with its content, overwriting a file
/// of the same name; every other file is untouched.
pub open spec fn after_commit(
    tree: Map<FileKey, Seq<u8>>,
    dir: DirKey,
    staged: Map<Seq<char>, Seq<u8>>,
) -> Map<FileKey, Seq<u8>> {
    Map::new(
        |k: FileKey| tree.dom().contains(k) || (k.dir == dir && staged.dom().contains(k.name)),
        |k: FileKey|
            if k.dir == dir && staged.dom().contains(k.name) {
                staged[k.name]
            } else {
                tree[k]
            },
    )
}

/// The names of the files the tree holds in one directory: what the
/// indexer sees when it rebuilds that directory's index.
pub open spec fn files_at(tree: Map<FileKey, Seq<u8>>, dir: DirKey) -> Set<Seq<char>> {
    Set::new(|n: Seq<char>| tree.dom().contains(FileKey { dir: dir, name: n }))
}

/// One commit places every staged file at its directory with its exact
/// content, leaves every other file byte-identical, and adds no path
/// outside its directory.
pub proof fn lemma_commit_places(
    tree: Map<FileKey, Seq<u8>>,
    dir: DirKey,
    staged: Map<Seq<char>, Seq<u8>>,
)
    ensures
        forall|n: Seq<char>| #[trigger]
            staged.dom().contains(n) ==> after_commit(tree, dir, staged)[FileKey {
                dir: dir,
                name: n,
            }] == staged[n],
        forall|k: FileKey| #[trigger]
            tree.dom().contains(k) && !(k.dir == dir && staged.dom().contains(k.name))
                ==> after_commit(tree, dir, staged)[k] == tree[k],
        forall|k: FileKey| #[trigger]
            after_commit(tree, dir, staged).dom().contains(k) <==> (tree.dom().contains(k) || (
            k.dir == dir && staged.dom().contains(k.name))),
        files_at(after_commit(tree, dir, staged), dir) =~= files_at(tree, dir) + staged.dom(),
{
}

/// Committing a second, disjoint set of files to the same directory keeps
/// every file of the first commit byte-identical, adds the new ones, and
/// leaves the directory holding the union of the old files and both
/// staged sets.
pub proof fn lemma_recommit_union(
    tree: Map<FileKey, Seq<u8>>,
    dir: DirKey,
    staged1: Map<Seq<char>, Seq<u8>>,
    staged2: Map<Seq<char>, Seq<u8>>,
)
    requires
        staged1.dom().disjoint(staged2.dom()),
    ensures
        forall|n: Seq<char>| #[trigger]
            staged1.dom().contains(n) ==> after_commit(
                after_commit(tree, dir, staged1),
                dir,
                staged2,
            )[FileKey { dir: dir, name: n }] == staged1[n],
        forall|n: Seq<char>| #[trigger]
            staged2.dom().contains(n) ==> after_commit(
                after_commit(tree, dir, staged1),
                dir,
                staged2,
            )[FileKey { dir: dir, name: n }] == staged2[n],
        files_at(after_commit(after_commit(tree, dir, staged1), dir, staged2), dir) =~= files_at(
            tree,
            dir,
        ) + staged1.dom() + staged2.dom(),
{
    assert forall|n: Seq<char>| #[trigger] staged1.dom().contains(n) implies after_commit(
        after_commit(tree, dir, staged1),
        dir,
        staged2,
    )[FileKey { dir: dir, name: n }] == staged1[n] by {
        assert(!staged2.dom().contains(n));
    }
}

/// Commits to distinct directories write disjoint sets of paths and
/// commute: the final tree does not depend on their order, and neither
/// commit changes what the other's directory holds.
pub proof fn lemma_distinct_commits_commute(
    tree: Map<FileKey, Seq<u8>>,
    dir1: DirKey,
    staged1: Map<Seq<char>, Seq<u8>>,
    dir2: DirKey,
    staged2: Map<Seq<char>, Seq<u8>>,
)
    requires
        dir1 != dir2,
    ensures
        after_commit(after_commit(tree, dir1, staged1), dir2, staged2) == after_commit(
            after_commit(tree, dir2, staged2),
            dir1,
            staged1,
        ),
        files_at(after_commit(tree, dir1, staged1), dir2) == files_at(tree, dir2),
{
    let lhs = after_commit(after_commit(tree, dir1, staged1), dir2, staged2);
    let rhs = after_commit(after_commit(tree, dir2, staged2), dir1, staged1);
    assert forall|k: FileKey| lhs.dom().contains(k) implies rhs.dom().contains(k) by {}
    assert forall|k: FileKey| rhs.dom().contains(k) implies lhs.dom().contains(k) by {}
    assert forall|k: FileKey| #[trigger] lhs.dom().contains(k) implies lhs[k] == rhs[k] by {
        if k.dir == dir2 && staged2.dom().contains(k.name) {
        } else if k.dir == dir1 && staged1.dom().contains(k.name) {
        }
    }
    assert(lhs =~= rhs);
    assert(files_at(after_commit(tree, dir1, staged1), dir2) =~= files_at(tree, dir2));
}

} // verus!
