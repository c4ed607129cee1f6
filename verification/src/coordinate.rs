//! The destination coordinate of an upload: the (version, repo, architecture)
//! triple that names a repository subdirectory.

use vstd::prelude::*;

use crate::names::{is_kept_char, is_kept_name, is_removed_char, is_safe_segment, joined_under,
    lemma_joined_under_splits, sanitize_name, sanitized_of, split_slash};
use crate::strutil::str_eq;

verus! {

/// The coordinate fields an upload may carry; any other field name in the
/// stream is ignored.
#[derive(Clone, Copy, PartialEq, Eq, Structural, Debug)]
pub enum CoordField {
    Version,
    Repo,
    Arch,
}

/// The mathematical value of a coordinate: its three fields as character
/// sequences.
pub ghost struct Coord {
    pub version: Seq<char>,
    pub repo: Seq<char>,
    pub arch: Seq<char>,
}

impl Coord {
    /// The coordinate after the field named `name` is assigned `v`: the
    /// matching field is overwritten (last write wins), any other name
    /// leaves the coordinate unchanged.
    pub open spec fn with_field(self, name: Seq<char>, v: Seq<char>) -> Coord {
        match field_of_name(name) {
            Some(CoordField::Version) => Coord { version: v, ..self },
            Some(CoordField::Repo) => Coord { repo: v, ..self },
            Some(CoordField::Arch) => Coord { arch: v, ..self },
            None => self,
        }
    }

    /// The destination directory for this coordinate under `root`:
    /// `root/version/repo/arch`, each segment sanitized.
    pub open spec fn dest_dir_spec(self, root: Seq<char>) -> Seq<char> {
        root + seq!['/'] + sanitized_of(self.version) + seq!['/'] + sanitized_of(self.repo)
            + seq!['/'] + sanitized_of(self.arch)
    }

    /// The coordinate used when an upload supplies no fields at all.
    pub open spec fn default_spec() -> Coord {
        Coord { version: "edge"@, repo: "main"@, arch: "x86_64"@ }
    }
}

/// A repository coordinate, holding the raw field values as uploaded.
/// The values are sanitized when a path is derived from them, not before.
#[derive(Debug)]
pub struct ApkInfo {
    pub version: String,
    pub repo: String,
    pub arch: String,
}

impl View for ApkInfo {
    type V = Coord;

    open spec fn view(&self) -> Coord {
        Coord { version: self.version@, repo: self.repo@, arch: self.arch@ }
    }
}

impl Clone for ApkInfo {
    fn clone(&self) -> (r: Self)
        ensures
            r@ == self@,
    {
        ApkInfo {
            version: self.version.clone(),
            repo: self.repo.clone(),
            arch: self.arch.clone(),
        }
    }
}

impl Default for ApkInfo {
    /// The coordinate used when an upload supplies no fields at all.
    fn default() -> (r: Self)
        ensures
            r@ == Coord::default_spec(),
    {
        ApkInfo {
            version: "edge".to_owned(),
            repo: "main".to_owned(),
            arch: "x86_64".to_owned(),
        }
    }
}

/// The coordinate field that a form-field name denotes, if any.
pub open spec fn field_of_name(name: Seq<char>) -> Option<CoordField> {
    if name == "version"@ {
        Some(CoordField::Version)
    } else if name == "repo"@ {
        Some(CoordField::Repo)
    } else if name == "arch"@ {
        Some(CoordField::Arch)
    } else {
        None
    }
}

/// Parses a form-field name into the coordinate field it denotes.
pub fn parse_field_name(name: &str) -> (r: Option<CoordField>)
    ensures
        r == field_of_name(name@),
{
    if str_eq(name, "version") {
        Some(CoordField::Version)
    } else if str_eq(name, "repo") {
        Some(CoordField::Repo)
    } else if str_eq(name, "arch") {
        Some(CoordField::Arch)
    } else {
        None
    }
}

impl ApkInfo {
    /// Sets the coordinate field named `f` to `v`; any other field name is
    /// ignored.
    pub fn set(&mut self, f: &str, v: String)
        ensures
            final(self)@ == old(self)@.with_field(f@, v@),
    {
        match parse_field_name(f) {
            Some(CoordField::Version) => {
                self.version = v;
            },
            Some(CoordField::Repo) => {
                self.repo = v;
            },
            Some(CoordField::Arch) => {
                self.arch = v;
            },
            None => {},
        }
    }

    /// Builds the destination directory path for this coordinate: `root`
    /// followed by the three sanitized coordinate segments, none of which
    /// can hold a separator or name a parent directory. A coordinate field
    /// that sanitization would not touch passes through unchanged; in
    /// particular the default coordinate routes to `root/edge/main/x86_64`.
    pub fn dest_dir(&self, root: &str) -> (r: String)
        ensures
            r@ == self@.dest_dir_spec(root@),
            is_safe_segment(sanitized_of(self@.version)),
            is_safe_segment(sanitized_of(self@.repo)),
            is_safe_segment(sanitized_of(self@.arch)),
            is_kept_name(self@.version) ==> sanitized_of(self@.version) == self@.version,
            is_kept_name(self@.repo) ==> sanitized_of(self@.repo) == self@.repo,
            is_kept_name(self@.arch) ==> sanitized_of(self@.arch) == self@.arch,
            self@ == Coord::default_spec() ==> r@ == root@ + "/edge/main/x86_64"@,
    {
        proof {
            reveal_strlit("/");
        }
        let mut r = root.to_owned();
        r.append("/");
        let v = sanitize_name(self.version.as_str());
        r.append(v.as_str());
        r.append("/");
        let rp = sanitize_name(self.repo.as_str());
        r.append(rp.as_str());
        r.append("/");
        let a = sanitize_name(self.arch.as_str());
        r.append(a.as_str());
        proof {
            assert("/"@ =~= seq!['/']);
            assert(r@ =~= self@.dest_dir_spec(root@));
            if self@ == Coord::default_spec() {
                reveal_strlit("edge");
                reveal_strlit("main");
                reveal_strlit("x86_64");
                reveal_strlit("/edge/main/x86_64");
                assert(is_kept_name("edge"@)) by {
                    assert("edge"@[0] == 'e');
                    assert(forall|i: int| 0 <= i < 4 ==> is_kept_char("edge"@[i]));
                }
                assert(is_kept_name("main"@)) by {
                    assert("main"@[0] == 'm');
                    assert(forall|i: int| 0 <= i < 4 ==> is_kept_char("main"@[i]));
                }
                assert(is_kept_name("x86_64"@)) by {
                    assert("x86_64"@[0] == 'x');
                    assert(forall|i: int| 0 <= i < 6 ==> is_kept_char("x86_64"@[i]));
                }
                assert(r@ =~= root@ + "/edge/main/x86_64"@);
            }
        }
        r
    }
}

/// The path of a file inside a directory: `dir/name`.
pub open spec fn joined_path_spec(dir: Seq<char>, name: Seq<char>) -> Seq<char> {
    dir + seq!['/'] + name
}

/// Joins a directory path and one file name with `/`.
pub fn joined_path(dir: &str, name: &str) -> (r: String)
    ensures
        r@ == joined_path_spec(dir@, name@),
{
    proof {
        reveal_strlit("/");
    }
    let mut r = dir.to_owned();
    r.append("/");
    r.append(name);
    proof {
        assert("/"@ =~= seq!['/']);
        assert(r@ =~= joined_path_spec(dir@, name@));
    }
    r
}


/// No write escapes the root: the full path of a committed file — the
/// coordinate's destination directory joined with the file's sanitized
/// name — parses into the root's own slash-separated segments followed by
/// exactly the three sanitized coordinate segments and the name. Since
/// none of those four appended segments holds a separator or names a
/// parent directory, resolving the path cannot leave `root`.
pub proof fn lemma_no_escape(root: Seq<char>, c: Coord, name: Seq<char>)
    requires
        is_safe_segment(sanitized_of(c.version)),
        is_safe_segment(sanitized_of(c.repo)),
        is_safe_segment(sanitized_of(c.arch)),
        is_safe_segment(name),
    ensures
        split_slash(joined_path_spec(c.dest_dir_spec(root), name)) == split_slash(root) + seq![
            sanitized_of(c.version),
            sanitized_of(c.repo),
            sanitized_of(c.arch),
            name,
        ],
{
    let sv = sanitized_of(c.version);
    let sr = sanitized_of(c.repo);
    let sa = sanitized_of(c.arch);
    let segs = seq![sv, sr, sa, name];
    let s3 = seq![sv, sr, sa];
    let s2 = seq![sv, sr];
    let s1 = seq![sv];
    let s0 = Seq::<Seq<char>>::empty();
    assert(segs.drop_last() =~~= s3);
    assert(s3.drop_last() =~~= s2);
    assert(s2.drop_last() =~~= s1);
    assert(s1.drop_last() =~~= s0);
    assert(joined_under(root, s0) == root);
    assert(s1.last() == sv);
    assert(s2.last() == sr);
    assert(s3.last() == sa);
    assert(segs.last() == name);
    assert(joined_under(root, s1) == root + seq!['/'] + sv);
    assert(joined_under(root, s2) == root + seq!['/'] + sv + seq!['/'] + sr);
    assert(joined_under(root, s3) == root + seq!['/'] + sv + seq!['/'] + sr + seq!['/'] + sa);
    assert(joined_path_spec(c.dest_dir_spec(root), name) =~= joined_under(root, segs));
    assert forall|i: int, k: int|
        0 <= i < segs.len() && 0 <= k < segs[i].len() implies #[trigger] segs[i][k] != '/' by {
        assert(!is_removed_char(segs[i][k]));
    }
    lemma_joined_under_splits(root, segs);
}

} // verus!
