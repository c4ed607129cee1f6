//! Sanitization of untrusted names before any filesystem use.
//!
//! Every path segment derived from an upload — the coordinate fields and the
//! uploaded filenames — passes through [`sanitize_name`] first, so that path
//! separators, parent-directory segments and control characters never reach
//! a path that is joined under the repository root.

use vstd::prelude::*;

verus! {

/// Characters that sanitization removes: path separators, reserved
/// punctuation, and control characters.
pub open spec fn is_removed_char(c: char) -> bool {
    ||| c == '/'
    ||| c == '\\'
    ||| c == '?'
    ||| c == '<'
    ||| c == '>'
    ||| c == ':'
    ||| c == '*'
    ||| c == '|'
    ||| c == '"'
    ||| (c as u32) < 0x20
    ||| (0x80 <= (c as u32) && (c as u32) <= 0x9f)
}

/// An ASCII character that sanitization passes through unchanged: anything
/// below 0x80 that is not removed.
pub open spec fn is_kept_char(c: char) -> bool {
    &&& (c as u32) < 0x80
    &&& !is_removed_char(c)
}

/// A name that sanitization leaves untouched: at most 255 ASCII characters
/// (so at most 255 bytes), none of them removed, and not made of dots
/// alone.
pub open spec fn is_kept_name(s: Seq<char>) -> bool {
    &&& s.len() <= 255
    &&& (forall|i: int| 0 <= i < s.len() ==> is_kept_char(s[i]))
    &&& (exists|i: int| 0 <= i < s.len() && s[i] != '.')
}

/// The sanitized form of a name: what `sanitize_filename` returns for it.
pub uninterp spec fn sanitized_of(s: Seq<char>) -> Seq<char>;

/// A sequence that is safe to use as one path segment under a fixed base
/// directory: it holds no path separator and cannot name a parent directory.
pub open spec fn is_safe_segment(s: Seq<char>) -> bool {
    &&& (forall|i: int| 0 <= i < s.len() ==> !is_removed_char(s[i]))
    &&& s != ".."@
    &&& s != "."@
}

/// Relies on `sanitize_filename::sanitize_with_options` (replacement empty,
/// truncation on, Windows quirks off): it removes every occurrence of
/// `/ \\ ? < > : * | "` and of the control ranges `0x00-0x1f` and
/// `0x80-0x9f`, empties a name that is dots alone, and truncates the rest to
/// at most 255 bytes, so a short result is never `.` or `..`, and a name
/// that none of this touches — no removed character, not dots alone, within
/// the length bound — comes back unchanged.
#[verifier::external_body]
pub(crate) fn sanitize_name(name: &str) -> (r: String)
    ensures
        r@ == sanitized_of(name@),
        forall|i: int| 0 <= i < r@.len() ==> !is_removed_char(r@[i]),
        r@ != ".."@,
        r@ != "."@,
        r@.len() <= 255,
        name@.len() == 0 ==> r@.len() == 0,
        is_kept_name(name@) ==> r@ == name@,
{
    sanitize_filename::sanitize_with_options(
        name,
        sanitize_filename::Options { windows: false, truncate: true, replacement: "" },
    )
}


/// The slash-separated segments of a path text: splitting on every `/`,
/// with empty segments kept, so that joining the result with `/` gives the
/// text back. A text without `/` is one segment; the empty text is one
/// empty segment.
pub open spec fn split_slash(s: Seq<char>) -> Seq<Seq<char>>
    decreases s.len(),
{
    if s.len() == 0 {
        seq![Seq::<char>::empty()]
    } else {
        let rest = split_slash(s.drop_first());
        if s[0] == '/' {
            seq![Seq::<char>::empty()] + rest
        } else {
            seq![seq![s[0]] + rest[0]] + rest.drop_first()
        }
    }
}

/// Splitting yields at least one segment.
pub proof fn lemma_split_nonempty(s: Seq<char>)
    ensures
        split_slash(s).len() >= 1,
    decreases s.len(),
{
    if s.len() > 0 {
        lemma_split_nonempty(s.drop_first());
    }
}

/// A text without separators is its own single segment.
pub proof fn lemma_split_no_slash(s: Seq<char>)
    requires
        forall|k: int| 0 <= k < s.len() ==> s[k] != '/',
    ensures
        split_slash(s) == seq![s],
    decreases s.len(),
{
    if s.len() == 0 {
        assert(split_slash(s) =~~= seq![s]);
    } else {
        lemma_split_no_slash(s.drop_first());
        assert(seq![s[0]] + s.drop_first() =~= s);
        assert(split_slash(s) =~~= seq![s]);
    }
}

/// Appending `/` and a separator-free segment appends exactly that segment
/// to the split.
pub proof fn lemma_split_append(a: Seq<char>, b: Seq<char>)
    requires
        forall|k: int| 0 <= k < b.len() ==> b[k] != '/',
    ensures
        split_slash(a + seq!['/'] + b) == split_slash(a) + seq![b],
    decreases a.len(),
{
    let s = a + seq!['/'] + b;
    if a.len() == 0 {
        lemma_split_no_slash(b);
        assert(s[0] == '/');
        assert(s.drop_first() =~= b);
        assert(split_slash(s) =~~= split_slash(a) + seq![b]);
    } else {
        assert(s[0] == a[0]);
        assert(s.drop_first() =~= a.drop_first() + seq!['/'] + b);
        lemma_split_append(a.drop_first(), b);
        lemma_split_nonempty(a.drop_first());
        let q = split_slash(a.drop_first());
        assert(split_slash(s.drop_first()) == q + seq![b]);
        if a[0] == '/' {
            assert(split_slash(s) =~~= split_slash(a) + seq![b]);
        } else {
            assert((q + seq![b])[0] == q[0]);
            assert((q + seq![b]).drop_first() =~= q.drop_first() + seq![b]);
            assert(split_slash(s) =~~= split_slash(a) + seq![b]);
        }
    }
}

/// A path built by joining segments under a base with `/`.
pub open spec fn joined_under(base: Seq<char>, segs: Seq<Seq<char>>) -> Seq<char>
    decreases segs.len(),
{
    if segs.len() == 0 {
        base
    } else {
        joined_under(base, segs.drop_last()) + seq!['/'] + segs.last()
    }
}

/// Joining separator-free segments under a base appends exactly those
/// segments to the base's own split.
pub proof fn lemma_joined_under_splits(base: Seq<char>, segs: Seq<Seq<char>>)
    requires
        forall|i: int, k: int|
            0 <= i < segs.len() && 0 <= k < segs[i].len() ==> #[trigger] segs[i][k] != '/',
    ensures
        split_slash(joined_under(base, segs)) == split_slash(base) + segs,
    decreases segs.len(),
{
    if segs.len() == 0 {
        assert(split_slash(base) + segs =~~= split_slash(base));
    } else {
        lemma_joined_under_splits(base, segs.drop_last());
        assert(forall|k: int| 0 <= k < segs.last().len() ==> #[trigger] segs.last()[k] != '/');
        lemma_split_append(joined_under(base, segs.drop_last()), segs.last());
        assert(split_slash(base) + segs.drop_last() + seq![segs.last()] =~~= split_slash(base)
            + segs);
    }
}

} // verus!
