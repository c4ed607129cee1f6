//! The directory-listing renderer: a stable, sorted HTML view of one
//! directory of the repository tree.
//!
//! Directories sort before files, then lexicographically by display name.
//! Display names are HTML-escaped; link targets carry controls and
//! reserved URL characters percent-escaped, so names stay byte-faithful;
//! file entries carry a fixed-width UTC timestamp and a binary-prefixed
//! size.

use vstd::prelude::*;

use chrono::Datelike;
use chrono::Timelike;

use crate::strutil::{after_last_slash, four_digits, lemma_after_no_slash, lemma_after_with_slash,
    lemma_lex_total, lemma_lex_trans, lex_le, push_four_digits, push_two_digits, str_le,
    trim_trailing_slashes, two_digits};

verus! {

/// The greatest timestamp the listing renders: the last second of year 9999,
/// so the year always fits four digits.
pub const MAX_RENDERED_UNIX: u64 = 253402300799;

/// A calendar timestamp in UTC, as the listing renders it.
#[derive(Clone, Copy, PartialEq, Eq, Structural, Debug)]
pub struct CivilTime {
    pub year: u32,
    pub month: u32,
    pub day: u32,
    pub hour: u32,
    pub minute: u32,
    pub second: u32,
}

impl CivilTime {
    /// The field ranges every rendered timestamp satisfies.
    pub open spec fn wf(self) -> bool {
        &&& 1970 <= self.year <= 9999
        &&& 1 <= self.month <= 12
        &&& 1 <= self.day <= 31
        &&& self.hour <= 23
        &&& self.minute <= 59
        &&& self.second <= 59
    }
}

/// The UTC calendar fields (year, month, day, hour, minute, second) of a
/// unix timestamp.
pub uninterp spec fn civil_of_unix(secs: i64) -> (int, int, int, int, int, int);

/// Relies on `chrono::DateTime::from_timestamp` and the `Datelike` /
/// `Timelike` accessors: a timestamp between the epoch and the end of year
/// 9999 is inside chrono's documented range, the accessors yield the UTC
/// calendar fields of the instant — a function of the timestamp alone —
/// with months and days counted from 1 and the clock fields in their usual
/// ranges.
#[verifier::external_body]
fn civil_from_unix(secs: i64) -> (r: CivilTime)
    requires
        0 <= secs <= MAX_RENDERED_UNIX as i64,
    ensures
        civil_of_unix(secs) == (
            r.year as int,
            r.month as int,
            r.day as int,
            r.hour as int,
            r.minute as int,
            r.second as int,
        ),
        r.wf(),
{
    let dt = chrono::DateTime::from_timestamp(secs, 0).unwrap();
    CivilTime {
        year: dt.year() as u32,
        month: dt.month(),
        day: dt.day(),
        hour: dt.hour(),
        minute: dt.minute(),
        second: dt.second(),
    }
}

impl CivilTime {
    /// The calendar fields of a unix timestamp, or `None` for one past the
    /// year 9999, which the listing does not render.
    pub fn from_unix(secs: u64) -> (r: Option<CivilTime>)
        ensures
            match r {
                Some(t) => secs <= MAX_RENDERED_UNIX && t.wf() && civil_of_unix(secs as i64) == (
                    t.year as int,
                    t.month as int,
                    t.day as int,
                    t.hour as int,
                    t.minute as int,
                    t.second as int,
                ),
                None => secs > MAX_RENDERED_UNIX,
            },
    {
        if secs > MAX_RENDERED_UNIX {
            None
        } else {
            Some(civil_from_unix(secs as i64))
        }
    }
}

/// The fixed-width rendering of a timestamp: `YYYY/MM/DD HH:MM:SS`.
pub open spec fn timestamp_seq(t: CivilTime) -> Seq<char> {
    four_digits(t.year as int) + seq!['/'] + two_digits(t.month as int) + seq!['/'] + two_digits(
        t.day as int,
    ) + seq![' '] + two_digits(t.hour as int) + seq![':'] + two_digits(t.minute as int) + seq![':']
        + two_digits(t.second as int)
}

/// Renders a timestamp as `YYYY/MM/DD HH:MM:SS`, fixed width, locale
/// independent.
pub fn format_timestamp(t: &CivilTime) -> (r: String)
    requires
        t.wf(),
    ensures
        r@ == timestamp_seq(*t),
{
    proof {
        reveal_strlit("/");
        reveal_strlit(" ");
        reveal_strlit(":");
    }
    let mut r = String::new();
    push_four_digits(&mut r, t.year);
    r.append("/");
    push_two_digits(&mut r, t.month);
    r.append("/");
    push_two_digits(&mut r, t.day);
    r.append(" ");
    push_two_digits(&mut r, t.hour);
    r.append(":");
    push_two_digits(&mut r, t.minute);
    r.append(":");
    push_two_digits(&mut r, t.second);
    proof {
        assert("/"@ =~= seq!['/']);
        assert(" "@ =~= seq![' ']);
        assert(":"@ =~= seq![':']);
        assert(r@ =~= timestamp_seq(*t));
    }
    r
}

/// What one character becomes in HTML text: the six sensitive characters
/// turn into entities, everything else stands as itself.
pub open spec fn html_escape_char(c: char) -> Seq<char> {
    if c == '"' {
        "&quot;"@
    } else if c == '&' {
        "&amp;"@
    } else if c == '\'' {
        "&#x27;"@
    } else if c == '/' {
        "&#x2f;"@
    } else if c == '<' {
        "&lt;"@
    } else if c == '>' {
        "&gt;"@
    } else {
        seq![c]
    }
}

/// The HTML-escaped form of a text.
pub open spec fn html_escaped(s: Seq<char>) -> Seq<char>
    decreases s.len(),
{
    if s.len() == 0 {
        Seq::empty()
    } else {
        html_escape_char(s[0]) + html_escaped(s.drop_first())
    }
}

/// Relies on `v_htmlescape::escape_string`: it appends the input with
/// exactly the characters `" & ' / < >` rewritten to their HTML entities
/// and every other character forwarded verbatim.
#[verifier::external_body]
pub(crate) fn escape_html(s: &str) -> (r: String)
    ensures
        r@ == html_escaped(s@),
{
    let mut out = String::new();
    v_htmlescape::escape_string(s, &mut out);
    out
}

/// The uppercase hex digit for `d`.
pub open spec fn hex_digit_char(d: int) -> char {
    if d < 10 {
        crate::strutil::digit_char(d)
    } else if d == 10 {
        'A'
    } else if d == 11 {
        'B'
    } else if d == 12 {
        'C'
    } else if d == 13 {
        'D'
    } else if d == 14 {
        'E'
    } else {
        'F'
    }
}

/// The `%XX` escape of one byte, uppercase hex.
pub open spec fn percent_escape_byte(b: int) -> Seq<char> {
    seq!['%', hex_digit_char(b / 16), hex_digit_char(b % 16)]
}

/// An ASCII control character: a C0 control or DEL.
pub open spec fn is_control_char(c: char) -> bool {
    (c as u32) < 0x20 || (c as u32) == 0x7f
}

/// A character that a link target must carry percent-escaped: the controls,
/// and the reserved URL characters whose raw appearance would change what a
/// browser requests — `?`, `#`, space, `"`, `<`, `>` and `%` itself. The
/// separator `/` is deliberately not among them: it keeps joining path
/// segments.
pub open spec fn is_link_escaped_char(c: char) -> bool {
    ||| is_control_char(c)
    ||| c == '?'
    ||| c == '#'
    ||| c == ' '
    ||| c == '"'
    ||| c == '<'
    ||| c == '>'
    ||| c == '%'
}

/// The encoding of a link target: every control or reserved URL character
/// becomes `%XX` in uppercase hex, every other character stands as itself,
/// so a name survives the round trip through the browser byte-faithfully.
pub open spec fn link_encoded(s: Seq<char>) -> Seq<char>
    decreases s.len(),
{
    if s.len() == 0 {
        Seq::empty()
    } else {
        let head = if is_link_escaped_char(s[0]) {
            percent_escape_byte(s[0] as int)
        } else {
            seq![s[0]]
        };
        head + link_encoded(s.drop_first())
    }
}

/// Relies on `percent_encoding::percent_encode_byte`: the `%XX` escape of
/// one byte, with uppercase hex digits.
#[verifier::external_body]
fn percent_byte(b: u8) -> (r: &'static str)
    ensures
        r@ == percent_escape_byte(b as int),
{
    percent_encoding::percent_encode_byte(b)
}

/// Whether a link target must carry this character percent-escaped.
fn is_link_escaped(c: char) -> (r: bool)
    ensures
        r == is_link_escaped_char(c),
{
    (c as u32) < 0x20 || (c as u32) == 0x7f || c == '?' || c == '#' || c == ' ' || c == '"' || c
        == '<' || c == '>' || c == '%'
}

/// Percent-encodes a path for use as a link target: controls and reserved
/// URL characters become `%XX`, everything else — the `/` separators
/// included — passes through unchanged.
pub fn encode_link(s: &str) -> (r: String)
    ensures
        r@ == link_encoded(s@),
{
    let n = s.unicode_len();
    let mut r = String::new();
    let mut i: usize = 0;
    proof {
        assert(s@.skip(0) =~= s@);
        assert(r@ + link_encoded(s@) =~= link_encoded(s@));
    }
    while i < n
        invariant
            i <= n,
            n == s@.len(),
            r@ + link_encoded(s@.skip(i as int)) == link_encoded(s@),
        decreases n - i,
    {
        let ghost rest = s@.skip(i as int);
        proof {
            assert(rest.len() > 0);
            assert(rest[0] == s@[i as int]);
            assert(rest.drop_first() =~= s@.skip(i as int + 1));
        }
        let c = s.get_char(i);
        if is_link_escaped(c) {
            let code = c as u32;
            proof {
                assert(code < 0x80);
            }
            let b = code as u8;
            let piece = percent_byte(b);
            r.append(piece);
            proof {
                assert(b as int == c as int);
                assert(r@ + link_encoded(s@.skip(i as int + 1)) =~= link_encoded(s@));
            }
        } else {
            let piece = s.substring_char(i, i + 1);
            proof {
                assert(piece@ =~= seq![s@[i as int]]);
            }
            r.append(piece);
            proof {
                assert(r@ + link_encoded(s@.skip(i as int + 1)) =~= link_encoded(s@));
            }
        }
        i += 1;
    }
    proof {
        assert(s@.skip(n as int).len() == 0);
        assert(r@ + link_encoded(s@.skip(n as int)) =~= r@);
    }
    r
}

/// The binary-prefixed rendering of a byte count, as `size_format` writes
/// it (the unit letter `B` is appended by the renderer, not included here).
pub uninterp spec fn size_binary_of(n: u64) -> Seq<char>;

/// Relies on `size_format::SizeFormatterBinary`: the rendering — a number
/// with one decimal and a binary prefix once the count reaches 1024 — is a
/// function of the count alone.
#[verifier::external_body]
pub(crate) fn format_size_binary(n: u64) -> (r: String)
    ensures
        r@ == size_binary_of(n),
{
    format!("{}", size_format::SizeFormatterBinary::new(n))
}


/// One entry of a rendered listing, with its display name already escaped
/// and its link target already encoded.
pub struct ListEntry {
    pub name: String,
    pub url: String,
    pub time: CivilTime,
    pub len: u64,
    pub is_dir: bool,
}

impl ListEntry {
    /// A renderable entry: its timestamp fields are in range.
    pub open spec fn wf(self) -> bool {
        self.time.wf()
    }

    /// Builds one entry from what the filesystem reports: the raw file
    /// name, the entry's path relative to the served root (its link
    /// target), the modification time in unix seconds, the byte size, and
    /// whether it is a directory. `None` for a timestamp past year 9999;
    /// such an entry is omitted from the listing.
    pub fn new(raw_name: &str, link_path: &str, mtime_secs: u64, len: u64, is_dir: bool) -> (r:
        Option<ListEntry>)
        ensures
            match r {
                Some(e) => {
                    &&& e.name@ == html_escaped(raw_name@)
                    &&& e.url@ == link_encoded(link_path@)
                    &&& e.len == len
                    &&& e.is_dir == is_dir
                    &&& e.wf()
                    &&& mtime_secs <= MAX_RENDERED_UNIX
                    &&& civil_of_unix(mtime_secs as i64) == (
                        e.time.year as int,
                        e.time.month as int,
                        e.time.day as int,
                        e.time.hour as int,
                        e.time.minute as int,
                        e.time.second as int,
                    )
                },
                None => mtime_secs > MAX_RENDERED_UNIX,
            },
    {
        match CivilTime::from_unix(mtime_secs) {
            Some(time) => Some(
                ListEntry {
                    name: escape_html(raw_name),
                    url: encode_link(link_path),
                    time,
                    len,
                    is_dir,
                },
            ),
            None => None,
        }
    }
}

/// The listing order: directories before files, then lexicographic by
/// display name.
pub open spec fn entry_le(a: ListEntry, b: ListEntry) -> bool {
    if a.is_dir != b.is_dir {
        a.is_dir
    } else {
        lex_le(a.name@, b.name@)
    }
}

/// Compares two entries in listing order.
pub fn entry_le_exec(a: &ListEntry, b: &ListEntry) -> (r: bool)
    ensures
        r == entry_le(*a, *b),
{
    if a.is_dir != b.is_dir {
        a.is_dir
    } else {
        str_le(a.name.as_str(), b.name.as_str())
    }
}

/// The listing order is total.
pub proof fn lemma_entry_le_total(a: ListEntry, b: ListEntry)
    ensures
        entry_le(a, b) || entry_le(b, a),
{
    lemma_lex_total(a.name@, b.name@);
}

/// The listing order is transitive.
pub proof fn lemma_entry_le_trans(a: ListEntry, b: ListEntry, c: ListEntry)
    requires
        entry_le(a, b),
        entry_le(b, c),
    ensures
        entry_le(a, c),
{
    if a.is_dir == b.is_dir && b.is_dir == c.is_dir {
        lemma_lex_trans(a.name@, b.name@, c.name@);
    }
}

/// A sequence of entries in listing order.
pub open spec fn sorted_entries(s: Seq<ListEntry>) -> bool {
    forall|i: int, j: int| 0 <= i < j < s.len() ==> entry_le(s[i], s[j])
}

/// Inserting an element anywhere adds exactly it to the multiset.
proof fn lemma_insert_to_multiset(s: Seq<ListEntry>, j: int, e: ListEntry)
    requires
        0 <= j <= s.len(),
    ensures
        s.insert(j, e).to_multiset() == s.to_multiset().insert(e),
{
    broadcast use vstd::seq_lib::group_to_multiset_ensures;
    broadcast use vstd::multiset::group_multiset_axioms;

    let pre = s.subrange(0, j);
    let post = s.subrange(j, s.len() as int);
    assert(s.insert(j, e) == pre.push(e) + post);
    vstd::seq_lib::lemma_multiset_commutative(pre.push(e), post);
    vstd::seq_lib::lemma_multiset_commutative(pre, post);
    assert(s =~= pre + post);
    assert(pre.push(e).to_multiset() =~= pre.to_multiset().insert(e));
    assert(s.insert(j, e).to_multiset() =~= s.to_multiset().insert(e));
}

/// Sorts the entries: directories first, then lexicographic by display
/// name. The result is a permutation of the input.
pub fn sort_entries(v: &mut Vec<ListEntry>)
    ensures
        sorted_entries(final(v)@),
        final(v)@.to_multiset() == old(v)@.to_multiset(),
{
    broadcast use vstd::seq_lib::group_to_multiset_ensures;
    broadcast use vstd::multiset::group_multiset_axioms;

    let n = v.len();
    if n <= 1 {
        return;
    }
    let mut i: usize = 1;
    while i < n
        invariant
            1 <= i <= n,
            n == v@.len(),
            sorted_entries(v@.take(i as int)),
            v@.to_multiset() == old(v)@.to_multiset(),
        decreases n - i,
    {
        let ghost s0 = v@;
        let e = v.remove(i);
        let ghost s1 = v@;
        proof {
            assert(forall|k: int| 0 <= k < i ==> s1[k] == s0[k]);
        }
        let mut j: usize = i;
        while j > 0 && !entry_le_exec(&v[j - 1], &e)
            invariant
                j <= i,
                i < n,
                n == v@.len() + 1,
                v@ == s1,
                forall|k: int| j <= k < i ==> entry_le(e, #[trigger] s1[k]),
            decreases j,
        {
            proof {
                lemma_entry_le_total(s1[j as int - 1], e);
            }
            j -= 1;
        }
        let ghost at_j = j as int;
        v.insert(j, e);
        proof {
            lemma_insert_to_multiset(s1, at_j, e);
            let ghost x = s0[i as int];
            s0.to_multiset_ensures();
            assert(s1 == s0.remove(i as int));
            assert(s0.remove(i as int).to_multiset() =~= s0.to_multiset().remove(x));
            assert(v@.to_multiset() == s0.to_multiset().remove(x).insert(x));
            assert(s0.contains(x));
            assert(s0.to_multiset().count(x) > 0);
            assert(s0.to_multiset().remove(x).insert(x) =~= s0.to_multiset());

            s1.insert_ensures(at_j, e);
            let t = v@.take(i as int + 1);
            assert forall|p: int, q: int| 0 <= p < q < i + 1 implies entry_le(t[p], t[q]) by {
                assert(forall|k: int| 0 <= k < at_j ==> t[k] == s1[k]);
                assert(t[at_j] == e);
                assert(forall|k: int| at_j < k <= i ==> t[k] == s1[k - 1]);
                if at_j > 0 {
                    assert(entry_le(s1[at_j - 1], e));
                }
                if q == at_j {
                    if p < at_j - 1 {
                        lemma_entry_le_trans(s1[p], s1[at_j - 1], e);
                    }
                } else if p == at_j {
                    assert(entry_le(e, s1[q - 1]));
                }
            }
            assert(sorted_entries(v@.take(i as int + 1)));
        }
        i += 1;
    }
    proof {
        assert(v@.take(n as int) =~= v@);
    }
}


/// The parent directory that the listing's synthetic `../` entry links to:
/// the path up to the last slash-separated component, `/` when only the
/// root remains, empty when the path has no parent.
pub open spec fn parent_path_spec(s: Seq<char>) -> Seq<char> {
    let t = trim_trailing_slashes(s);
    let tail = after_last_slash(t);
    if tail.len() == t.len() {
        Seq::empty()
    } else {
        let head = trim_trailing_slashes(t.take(t.len() - tail.len() - 1));
        if head.len() == 0 {
            seq!['/']
        } else {
            head
        }
    }
}

/// Computes the parent of a request path for the listing's `../` link.
pub fn parent_path(s: &str) -> (r: String)
    ensures
        r@ == parent_path_spec(s@),
{
    let n = s.unicode_len();
    let mut end = n;
    proof {
        assert(s@.take(n as int) =~= s@);
    }
    while end > 0 && s.get_char(end - 1) == '/'
        invariant
            end <= n,
            n == s@.len(),
            trim_trailing_slashes(s@) == trim_trailing_slashes(s@.take(end as int)),
        decreases end,
    {
        proof {
            assert(s@.take(end as int).last() == '/');
            assert(s@.take(end as int).drop_last() =~= s@.take(end as int - 1));
        }
        end -= 1;
    }
    let ghost t = s@.take(end as int);
    proof {
        assert(trim_trailing_slashes(t) == t);
    }
    let mut start = end;
    while start > 0 && s.get_char(start - 1) != '/'
        invariant
            start <= end,
            end <= n,
            n == s@.len(),
            forall|k: int| start <= k < end ==> s@[k] != '/',
        decreases start,
    {
        start -= 1;
    }
    proof {
        assert(forall|k: int| start <= k < t.len() ==> t[k] != '/');
    }
    if start == 0 {
        proof {
            lemma_after_no_slash(t);
        }
        return String::new();
    }
    proof {
        assert(t[start as int - 1] == '/');
        lemma_after_with_slash(t, start as int - 1);
        assert(after_last_slash(t).len() == end - start);
        assert(t.take(t.len() - after_last_slash(t).len() - 1) =~= s@.take(start as int - 1));
    }
    let mut hend = start - 1;
    while hend > 0 && s.get_char(hend - 1) == '/'
        invariant
            hend <= start - 1,
            start <= end <= n,
            n == s@.len(),
            trim_trailing_slashes(s@.take(start as int - 1)) == trim_trailing_slashes(
                s@.take(hend as int),
            ),
        decreases hend,
    {
        proof {
            assert(s@.take(hend as int).last() == '/');
            assert(s@.take(hend as int).drop_last() =~= s@.take(hend as int - 1));
        }
        hend -= 1;
    }
    let ghost head = s@.take(hend as int);
    proof {
        assert(trim_trailing_slashes(head) == head);
    }
    if hend == 0 {
        proof {
            reveal_strlit("/");
            assert("/"@ =~= seq!['/']);
        }
        "/".to_owned()
    } else {
        let h = s.substring_char(0, hend);
        proof {
            assert(h@ =~= head);
        }
        h.to_owned()
    }
}

/// The list item for a directory entry.
pub open spec fn dir_li(e: ListEntry) -> Seq<char> {
    "<li><span><a href=\""@ + e.url@ + "\">"@ + e.name@ + "/</a></span></li>"@
}

/// The list item for a file entry: link, timestamp, and size.
pub open spec fn file_li(e: ListEntry) -> Seq<char> {
    "<li><span><a href=\""@ + e.url@ + "\">"@ + e.name@ + "</a></span><span>"@ + timestamp_seq(
        e.time,
    ) + "</span><span>"@ + size_binary_of(e.len) + "B</span></li>"@
}

/// The list item for one entry.
pub open spec fn entry_li(e: ListEntry) -> Seq<char> {
    if e.is_dir {
        dir_li(e)
    } else {
        file_li(e)
    }
}

/// The concatenated list items of a sequence of entries, in order.
pub open spec fn entries_html(s: Seq<ListEntry>) -> Seq<char>
    decreases s.len(),
{
    if s.len() == 0 {
        Seq::empty()
    } else {
        entries_html(s.drop_last()) + entry_li(s.last())
    }
}

/// The synthetic parent-directory item, emitted when the listed directory
/// is not the repository root.
pub open spec fn parent_li(url: Seq<char>) -> Seq<char> {
    "<li><a href=\""@ + url + "\">../</a></li>"@
}

/// The items of the listing: the parent link, when one is shown, followed
/// by the entries.
pub open spec fn listing_body(parent: Option<Seq<char>>, entries: Seq<ListEntry>) -> Seq<char> {
    match parent {
        Some(url) => parent_li(url) + entries_html(entries),
        None => entries_html(entries),
    }
}

/// The complete page around a listing body.
pub open spec fn page_html(title: Seq<char>, body: Seq<char>) -> Seq<char> {
    "<html><head>\n         <style>\n         ul { list-style: none; }\n         li { display: flex; }\n         li:hover { background-color: lightgray; }\n         li>span { width: 33.333333%; }\n         </style>\n         <title>"@
        + title + "</title></head><body><h1>"@ + title + "</h1><hr>\n         <ul>"@ + body
        + "</ul><hr></body>\n</html>"@
}

/// Appends the list item for one entry.
fn push_entry(out: &mut String, e: &ListEntry)
    requires
        e.wf(),
    ensures
        final(out)@ == old(out)@ + entry_li(*e),
{
    out.append("<li><span><a href=\"");
    out.append(e.url.as_str());
    out.append("\">");
    out.append(e.name.as_str());
    if e.is_dir {
        out.append("/</a></span></li>");
        proof {
            assert(final(out)@ =~= old(out)@ + entry_li(*e));
        }
    } else {
        out.append("</a></span><span>");
        let ts = format_timestamp(&e.time);
        out.append(ts.as_str());
        out.append("</span><span>");
        let sz = format_size_binary(e.len);
        out.append(sz.as_str());
        out.append("B</span></li>");
        proof {
            assert(final(out)@ =~= old(out)@ + entry_li(*e));
        }
    }
}

/// Renders a directory of the repository tree as a stable HTML page: a
/// parent link unless the directory is the root itself, then every entry,
/// directories first, each in listing order; entries carry their escaped
/// names, encoded links, and (for files) timestamp and size.
pub fn directory_listing(entries: Vec<ListEntry>, req_path: &str, at_root: bool) -> (r: String)
    requires
        forall|i: int| 0 <= i < entries@.len() ==> (#[trigger] entries@[i]).wf(),
    ensures
        exists|sorted: Seq<ListEntry>|
            {
                &&& sorted.to_multiset() == entries@.to_multiset()
                &&& sorted_entries(sorted)
                &&& r@ == page_html(
                    "Index of "@ + req_path@,
                    listing_body(
                        if at_root {
                            None
                        } else {
                            Some(link_encoded(parent_path_spec(req_path@)))
                        },
                        sorted,
                    ),
                )
            },
{
    let mut entries = entries;
    let ghost orig = entries@;
    sort_entries(&mut entries);
    proof {
        entries@.to_multiset_ensures();
        orig.to_multiset_ensures();
        assert forall|i: int| 0 <= i < entries@.len() implies (#[trigger] entries@[i]).wf() by {
            assert(entries@.contains(entries@[i]));
            assert(orig.to_multiset().count(entries@[i]) > 0);
            assert(orig.contains(entries@[i]));
            let j = choose|j: int| 0 <= j < orig.len() && orig[j] == entries@[i];
            assert(orig[j].wf());
        }
    }
    let mut body = String::new();
    if !at_root {
        let parent = parent_path(req_path);
        let url = encode_link(parent.as_str());
        body.append("<li><a href=\"");
        body.append(url.as_str());
        body.append("\">../</a></li>");
        proof {
            assert(body@ =~= parent_li(link_encoded(parent_path_spec(req_path@))));
        }
    }
    let ghost body0 = body@;
    let n = entries.len();
    let mut i: usize = 0;
    proof {
        assert(entries@.take(0).len() == 0);
        assert(body@ =~= body0 + entries_html(entries@.take(0)));
    }
    while i < n
        invariant
            i <= n,
            n == entries@.len(),
            forall|k: int| 0 <= k < entries@.len() ==> (#[trigger] entries@[k]).wf(),
            body@ == body0 + entries_html(entries@.take(i as int)),
        decreases n - i,
    {
        push_entry(&mut body, &entries[i]);
        proof {
            assert(entries@.take(i as int + 1).drop_last() =~= entries@.take(i as int));
            assert(entries@.take(i as int + 1).last() == entries@[i as int]);
            assert(body@ =~= body0 + entries_html(entries@.take(i as int + 1)));
        }
        i += 1;
    }
    proof {
        assert(entries@.take(n as int) =~= entries@);
    }
    let mut title = "Index of ".to_owned();
    title.append(req_path);
    let mut r =
        "<html><head>\n         <style>\n         ul { list-style: none; }\n         li { display: flex; }\n         li:hover { background-color: lightgray; }\n         li>span { width: 33.333333%; }\n         </style>\n         <title>".to_owned();
    r.append(title.as_str());
    r.append("</title></head><body><h1>");
    r.append(title.as_str());
    r.append("</h1><hr>\n         <ul>");
    r.append(body.as_str());
    r.append("</ul><hr></body>\n</html>");
    proof {
        let ghost sorted = entries@;
        assert(r@ =~= page_html(
            "Index of "@ + req_path@,
            listing_body(
                if at_root {
                    None
                } else {
                    Some(link_encoded(parent_path_spec(req_path@)))
                },
                sorted,
            ),
        ));
    }
    r
}

} // verus!
