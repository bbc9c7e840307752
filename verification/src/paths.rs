//! File names, extensions and stems of paths given as text.
//!
//! The final component of a path comes from `std::path::Path::file_name`;
//! splitting that name at its last dot follows the rules that the
//! documentation of `Path::extension` and `Path::file_stem` gives.

use vstd::prelude::*;
use crate::text::{chars_of, contains_char};

verus! {

broadcast use vstd::string::group_string_axioms;

/// `p` names a single ordinary component on every platform: it is nonempty,
/// is neither `.` nor `..`, and holds no `/`, `\` or `:`.
pub open spec fn is_plain_name(p: Seq<char>) -> bool {
    &&& p.len() > 0
    &&& !(p.len() == 1 && p[0] == '.')
    &&& !is_dot_dot(p)
    &&& forall|i: int| 0 <= i < p.len() ==> #[trigger] p[i] != '/' && p[i] != '\\' && p[i] != ':'
}

/// `n` is the name `..`.
pub open spec fn is_dot_dot(n: Seq<char>) -> bool {
    n.len() == 2 && n[0] == '.' && n[1] == '.'
}

/// Position of the last `.` in `n`, or -1 when there is none.
pub open spec fn last_dot(n: Seq<char>) -> int
    decreases n.len(),
{
    if n.len() == 0 {
        -1
    } else if n.last() == '.' {
        n.len() - 1
    } else {
        last_dot(n.drop_last())
    }
}

/// The extension of a file name: the text after its last dot, unless the name
/// is `..`, has no dot, or its only dot is its first character.
pub open spec fn name_extension(n: Seq<char>) -> Option<Seq<char>> {
    let k = last_dot(n);
    if is_dot_dot(n) || k <= 0 {
        None
    } else {
        Some(n.subrange(k + 1, n.len() as int))
    }
}

/// The stem of a file name: the text before its last dot, or the whole name
/// when the name is `..`, has no dot, or its only dot is its first character.
pub open spec fn name_stem(n: Seq<char>) -> Seq<char> {
    let k = last_dot(n);
    if is_dot_dot(n) || k <= 0 {
        n
    } else {
        n.subrange(0, k)
    }
}

/// `last_dot` is the position of the last dot.
pub proof fn lemma_last_dot(n: Seq<char>, k: int)
    requires
        -1 <= k < n.len(),
        k >= 0 ==> n[k] == '.',
        forall|j: int| k < j < n.len() ==> n[j] != '.',
    ensures
        last_dot(n) == k,
    decreases n.len(),
{
    if n.len() > 0 && n.last() != '.' {
        let m = n.drop_last();
        assert forall|j: int| k < j < m.len() implies m[j] != '.' by {
            assert(m[j] == n[j]);
        }
        if k >= 0 {
            assert(k < m.len());
            assert(m[k] == n[k]);
        }
        lemma_last_dot(m, k);
    }
}

/// Finds the position of the last dot in `n`.
fn find_last_dot(n: &Vec<char>) -> (r: Option<usize>)
    ensures
        match r {
            None => last_dot(n@) == -1,
            Some(k) => last_dot(n@) == k as int && k < n.len(),
        },
{
    let mut i: usize = n.len();
    while i > 0
        invariant
            i <= n.len(),
            forall|j: int| i <= j < n.len() ==> n@[j] != '.',
        decreases i,
    {
        if n[i - 1] == '.' {
            proof {
                lemma_last_dot(n@, i - 1);
            }
            return Some(i - 1);
        }
        i = i - 1;
    }
    proof {
        lemma_last_dot(n@, -1);
    }
    None
}

/// The extension of the file name `name`.
pub fn extension_of_name(name: &str) -> (r: Option<&str>)
    ensures
        match r {
            None => name_extension(name@) is None,
            Some(e) => name_extension(name@) == Some(e@),
        },
{
    let chars = chars_of(name);
    let dot_dot = chars.len() == 2 && chars[0] == '.' && chars[1] == '.';
    match find_last_dot(&chars) {
        Some(k) => {
            if dot_dot || k == 0 {
                None
            } else {
                Some(name.substring_char(k + 1, chars.len()))
            }
        },
        None => None,
    }
}

/// The stem of the file name `name`.
pub fn stem_of_name(name: &str) -> (r: &str)
    ensures
        r@ == name_stem(name@),
{
    let chars = chars_of(name);
    let dot_dot = chars.len() == 2 && chars[0] == '.' && chars[1] == '.';
    match find_last_dot(&chars) {
        Some(k) => {
            if dot_dot || k == 0 {
                name
            } else {
                name.substring_char(0, k)
            }
        },
        None => name,
    }
}

// ---------------------------------------------------------------------------
// Components
// ---------------------------------------------------------------------------

/// One component of a path, as `std::path::Path::components` yields it.
#[derive(Debug)]
pub enum PathPart {
    /// A Windows drive or share prefix, with its text.
    Prefix(String),
    /// The root directory.
    RootDir,
    /// A `.` at the start of a relative path.
    CurDir,
    /// A `..`.
    ParentDir,
    /// An ordinary name.
    Normal(String),
}

/// A path component, with its text as characters.
pub enum PartView {
    Prefix(Seq<char>),
    RootDir,
    CurDir,
    ParentDir,
    Normal(Seq<char>),
}

impl View for PathPart {
    type V = PartView;

    open spec fn view(&self) -> PartView {
        match self {
            PathPart::Prefix(t) => PartView::Prefix(t@),
            PathPart::RootDir => PartView::RootDir,
            PathPart::CurDir => PartView::CurDir,
            PathPart::ParentDir => PartView::ParentDir,
            PathPart::Normal(n) => PartView::Normal(n@),
        }
    }
}

/// The components of a list, each as characters.
pub open spec fn parts_view(parts: Seq<PathPart>) -> Seq<PartView> {
    parts.map_values(|p: PathPart| p@)
}

/// `p` reads the same on every platform: it holds no `\` and no `:`, and
/// does not begin with two slashes (which Windows reads as a share prefix).
/// In such a path `/` is the only separator and there is no prefix.
pub open spec fn is_portable_path(p: Seq<char>) -> bool {
    &&& forall|i: int| 0 <= i < p.len() ==> #[trigger] p[i] != '\\' && p[i] != ':'
    &&& !(p.len() >= 2 && p[0] == '/' && p[1] == '/')
}

/// The component that the text between two separators gives: none for an
/// empty text or `.`, a parent for `..`, a name otherwise.
pub open spec fn segment_part(seg: Seq<char>) -> Seq<PartView> {
    if seg.len() == 0 || seg == seq!['.'] {
        Seq::empty()
    } else if seg == seq!['.', '.'] {
        seq![PartView::ParentDir]
    } else {
        seq![PartView::Normal(seg)]
    }
}

/// The components of `seg + p`, split at each `/`, where `seg` is the text
/// of the component being read.
pub open spec fn segments_from(p: Seq<char>, seg: Seq<char>) -> Seq<PartView>
    decreases p.len(),
{
    if p.len() == 0 {
        segment_part(seg)
    } else if p[0] == '/' {
        segment_part(seg) + segments_from(p.drop_first(), Seq::empty())
    } else {
        segments_from(p.drop_first(), seg.push(p[0]))
    }
}

/// The components of a portable path, as the documentation of
/// `Path::components` describes them: a leading `/` is the root; the text
/// is split at each `/`; repeated separators, a trailing separator and `.`
/// pieces are dropped, except a `.` that begins a relative path, which is
/// `CurDir`; `..` is `ParentDir`; every other piece is a name.
pub open spec fn portable_components(p: Seq<char>) -> Seq<PartView> {
    if p.len() > 0 && p[0] == '/' {
        seq![PartView::RootDir] + segments_from(p.drop_first(), Seq::empty())
    } else if p.len() > 0 && p[0] == '.' && (p.len() == 1 || p[1] == '/') {
        seq![PartView::CurDir] + segments_from(p.drop_first(), Seq::empty())
    } else {
        segments_from(p, Seq::empty())
    }
}

/// The file name of a portable path: its last component when that is a
/// name; none when the path is empty, is a root, or ends in `..` or a
/// leading `.`.
pub open spec fn portable_file_name(p: Seq<char>) -> Option<Seq<char>> {
    let c = portable_components(p);
    if c.len() > 0 && c.last() is Normal {
        Some(c.last()->Normal_0)
    } else {
        None
    }
}

/// Text without a separator is one piece.
proof fn lemma_segments_without_slash(p: Seq<char>, seg: Seq<char>)
    requires
        forall|i: int| 0 <= i < p.len() ==> #[trigger] p[i] != '/',
    ensures
        segments_from(p, seg) == segment_part(seg + p),
    decreases p.len(),
{
    if p.len() == 0 {
        assert(seg + p =~= seg);
    } else {
        let rest = p.drop_first();
        assert forall|i: int| 0 <= i < rest.len() implies #[trigger] rest[i] != '/' by {
            assert(rest[i] == p[i + 1]);
        }
        lemma_segments_without_slash(rest, seg.push(p[0]));
        assert(seg.push(p[0]) + rest =~= seg + p);
    }
}

/// A plain name is a portable path whose one component is itself, and it
/// is its own file name.
pub proof fn lemma_plain_name_components(p: Seq<char>)
    requires
        is_plain_name(p),
    ensures
        is_portable_path(p),
        portable_components(p) == seq![PartView::Normal(p)],
        portable_file_name(p) == Some(p),
{
    lemma_segments_without_slash(p, Seq::empty());
    assert(Seq::<char>::empty() + p =~= p);
    assert(p != seq!['.']);
    assert(p != seq!['.', '.']);
}

/// The empty path has no components and no file name.
pub proof fn lemma_empty_path_components()
    ensures
        portable_components(Seq::empty()) == Seq::<PartView>::empty(),
        portable_file_name(Seq::empty()) is None,
{
}

/// `s` occurs in `q` at `i` as a whole piece between separators.
pub open spec fn segment_at(q: Seq<char>, i: int, s: Seq<char>) -> bool {
    &&& 0 <= i && i + s.len() <= q.len()
    &&& q.subrange(i, i + s.len()) == s
    &&& (i == 0 || q[i - 1] == '/')
    &&& (i + s.len() == q.len() || q[i + s.len()] == '/')
}

/// A `..` piece of `seg + p` becomes a `ParentDir` component.
proof fn lemma_dot_dot_piece(p: Seq<char>, seg: Seq<char>, i: int)
    requires
        forall|k: int| 0 <= k < seg.len() ==> #[trigger] seg[k] != '/',
        segment_at(seg + p, i, seq!['.', '.']),
    ensures
        exists|k: int| 0 <= k < segments_from(p, seg).len() && #[trigger] segments_from(p, seg)[k] == PartView::ParentDir,
    decreases p.len(),
{
    let q = seg + p;
    let dd = seq!['.', '.'];
    if p.len() == 0 {
        assert(q =~= seg);
        if i > 0 {
            assert(seg[i - 1] == '/');
        }
        assert(seg =~= dd);
        assert(segments_from(p, seg)[0] == PartView::ParentDir);
    } else if p[0] == '/' {
        let n = seg.len() as int;
        assert(q[n] == '/');
        let rest = p.drop_first();
        if i <= n {
            if i > 0 {
                assert(q[i - 1] == seg[i - 1]);
            }
            assert(i == 0);
            assert(q[0] == '.' && q[1] == '.');
            assert(n >= 2) by {
                if n < 2 {
                    if n == 0 {
                        assert(q[0] == p[0]);
                    } else {
                        assert(q[1] == p[0]);
                    }
                }
            }
            if n > 2 {
                assert(q[2] == seg[2]);
            }
            assert(seg =~= dd) by {
                assert(seg[0] == q[0]);
                assert(seg[1] == q[1]);
            }
            assert(segment_part(seg) == seq![PartView::ParentDir]);
            let whole = segments_from(p, seg);
            assert(whole == segment_part(seg) + segments_from(rest, Seq::empty()));
            assert(whole[0] == PartView::ParentDir);
        } else {
            let j = i - n - 1;
            let e: Seq<char> = Seq::empty();
            assert(e + rest =~= rest);
            assert(q.subrange(n + 1, q.len() as int) =~= rest);
            assert forall|t: int| 0 <= t < 2 implies #[trigger] rest.subrange(j, j + 2)[t] == dd[t] by {
                assert(rest[j + t] == q[i + t]);
                assert(q.subrange(i, i + 2)[t] == q[i + t]);
            }
            assert(rest.subrange(j, j + 2) =~= dd);
            if j > 0 {
                assert(rest[j - 1] == q[i - 1]);
            }
            if j + 2 < rest.len() {
                assert(rest[j + 2] == q[i + 2]);
            }
            assert(segment_at(e + rest, j, dd));
            lemma_dot_dot_piece(rest, e, j);
            let tail = segments_from(rest, e);
            let k = choose|k: int| 0 <= k < tail.len() && #[trigger] tail[k] == PartView::ParentDir;
            let head = segment_part(seg);
            assert((head + tail)[head.len() + k] == PartView::ParentDir);
        }
    } else {
        let rest = p.drop_first();
        let seg2 = seg.push(p[0]);
        assert(seg2 + rest =~= q);
        assert forall|k: int| 0 <= k < seg2.len() implies #[trigger] seg2[k] != '/' by {
            if k < seg.len() {
                assert(seg2[k] == seg[k]);
            }
        }
        lemma_dot_dot_piece(rest, seg2, i);
    }
}

/// A path with a `..` piece has a `ParentDir` component.
pub proof fn lemma_dot_dot_is_parent(p: Seq<char>, i: int)
    requires
        segment_at(p, i, seq!['.', '.']),
    ensures
        exists|k: int| 0 <= k < portable_components(p).len() && #[trigger] portable_components(p)[k] == PartView::ParentDir,
{
    let dd = seq!['.', '.'];
    let e: Seq<char> = Seq::empty();
    assert(p.subrange(i, i + 2)[0] == p[i]);
    assert(p.subrange(i, i + 2)[1] == p[i + 1]);
    if (p.len() > 0 && p[0] == '/') || (p.len() > 0 && p[0] == '.' && (p.len() == 1 || p[1] == '/')) {
        let rest = p.drop_first();
        assert(i >= 1) by {
            if i == 0 {
                assert(p[0] == '.' && p[1] == '.');
            }
        }
        let j = i - 1;
        assert(e + rest =~= rest);
        assert forall|t: int| 0 <= t < 2 implies #[trigger] rest.subrange(j, j + 2)[t] == dd[t] by {
            assert(rest[j + t] == p[i + t]);
            assert(p.subrange(i, i + 2)[t] == p[i + t]);
        }
        assert(rest.subrange(j, j + 2) =~= dd);
        if j > 0 {
            assert(rest[j - 1] == p[i - 1]);
        }
        if j + 2 < rest.len() {
            assert(rest[j + 2] == p[i + 2]);
        }
        lemma_dot_dot_piece(rest, e, j);
        let tail = segments_from(rest, e);
        let k = choose|k: int| 0 <= k < tail.len() && #[trigger] tail[k] == PartView::ParentDir;
        let head = if p[0] == '/' { seq![PartView::RootDir] } else { seq![PartView::CurDir] };
        assert(portable_components(p) == head + tail);
        assert((head + tail)[1 + k] == PartView::ParentDir);
        assert(portable_components(p)[1 + k] == PartView::ParentDir);
    } else {
        assert(e + p =~= p);
        lemma_dot_dot_piece(p, e, i);
        let all = segments_from(p, e);
        let k = choose|k: int| 0 <= k < all.len() && #[trigger] all[k] == PartView::ParentDir;
        assert(portable_components(p) == all);
        assert(portable_components(p)[k] == PartView::ParentDir);
    }
}

/// Calls `std::path::Path::components` on `path` and lists the components.
///
/// For a portable path (see `is_portable_path`) the components are those
/// that the documentation of `Path::components` describes, written out in
/// `portable_components`. Of any other path it states one fact that holds
/// on every platform: a `:` in the path ends up in a prefix (Windows) or in
/// a name (a `:` is no separator). Nothing more is said of such paths: how
/// they split depends on the platform's separators and prefixes.
#[verifier::external_body]
pub(crate) fn components_of(path: &str) -> (r: Vec<PathPart>)
    ensures
        is_portable_path(path@) ==> parts_view(r@) == portable_components(path@),
        contains_char(path@, ':') ==> exists|k: int| 0 <= k < r@.len() && (#[trigger] r@[k]@ is Prefix || (
            r@[k]@ is Normal && contains_char(r@[k]@->Normal_0, ':'))),
{
    let mut parts = Vec::new();
    for c in std::path::Path::new(path).components() {
        parts.push(match c {
            std::path::Component::Prefix(p) => PathPart::Prefix(p.as_os_str().to_string_lossy().into_owned()),
            std::path::Component::RootDir => PathPart::RootDir,
            std::path::Component::CurDir => PathPart::CurDir,
            std::path::Component::ParentDir => PathPart::ParentDir,
            std::path::Component::Normal(n) => PathPart::Normal(n.to_string_lossy().into_owned()),
        });
    }
    parts
}

/// Calls `std::path::Path::file_name` on `path` and returns the name as text.
///
/// For a portable path (see `is_portable_path`) this is what the
/// documentation of `Path::file_name` says: the last component when it is a
/// name, and nothing when the path ends in `..` or has no such component
/// (see `portable_file_name`). Nothing is said of other paths.
#[verifier::external_body]
pub(crate) fn file_name_of(path: &str) -> (r: Option<String>)
    ensures
        is_portable_path(path@) ==> (r is Some <==> portable_file_name(path@) is Some),
        is_portable_path(path@) && r is Some ==> portable_file_name(path@) == Some(r.unwrap()@),
{
    match std::path::Path::new(path).file_name() {
        Some(name) => match name.to_str() {
            Some(text) => Some(text.to_owned()),
            None => None,
        },
        None => None,
    }
}

// ---------------------------------------------------------------------------
// Parents and joins
// ---------------------------------------------------------------------------

/// `n` holds no `/`, no `:` and no backslash.
pub open spec fn is_clean_text(n: Seq<char>) -> bool {
    forall|i: int| 0 <= i < n.len() ==> #[trigger] n[i] != '/' && n[i] != ':' && n[i] != '\\'
}

/// The names that splitting a portable text yields are clean.
proof fn lemma_segment_names_clean(p: Seq<char>, seg: Seq<char>)
    requires
        is_clean_text(seg),
        forall|i: int| 0 <= i < p.len() ==> #[trigger] p[i] != ':' && p[i] != '\\',
    ensures
        forall|k: int| 0 <= k < segments_from(p, seg).len() && (#[trigger] segments_from(p, seg)[k]) is Normal
            ==> is_clean_text(segments_from(p, seg)[k]->Normal_0),
    decreases p.len(),
{
    if p.len() == 0 {
    } else {
        let rest = p.drop_first();
        assert forall|i: int| 0 <= i < rest.len() implies #[trigger] rest[i] != ':' && rest[i] != '\\' by {
            assert(rest[i] == p[i + 1]);
        }
        if p[0] == '/' {
            let e: Seq<char> = Seq::empty();
            lemma_segment_names_clean(rest, e);
            let head = segment_part(seg);
            let tail = segments_from(rest, e);
            assert(segments_from(p, seg) == head + tail);
            assert forall|k: int| 0 <= k < (head + tail).len() && (#[trigger] (head + tail)[k]) is Normal
                implies is_clean_text((head + tail)[k]->Normal_0) by {
                if k >= head.len() {
                    assert((head + tail)[k] == tail[k - head.len()]);
                }
            }
        } else {
            let seg2 = seg.push(p[0]);
            assert forall|i: int| 0 <= i < seg2.len() implies #[trigger] seg2[i] != '/' && seg2[i] != ':' && seg2[i] != '\\' by {
                if i < seg.len() {
                    assert(seg2[i] == seg[i]);
                }
            }
            lemma_segment_names_clean(rest, seg2);
        }
    }
}

/// The file name of a portable path, and its stem, are clean.
pub proof fn lemma_file_name_clean(p: Seq<char>)
    requires
        is_portable_path(p),
        portable_file_name(p) is Some,
    ensures
        is_clean_text(portable_file_name(p)->0),
        is_clean_text(name_stem(portable_file_name(p)->0)),
{
    let e: Seq<char> = Seq::empty();
    let c = portable_components(p);
    let k = c.len() - 1;
    if p.len() > 0 && (p[0] == '/' || (p[0] == '.' && (p.len() == 1 || p[1] == '/'))) {
        let rest = p.drop_first();
        assert forall|i: int| 0 <= i < rest.len() implies #[trigger] rest[i] != ':' && rest[i] != '\\' by {
            assert(rest[i] == p[i + 1]);
        }
        lemma_segment_names_clean(rest, e);
        let tail = segments_from(rest, e);
        assert(k >= 1);
        assert(c[k] == tail[k - 1]);
    } else {
        lemma_segment_names_clean(p, e);
    }
    let n = portable_file_name(p)->0;
    let st = name_stem(n);
    lemma_last_dot_bound(n);
    assert forall|i: int| 0 <= i < st.len() implies #[trigger] st[i] != '/' && st[i] != ':' && st[i] != '\\' by {
        assert(st[i] == n[i]);
    }
}

/// `last_dot` is a position in the text, or -1.
proof fn lemma_last_dot_bound(n: Seq<char>)
    ensures
        -1 <= last_dot(n) < n.len(),
    decreases n.len(),
{
    if n.len() > 0 && n.last() != '.' {
        lemma_last_dot_bound(n.drop_last());
    }
}

/// `p` is a portable path written without redundancy: no empty piece (no
/// repeated or trailing `/`, except the root `/` itself) and no `.` piece.
pub open spec fn is_simple_path(p: Seq<char>) -> bool {
    &&& is_portable_path(p)
    &&& forall|i: int| 0 <= i < p.len() - 1 ==> !(#[trigger] p[i] == '/' && p[i + 1] == '/')
    &&& (p.len() > 1 ==> p.last() != '/')
    &&& forall|i: int| !segment_at(p, i, seq!['.'])
}

/// Position of the last `/` in `p`, or -1 when there is none.
pub open spec fn last_slash(p: Seq<char>) -> int
    decreases p.len(),
{
    if p.len() == 0 {
        -1
    } else if p.last() == '/' {
        p.len() - 1
    } else {
        last_slash(p.drop_last())
    }
}

/// The parent of a simple path, as the documentation of `Path::parent`
/// describes it: none for the empty path and the root; the text before the
/// last `/` (the root when that `/` begins the path); the empty path for a
/// relative path of one component.
pub open spec fn simple_parent(p: Seq<char>) -> Option<Seq<char>> {
    if p.len() == 0 || p == seq!['/'] {
        None
    } else if last_slash(p) < 0 {
        Some(Seq::empty())
    } else if last_slash(p) == 0 {
        Some(seq!['/'])
    } else {
        Some(p.subrange(0, last_slash(p)))
    }
}

/// Calls `std::path::Path::parent` on `path` and returns the parent as text.
///
/// For a portable path this states what the documentation of `Path::parent`
/// says: there is no parent exactly when the path has no component or ends
/// in the root. For a simple path (see `is_simple_path`) it also gives the
/// parent's text (`simple_parent`). Nothing is said of other paths.
#[verifier::external_body]
pub(crate) fn parent_of(path: &str) -> (r: Option<String>)
    ensures
        is_portable_path(path@) ==> (r is None <==> (portable_components(path@).len() == 0
            || portable_components(path@).last() is RootDir)),
        is_simple_path(path@) && r is Some ==> simple_parent(path@) == Some(r->0@),
{
    std::path::Path::new(path).parent().map(|p| p.to_string_lossy().into_owned())
}

/// `r` is `base` joined with the relative `path`: appended directly when
/// `base` is empty or ends in `/`, and otherwise after the platform's
/// separator (`/`, or a backslash on Windows).
pub open spec fn is_join_of(r: Seq<char>, base: Seq<char>, path: Seq<char>) -> bool {
    if base.len() == 0 || base.last() == '/' {
        r == base + path
    } else {
        r == base + seq!['/'] + path || r == base + seq!['\\'] + path
    }
}

/// Calls `std::path::Path::join` on `base` and `path` and returns the result
/// as text.
///
/// For a portable `base` and a portable `path` that does not begin with `/`
/// this states what the documentation of `PathBuf::push` says of a relative
/// path: it is appended to `base`, after a separator when `base` does not
/// end in one (see `is_join_of`). Nothing is said of other arguments.
#[verifier::external_body]
pub(crate) fn join_path(base: &str, path: &str) -> (r: String)
    ensures
        is_portable_path(base@) && is_portable_path(path@) && !(path@.len() > 0 && path@[0] == '/')
            ==> is_join_of(r@, base@, path@),
{
    std::path::Path::new(base).join(path).to_string_lossy().into_owned()
}

/// A join of `base` and `path` begins with `base`.
pub proof fn lemma_join_extends(r: Seq<char>, base: Seq<char>, path: Seq<char>)
    requires
        is_join_of(r, base, path),
    ensures
        r.len() >= base.len(),
        r.subrange(0, base.len() as int) == base,
{
    if base.len() == 0 || base.last() == '/' {
        assert(r.subrange(0, base.len() as int) =~= base);
    } else if r == base + seq!['/'] + path {
        assert(r.subrange(0, base.len() as int) =~= base);
    } else {
        assert(r.subrange(0, base.len() as int) =~= base);
    }
}

/// Why no extraction folder can be suggested for an archive path.
#[derive(Debug, Clone, Copy, PartialEq, Eq, Structural)]
pub enum SuggestionError {
    /// The path has no parent directory.
    NoParent,
    /// The path has no file name to take a stem from.
    NoStem,
}

/// The folder suggested for extracting the archive at `archive_path`: the
/// archive's parent directory joined with the archive's file stem, so that
/// `/home/u/backup.tar.gz` suggests `/home/u/backup.tar`.
///
/// For a simple path the result is exact; for any portable path, which of
/// the two refusals comes is exact.
pub fn suggested_extract_dir(archive_path: &str) -> (r: Result<String, SuggestionError>)
    ensures
        is_portable_path(archive_path@) ==> ((r == Err::<String, SuggestionError>(SuggestionError::NoParent)) <==> (
            portable_components(archive_path@).len() == 0 || portable_components(archive_path@).last() is RootDir)),
        is_portable_path(archive_path@) && r is Err && r != Err::<String, SuggestionError>(SuggestionError::NoParent)
            ==> r == Err::<String, SuggestionError>(SuggestionError::NoStem) && portable_file_name(archive_path@) is None,
        is_portable_path(archive_path@) && portable_file_name(archive_path@) is None ==> r is Err,
        is_simple_path(archive_path@) && r is Ok ==> is_join_of(
            r->Ok_0@,
            simple_parent(archive_path@)->0,
            name_stem(portable_file_name(archive_path@)->0),
        ),
        is_simple_path(archive_path@) ==> (r is Ok <==> (simple_parent(archive_path@) is Some
            && portable_file_name(archive_path@) is Some)),
{
    let parent = match parent_of(archive_path) {
        Some(p) => p,
        None => return Err(SuggestionError::NoParent),
    };
    let stem = match file_stem(archive_path) {
        Some(s) => s,
        None => return Err(SuggestionError::NoStem),
    };
    proof {
        if is_simple_path(archive_path@) {
            lemma_file_name_clean(archive_path@);
            let par = parent@;
            assert(is_portable_path(par)) by {
                let ap = archive_path@;
                let k = last_slash(ap);
                if k > 0 {
                    lemma_last_slash_bound(ap);
                    assert forall|i: int| 0 <= i < par.len() implies #[trigger] par[i] != '\\' && par[i] != ':' by {
                        assert(par[i] == ap[i]);
                    }
                    if par.len() >= 2 {
                        assert(par[0] == ap[0] && par[1] == ap[1]);
                    }
                } else if k == 0 {
                    assert(par =~= seq!['/']);
                } else {
                    assert(par =~= Seq::<char>::empty());
                }
            }
            let st = stem@;
            assert(is_portable_path(st)) by {
                if st.len() >= 2 {
                    assert(st[0] != '/');
                }
            }
            if st.len() > 0 {
                assert(st[0] != '/');
            }
        }
    }
    Ok(join_path(parent.as_str(), stem.as_str()))
}

/// `last_slash` is a position in the text, holding a `/`.
proof fn lemma_last_slash_bound(p: Seq<char>)
    ensures
        -1 <= last_slash(p) < p.len(),
        last_slash(p) >= 0 ==> p[last_slash(p)] == '/',
    decreases p.len(),
{
    if p.len() > 0 && p.last() != '/' {
        lemma_last_slash_bound(p.drop_last());
        let k = last_slash(p.drop_last());
        if k >= 0 {
            assert(p.drop_last()[k] == p[k]);
        }
    }
}

/// The file stem of `path`: the stem of its file name, if it has one.
pub fn file_stem(path: &str) -> (r: Option<String>)
    ensures
        path@.len() == 0 ==> r is None,
        is_plain_name(path@) ==> (r matches Some(s) && s@ == name_stem(path@)),
        r matches Some(s) ==> exists|n: Seq<char>| s@ == name_stem(n),
        is_portable_path(path@) ==> match portable_file_name(path@) {
            None => r is None,
            Some(n) => r matches Some(s) && s@ == name_stem(n),
        },
{
    proof {
        if is_plain_name(path@) {
            lemma_plain_name_components(path@);
        }
        if path@.len() == 0 {
            lemma_empty_path_components();
            assert(path@ =~= Seq::<char>::empty());
        }
    }
    match file_name_of(path) {
        Some(name) => {
            let stem = stem_of_name(name.as_str());
            Some(stem.to_owned())
        },
        None => None,
    }
}

} // verus!
