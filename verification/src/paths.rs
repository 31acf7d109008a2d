//! Unix paths as text: their components, parents, joining, and
//! normalization.
use vstd::prelude::*;
use crate::text::{chars_of, push_char, string_of_range, append_all};

verus! {

/// Skips separators backwards from `i`, not below `lo`.
pub open spec fn skip_seps(s: Seq<char>, lo: int, i: int) -> int
    decreases i - lo,
{
    if i > lo && i <= s.len() && s[i - 1] == '/' {
        skip_seps(s, lo, i - 1)
    } else {
        i
    }
}

/// Start of the component that ends at `i`: just after the last separator
/// before `i`, or `lo`.
pub open spec fn comp_start(s: Seq<char>, lo: int, i: int) -> int
    decreases i - lo,
{
    if i > lo && i <= s.len() && s[i - 1] != '/' {
        comp_start(s, lo, i - 1)
    } else {
        i
    }
}

/// `skip_seps` and `comp_start` move backwards and stop at `lo`.
pub proof fn lemma_back_bounds(s: Seq<char>, lo: int, i: int)
    requires
        lo <= i,
    ensures
        lo <= skip_seps(s, lo, i) <= i,
        lo <= comp_start(s, lo, i) <= i,
    decreases i - lo,
{
    if i > lo {
        lemma_back_bounds(s, lo, i - 1);
    }
}

/// Whether `s[j..i]` is the component `.`.
pub open spec fn is_dot(s: Seq<char>, j: int, i: int) -> bool {
    i == j + 1 && 0 <= j < s.len() && s[j] == '.'
}

/// End of the path `s[..i]` once trailing separators and `.` components are
/// dropped, not below `lo`.
pub open spec fn trim_back(s: Seq<char>, lo: int, i: int) -> int
    decreases i - lo,
{
    let a = skip_seps(s, lo, i);
    let j = comp_start(s, lo, a);
    if a > lo && is_dot(s, j, a) && lo <= j && j < i {
        trim_back(s, lo, j)
    } else {
        a
    }
}

/// `trim_back` stays between `lo` and `i`.
pub proof fn lemma_trim_back_bounds(s: Seq<char>, lo: int, i: int)
    requires
        lo <= i,
    ensures
        lo <= trim_back(s, lo, i) <= i,
    decreases i - lo,
{
    lemma_back_bounds(s, lo, i);
    let a = skip_seps(s, lo, i);
    lemma_back_bounds(s, lo, a);
    let j = comp_start(s, lo, a);
    if a > lo && is_dot(s, j, a) && lo <= j && j < i {
        lemma_trim_back_bounds(s, lo, j);
    }
}

/// Where the components after a root (`/`) or a leading `.` start.
pub open spec fn body_start(s: Seq<char>) -> int {
    if s.len() > 0 && s[0] == '/' {
        1
    } else if s.len() > 0 && s[0] == '.' && (s.len() == 1 || s[1] == '/') {
        1
    } else {
        0
    }
}

/// The parent of a path (`Path::parent`): the path without its final
/// component, trailing separators and `.` components; `Some("")` for a
/// relative path of one component; `None` for a root or an empty path.
pub open spec fn path_parent(s: Seq<char>) -> Option<Seq<char>> {
    let lo = body_start(s);
    let e = trim_back(s, lo, s.len() as int);
    if e > lo {
        Some(s.take(trim_back(s, lo, comp_start(s, lo, e))))
    } else if lo == 1 && s[0] == '.' {
        Some(Seq::empty())
    } else {
        None
    }
}

/// `base` extended by `t` (`PathBuf::push`): an absolute `t` replaces
/// `base`; otherwise a separator is added when `base` is not empty and does
/// not end with one.
pub open spec fn path_push(base: Seq<char>, t: Seq<char>) -> Seq<char> {
    if t.len() > 0 && t[0] == '/' {
        t
    } else if base.len() > 0 && base.last() != '/' {
        base + seq!['/'] + t
    } else {
        base + t
    }
}

/// `target` resolved against the parent of `against`: joined to it, or
/// `target` itself when `against` has no parent.
pub open spec fn resolved_against_parent(against: Seq<char>, target: Seq<char>) -> Seq<char> {
    match path_parent(against) {
        Some(p) => path_push(p, target),
        None => target,
    }
}

/// Skips separators backwards.
fn skip_seps_exec(s: &Vec<char>, lo: usize, i: usize) -> (r: usize)
    requires
        lo <= i <= s@.len(),
    ensures
        r == skip_seps(s@, lo as int, i as int),
{
    let mut k = i;
    while k > lo && s[k - 1] == '/'
        invariant
            lo <= k <= i <= s@.len(),
            skip_seps(s@, lo as int, i as int) == skip_seps(s@, lo as int, k as int),
        decreases k,
    {
        k = k - 1;
    }
    k
}

/// Finds the start of the component ending at `i`.
fn comp_start_exec(s: &Vec<char>, lo: usize, i: usize) -> (r: usize)
    requires
        lo <= i <= s@.len(),
    ensures
        r == comp_start(s@, lo as int, i as int),
{
    let mut k = i;
    while k > lo && s[k - 1] != '/'
        invariant
            lo <= k <= i <= s@.len(),
            comp_start(s@, lo as int, i as int) == comp_start(s@, lo as int, k as int),
        decreases k,
    {
        k = k - 1;
    }
    k
}

/// Drops trailing separators and `.` components.
fn trim_back_exec(s: &Vec<char>, lo: usize, i: usize) -> (r: usize)
    requires
        lo <= i <= s@.len(),
    ensures
        r == trim_back(s@, lo as int, i as int),
{
    let mut k = i;
    loop
        invariant
            lo <= k <= i <= s@.len(),
            trim_back(s@, lo as int, i as int) == trim_back(s@, lo as int, k as int),
        decreases k,
    {
        proof {
            lemma_back_bounds(s@, lo as int, k as int);
        }
        let a = skip_seps_exec(s, lo, k);
        proof {
            lemma_back_bounds(s@, lo as int, a as int);
        }
        let j = comp_start_exec(s, lo, a);
        if a > lo && j < a && a - 1 == j && s[j] == '.' && lo <= j && j < k {
            k = j;
        } else {
            return a;
        }
    }
}

/// The start of the components after a root or a leading `.`.
fn body_start_exec(s: &Vec<char>) -> (r: usize)
    ensures
        r == body_start(s@),
        r <= s@.len(),
{
    if s.len() > 0 && s[0] == '/' {
        1
    } else if s.len() > 0 && s[0] == '.' && (s.len() == 1 || s[1] == '/') {
        1
    } else {
        0
    }
}

/// The parent of a path (`Path::parent`).
pub fn path_parent_of(p: &str) -> (r: Option<String>)
    ensures
        match r {
            Some(q) => path_parent(p@) == Some(q@),
            None => path_parent(p@) is None,
        },
{
    let s = chars_of(p);
    let lo = body_start_exec(&s);
    let e = trim_back_exec(&s, lo, s.len());
    if e > lo {
        proof {
            lemma_trim_back_bounds(s@, lo as int, s@.len() as int);
            lemma_back_bounds(s@, lo as int, e as int);
        }
        let j = comp_start_exec(&s, lo, e);
        let t = trim_back_exec(&s, lo, j);
        proof {
            lemma_trim_back_bounds(s@, lo as int, j as int);
        }
        let r = string_of_range(&s, 0, t);
        assert(r@ == s@.take(t as int));
        Some(r)
    } else if lo == 1 && s[0] == '.' {
        Some(String::new())
    } else {
        None
    }
}

/// `base` extended by `t` (`PathBuf::push`).
pub fn path_push_str(base: &str, t: &str) -> (r: String)
    ensures
        r@ == path_push(base@, t@),
{
    let b = chars_of(base);
    let tc = chars_of(t);
    let mut r = String::new();
    if tc.len() > 0 && tc[0] == '/' {
        append_all(&mut r, &tc);
        return r;
    }
    append_all(&mut r, &b);
    if b.len() > 0 && b[b.len() - 1] != '/' {
        push_char(&mut r, '/');
    }
    append_all(&mut r, &tc);
    r
}

/// Resolve the path `target` against `against`'s parent.
pub fn resolve_against_parent(against: &str, target: &str) -> (r: String)
    ensures
        r@ == resolved_against_parent(against@, target@),
{
    match path_parent_of(against) {
        Some(p) => path_push_str(p.as_str(), target),
        None => target.to_string(),
    }
}

/// Given two strings, resolve the second one (`target`) w.r.t. the first
/// (`against`).
pub fn resolve_path_from_str(against: &str, target: &str) -> (r: String)
    ensures
        r@ == resolved_against_parent(against@, target@),
{
    resolve_against_parent(against, target)
}

/// The name of Gambit's default output directory.
pub open spec fn default_outdir_name() -> Seq<char> {
    "gambit_out"@
}

/// The name of Gambit's default output directory.
pub fn default_gambit_output_directory() -> (r: String)
    ensures
        r@ == default_outdir_name(),
{
    "gambit_out".to_string()
}

} // verus!

verus! {

/// A component of a path.
pub enum PathPart {
    RootDir,
    CurDir,
    ParentDir,
    Normal(Seq<char>),
}

/// The components of `s[i..]` after its root or leading `.`: separators are
/// skipped, `.` components dropped, `..` is the parent component.
pub open spec fn body_comps(s: Seq<char>, i: int) -> Seq<PathPart>
    decreases s.len() - i,
{
    if i < 0 || i >= s.len() {
        Seq::empty()
    } else if s[i] == '/' {
        body_comps(s, i + 1)
    } else {
        let k = crate::solidity::index_of_from(s, '/', i);
        proof {
            crate::solidity::lemma_index_of_from(s, '/', i);
        }
        let c = s.subrange(i, k);
        if k <= i {
            Seq::empty()
        } else if c == seq!['.'] {
            body_comps(s, k)
        } else if c == seq!['.', '.'] {
            seq![PathPart::ParentDir] + body_comps(s, k)
        } else {
            seq![PathPart::Normal(c)] + body_comps(s, k)
        }
    }
}

/// The components of a path (`Path::components`): a root, or a leading
/// `.`, then the components of the rest.
pub open spec fn path_components(s: Seq<char>) -> Seq<PathPart> {
    if s.len() > 0 && s[0] == '/' {
        seq![PathPart::RootDir] + body_comps(s, 1)
    } else if body_start(s) == 1 {
        seq![PathPart::CurDir] + body_comps(s, 1)
    } else {
        body_comps(s, 0)
    }
}

/// One step of normalization: a root resets the path to the root, `.` is
/// dropped, `..` removes the last name (if any), a name is added.
pub open spec fn norm_step(st: (bool, Seq<Seq<char>>), c: PathPart) -> (bool, Seq<Seq<char>>) {
    match c {
        PathPart::RootDir => (true, Seq::empty()),
        PathPart::CurDir => st,
        PathPart::ParentDir => (
            st.0,
            if st.1.len() > 0 {
                st.1.drop_last()
            } else {
                st.1
            },
        ),
        PathPart::Normal(n) => (st.0, st.1.push(n)),
    }
}

/// Normalization of components, left to right: whether the result is rooted,
/// and its names.
pub open spec fn norm_fold(cs: Seq<PathPart>) -> (bool, Seq<Seq<char>>)
    decreases cs.len(),
{
    if cs.len() == 0 {
        (false, Seq::empty())
    } else {
        norm_step(norm_fold(cs.drop_last()), cs.last())
    }
}

/// The text of a normalized path: `/` when rooted, then the names separated
/// by `/`.
pub open spec fn render_path(st: (bool, Seq<Seq<char>>)) -> Seq<char> {
    let body = crate::text::join_with(st.1, seq!['/']);
    if st.0 {
        seq!['/'] + body
    } else {
        body
    }
}

/// A path normalized without consulting the file system: `.` components
/// dropped and each `..` removing the name before it.
pub open spec fn normalized_path(s: Seq<char>) -> Seq<char> {
    render_path(norm_fold(path_components(s)))
}

/// The views of name ranges in `s`.
pub open spec fn range_views(s: Seq<char>, v: Seq<(usize, usize)>) -> Seq<Seq<char>> {
    Seq::new(v.len(), |i: int| s.subrange(v[i].0 as int, v[i].1 as int))
}

/// Normalize a path without checking if it exists.
pub fn normalize_path(path: &str) -> (r: String)
    ensures
        r@ == normalized_path(path@),
{
    let s = chars_of(path);
    let ghost sv = s@;
    let mut rooted = false;
    let mut names: Vec<(usize, usize)> = Vec::new();
    let ghost mut done: Seq<PathPart> = Seq::empty();
    let mut i: usize = 0;
    if s.len() > 0 && s[0] == '/' {
        rooted = true;
        i = 1;
        proof {
            done = seq![PathPart::RootDir];
            assert(norm_fold(done) == norm_step(norm_fold(done.drop_last()), PathPart::RootDir));
            assert(done.drop_last().len() == 0);
        }
    } else if body_start_exec(&s) == 1 {
        i = 1;
        proof {
            done = seq![PathPart::CurDir];
            assert(norm_fold(done) == norm_step(norm_fold(done.drop_last()), PathPart::CurDir));
            assert(done.drop_last().len() == 0);
        }
    }
    assert(path_components(sv) == done + body_comps(sv, i as int));
    while i < s.len()
        invariant
            sv == s@,
            i <= s@.len(),
            path_components(sv) == done + body_comps(sv, i as int),
            norm_fold(done) == (rooted, range_views(sv, names@)),
            forall|j: int| 0 <= j < names@.len() ==> (#[trigger] names@[j]).0 <= names@[j].1 <= sv.len(),
        decreases s@.len() - i,
    {
        if s[i] == '/' {
            i = i + 1;
        } else {
            let mut k = i;
            proof {
                crate::solidity::lemma_index_of_from(sv, '/', i as int);
            }
            while k < s.len() && s[k] != '/'
                invariant
                    sv == s@,
                    i <= k <= s@.len(),
                    crate::solidity::index_of_from(sv, '/', i as int)
                        == crate::solidity::index_of_from(sv, '/', k as int),
                decreases s@.len() - k,
            {
                k = k + 1;
            }
            proof {
                crate::solidity::lemma_index_of_from(sv, '/', k as int);
            }
            let ghost c = sv.subrange(i as int, k as int);
            let is_dot = k - i == 1 && s[i] == '.';
            let is_dotdot = k - i == 2 && s[i] == '.' && s[i + 1] == '.';
            proof {
                assert(is_dot == (c == seq!['.'])) by {
                    if c == seq!['.'] {
                        assert(c.len() == 1 && c[0] == '.');
                    }
                    if is_dot {
                        assert(c =~= seq!['.']);
                    }
                }
                assert(is_dotdot == (c == seq!['.', '.'])) by {
                    if c == seq!['.', '.'] {
                        assert(c.len() == 2 && c[0] == '.' && c[1] == '.');
                    }
                    if is_dotdot {
                        assert(c =~= seq!['.', '.']);
                    }
                }
            }
            if is_dot {
            } else if is_dotdot {
                let ghost prev = names@;
                if names.len() > 0 {
                    names.pop();
                }
                proof {
                    let old_done = done;
                    done = done.push(PathPart::ParentDir);
                    assert(done.drop_last() == old_done);
                    assert(range_views(sv, names@) =~= if prev.len() > 0 {
                        range_views(sv, prev).drop_last()
                    } else {
                        range_views(sv, prev)
                    });
                    assert(path_components(sv) == old_done + (seq![PathPart::ParentDir]
                        + body_comps(sv, k as int)));
                    assert(old_done + (seq![PathPart::ParentDir] + body_comps(sv, k as int))
                        =~= done + body_comps(sv, k as int));
                }
            } else {
                let ghost prev = names@;
                names.push((i, k));
                proof {
                    let old_done = done;
                    done = done.push(PathPart::Normal(c));
                    assert(done.drop_last() == old_done);
                    assert(range_views(sv, names@) =~= range_views(sv, prev).push(c));
                    assert(old_done + (seq![PathPart::Normal(c)] + body_comps(sv, k as int))
                        =~= done + body_comps(sv, k as int));
                }
            }
            i = k;
        }
    }
    assert(body_comps(sv, i as int) == Seq::<PathPart>::empty());
    assert(done + Seq::<PathPart>::empty() == done);
    // render
    let mut out: Vec<Vec<char>> = Vec::new();
    let mut j: usize = 0;
    while j < names.len()
        invariant
            sv == s@,
            j <= names@.len(),
            forall|t: int| 0 <= t < names@.len() ==> (#[trigger] names@[t]).0 <= names@[t].1 <= sv.len(),
            crate::text::views_of(out@) == range_views(sv, names@).take(j as int),
        decreases names@.len() - j,
    {
        let (a, b) = names[j];
        let ghost prev = out@;
        out.push(crate::mutation::slice_chars(&s, a, b));
        proof {
            assert(crate::text::views_of(out@) =~= crate::text::views_of(prev).push(
                range_views(sv, names@)[j as int],
            ));
            assert(range_views(sv, names@).take(j + 1) =~= range_views(sv, names@).take(
                j as int,
            ).push(range_views(sv, names@)[j as int]));
        }
        j = j + 1;
    }
    assert(range_views(sv, names@).take(names@.len() as int) == range_views(sv, names@));
    let body = crate::text::join_lines(&out, '/');
    if rooted {
        let mut r = String::new();
        push_char(&mut r, '/');
        r.append(body.as_str());
        r
    } else {
        body
    }
}

} // verus!

verus! {

/// Why a path could not be made relative to a base.
#[derive(Debug, Clone, Copy, PartialEq, Eq, Structural)]
pub enum PathError {
    /// The base is not a prefix of the path.
    NotUnderBase,
}

/// `path` with the directory `base` taken off its front, or `None` where
/// `base` is not a leading part of `path`. Paths are read in canonical form
/// (absolute, with no `.` or `..` parts and no repeated or trailing `/`), the
/// form a resolved path has; on such paths this is `Path::strip_prefix`.
pub open spec fn stripped_prefix(path: Seq<char>, base: Seq<char>) -> Option<Seq<char>> {
    if base.len() == 1 && base[0] == '/' && path.len() > 0 && path[0] == '/' {
        Some(path.drop_first())
    } else if path == base {
        Some(Seq::empty())
    } else if path.len() > base.len() && path.take(base.len() as int) == base && path[base.len() as int]
        == '/' {
        Some(path.skip(base.len() as int + 1))
    } else {
        None
    }
}

/// Whether `v[0..n]` equals `w[0..n]`.
fn same_prefix(v: &Vec<char>, w: &Vec<char>, n: usize) -> (r: bool)
    requires
        n <= v@.len(),
        n <= w@.len(),
    ensures
        r == (v@.take(n as int) == w@.take(n as int)),
{
    let mut i: usize = 0;
    while i < n
        invariant
            i <= n <= v@.len(),
            n <= w@.len(),
            v@.take(i as int) == w@.take(i as int),
        decreases n - i,
    {
        if v[i] != w[i] {
            assert(v@.take(n as int)[i as int] != w@.take(n as int)[i as int]);
            return false;
        }
        assert(v@.take(i + 1) =~= v@.take(i as int).push(v@[i as int]));
        assert(w@.take(i + 1) =~= w@.take(i as int).push(w@[i as int]));
        i = i + 1;
    }
    true
}

/// Makes `path` relative to `base` (both canonical, as the caller resolved
/// them): the part of `path` below `base`, or an error where `path` does not
/// lie below `base`.
pub fn rel_path_from_base(path: &str, base: &str) -> (r: Result<String, PathError>)
    ensures
        match stripped_prefix(path@, base@) {
            Some(rest) => r is Ok && r->Ok_0@ == rest,
            None => r == Err::<String, PathError>(PathError::NotUnderBase),
        },
{
    let p = chars_of(path);
    let b = chars_of(base);
    if b.len() == 1 && b[0] == '/' && p.len() > 0 && p[0] == '/' {
        let r = string_of_range(&p, 1, p.len());
        assert(p@.subrange(1, p@.len() as int) =~= p@.drop_first());
        return Ok(r);
    }
    if p.len() == b.len() && same_prefix(&p, &b, p.len()) {
        assert(p@.take(p@.len() as int) =~= p@);
        assert(b@.take(b@.len() as int) =~= b@);
        return Ok(String::new());
    }
    if p.len() > b.len() && same_prefix(&p, &b, b.len()) && p[b.len()] == '/' {
        assert(b@.take(b@.len() as int) =~= b@);
        let r = string_of_range(&p, b.len() + 1, p.len());
        assert(p@.subrange(b@.len() as int + 1, p@.len() as int) =~= p@.skip(b@.len() as int + 1));
        return Ok(r);
    }
    proof {
        if p@ == b@ {
            assert(p@.take(p@.len() as int) =~= p@);
            assert(b@.take(b@.len() as int) =~= b@);
        }
        if p@.len() > b@.len() && p@.take(b@.len() as int) == b@ {
            assert(b@.take(b@.len() as int) =~= b@);
        }
    }
    Err(PathError::NotUnderBase)
}

} // verus!

verus! {

/// A name that normalization can leave in a path: not empty, without a
/// separator, and neither `.` nor `..`.
pub open spec fn plain_name(n: Seq<char>) -> bool {
    &&& n.len() > 0
    &&& forall|j: int| 0 <= j < n.len() ==> n[j] != '/'
    &&& n != seq!['.']
    &&& n != seq!['.', '.']
}

/// Whether a component is a name that is plain, or no name at all.
pub open spec fn part_plain(p: PathPart) -> bool {
    match p {
        PathPart::Normal(n) => plain_name(n),
        _ => true,
    }
}

/// Whether a component is `.` or `..`.
pub open spec fn is_dot_part(p: PathPart) -> bool {
    p is CurDir || p is ParentDir
}

/// The components that name each of `n` in turn.
pub open spec fn name_parts(n: Seq<Seq<char>>) -> Seq<PathPart> {
    Seq::new(n.len(), |j: int| PathPart::Normal(n[j]))
}

/// Every name that `body_comps` reads is plain.
proof fn lemma_body_comps_plain(s: Seq<char>, i: int)
    ensures
        forall|j: int| 0 <= j < body_comps(s, i).len() ==> part_plain(#[trigger] body_comps(s, i)[j]),
    decreases s.len() - i,
{
    if i < 0 || i >= s.len() {
    } else if s[i] == '/' {
        lemma_body_comps_plain(s, i + 1);
        assert(body_comps(s, i) == body_comps(s, i + 1));
    } else {
        let k = crate::solidity::index_of_from(s, '/', i);
        crate::solidity::lemma_index_of_from(s, '/', i);
        let c = s.subrange(i, k);
        if k > i {
            lemma_body_comps_plain(s, k);
            let rest = body_comps(s, k);
            let first = if c == seq!['.', '.'] {
                PathPart::ParentDir
            } else {
                PathPart::Normal(c)
            };
            if c == seq!['.'] {
                assert(body_comps(s, i) == rest);
            } else {
                assert(body_comps(s, i) == seq![first] + rest);
                assert(part_plain(first));
                assert forall|j: int| 0 <= j < body_comps(s, i).len() implies part_plain(
                    #[trigger] body_comps(s, i)[j],
                ) by {
                    if j > 0 {
                        assert(body_comps(s, i)[j] == rest[j - 1]);
                    }
                }
            }
        }
    }
}

/// Every name of a path's components is plain.
proof fn lemma_components_plain(s: Seq<char>)
    ensures
        forall|j: int| 0 <= j < path_components(s).len() ==> part_plain(#[trigger] path_components(s)[j]),
{
    lemma_body_comps_plain(s, 1);
    lemma_body_comps_plain(s, 0);
}

/// Normalizing components that name only plain names keeps only plain names.
proof fn lemma_fold_plain(cs: Seq<PathPart>)
    requires
        forall|j: int| 0 <= j < cs.len() ==> part_plain(#[trigger] cs[j]),
    ensures
        forall|k: int| 0 <= k < norm_fold(cs).1.len() ==> plain_name(#[trigger] norm_fold(cs).1[k]),
    decreases cs.len(),
{
    if cs.len() > 0 {
        let init = cs.drop_last();
        assert forall|j: int| 0 <= j < init.len() implies part_plain(#[trigger] init[j]) by {
            assert(init[j] == cs[j]);
        }
        lemma_fold_plain(init);
        let prev = norm_fold(init);
        let last = cs[cs.len() - 1];
        assert(part_plain(last));
        assert(norm_fold(cs) == norm_step(prev, last));
        assert forall|k: int| 0 <= k < norm_fold(cs).1.len() implies plain_name(
            #[trigger] norm_fold(cs).1[k],
        ) by {
            match last {
                PathPart::ParentDir => {
                    if prev.1.len() > 0 {
                        assert(norm_fold(cs).1[k] == prev.1[k]);
                    }
                },
                PathPart::Normal(n) => {
                    if k < prev.1.len() {
                        assert(norm_fold(cs).1[k] == prev.1[k]);
                    }
                },
                _ => {},
            }
        }
    }
}

/// Joining names with `/` puts the first name in front of the rest.
proof fn lemma_join_front(n: Seq<Seq<char>>)
    requires
        n.len() >= 2,
    ensures
        crate::text::join_with(n, seq!['/']) == n[0] + seq!['/'] + crate::text::join_with(
            n.skip(1),
            seq!['/'],
        ),
    decreases n.len(),
{
    let sep = seq!['/'];
    if n.len() == 2 {
        assert(n.drop_last().len() == 1);
        assert(n.skip(1).len() == 1);
        assert(crate::text::join_with(n.drop_last(), sep) == n[0]);
        assert(crate::text::join_with(n.skip(1), sep) == n[1]);
    } else {
        let m = n.drop_last();
        lemma_join_front(m);
        assert(m.skip(1) =~= n.skip(1).drop_last());
        assert(n.skip(1).last() == n.last());
        assert(crate::text::join_with(n.skip(1), sep) == crate::text::join_with(
            n.skip(1).drop_last(),
            sep,
        ) + sep + n.skip(1).last());
        assert(crate::text::join_with(n, sep) =~= n[0] + sep + crate::text::join_with(
            n.skip(1),
            sep,
        ));
    }
}

/// Reading back plain names joined with `/` gives the names.
proof fn lemma_body_comps_join(s: Seq<char>, i: int, n: Seq<Seq<char>>)
    requires
        0 <= i <= s.len(),
        s.subrange(i, s.len() as int) == crate::text::join_with(n, seq!['/']),
        forall|k: int| 0 <= k < n.len() ==> plain_name(#[trigger] n[k]),
    ensures
        body_comps(s, i) == name_parts(n),
    decreases n.len(),
{
    let sep = seq!['/'];
    if n.len() == 0 {
        assert(s.subrange(i, s.len() as int).len() == 0);
        assert(body_comps(s, i) =~= name_parts(n));
    } else {
        let n0 = n[0];
        assert(plain_name(n0));
        let rest = crate::text::join_with(n.skip(1), sep);
        let tail = s.subrange(i, s.len() as int);
        if n.len() == 1 {
            assert(tail == n0);
        } else {
            lemma_join_front(n);
            assert(tail == n0 + sep + rest);
        }
        let e = i + n0.len();
        assert(e <= s.len());
        assert forall|j: int| i <= j < e implies s[j] != '/' by {
            assert(tail[j - i] == s[j]);
            assert(tail[j - i] == n0[j - i]);
        }
        assert(e == s.len() || s[e] == '/') by {
            if n.len() > 1 {
                assert(tail[n0.len() as int] == s[e]);
                assert((n0 + sep + rest)[n0.len() as int] == '/');
            } else {
                assert(tail.len() == n0.len());
            }
        }
        assert(s[i] != '/');
        crate::solidity::lemma_index_of_from(s, '/', i);
        let k = crate::solidity::index_of_from(s, '/', i);
        assert(k == e) by {
            if k < e {
                assert(s[k] == '/');
            }
            if k > e {
                assert(s[e] != '/');
            }
        }
        assert(s.subrange(i, k) =~= n0) by {
            assert forall|j: int| 0 <= j < n0.len() implies s.subrange(i, k)[j] == n0[j] by {
                assert(tail[j] == s[i + j]);
            }
        }
        if n.len() == 1 {
            assert(body_comps(s, k) =~= Seq::<PathPart>::empty());
            assert(body_comps(s, i) == seq![PathPart::Normal(n0)] + body_comps(s, k));
            assert(body_comps(s, i) =~= name_parts(n));
        } else {
            assert(s[k] == '/');
            assert(body_comps(s, k) == body_comps(s, k + 1));
            assert(s.subrange(k + 1, s.len() as int) =~= rest) by {
                assert forall|j: int| 0 <= j < rest.len() implies s.subrange(
                    k + 1,
                    s.len() as int,
                )[j] == rest[j] by {
                    assert(tail[n0.len() + 1 + j] == s[k + 1 + j]);
                    assert((n0 + sep + rest)[n0.len() + 1 + j] == rest[j]);
                }
                assert(tail.len() == n0.len() + 1 + rest.len());
            }
            assert forall|k2: int| 0 <= k2 < n.skip(1).len() implies plain_name(
                #[trigger] n.skip(1)[k2],
            ) by {
                assert(n.skip(1)[k2] == n[k2 + 1]);
            }
            lemma_body_comps_join(s, k + 1, n.skip(1));
            assert(body_comps(s, i) == seq![PathPart::Normal(n0)] + body_comps(s, k));
            assert(body_comps(s, i) =~= name_parts(n));
        }
    }
}

/// Normalizing components followed by names appends the names.
proof fn lemma_fold_names(pre: Seq<PathPart>, n: Seq<Seq<char>>)
    ensures
        norm_fold(pre + name_parts(n)) == (norm_fold(pre).0, norm_fold(pre).1 + n),
    decreases n.len(),
{
    if n.len() == 0 {
        assert(pre + name_parts(n) =~= pre);
        assert(norm_fold(pre).1 + n =~= norm_fold(pre).1);
    } else {
        let m = n.drop_last();
        lemma_fold_names(pre, m);
        let x = pre + name_parts(m);
        assert(pre + name_parts(n) =~= x.push(PathPart::Normal(n.last())));
        assert(x.push(PathPart::Normal(n.last())).drop_last() =~= x);
        assert(norm_fold(pre).1 + n =~= (norm_fold(pre).1 + m).push(n.last()));
    }
}

/// The components of the text of normalized names are the names, after a
/// root where the path is rooted.
proof fn lemma_render_components(st: (bool, Seq<Seq<char>>))
    requires
        forall|k: int| 0 <= k < st.1.len() ==> plain_name(#[trigger] st.1[k]),
    ensures
        path_components(render_path(st)) == if st.0 {
            seq![PathPart::RootDir] + name_parts(st.1)
        } else {
            name_parts(st.1)
        },
{
    let sep = seq!['/'];
    let body = crate::text::join_with(st.1, sep);
    let r = render_path(st);
    if st.0 {
        assert(r[0] == '/');
        assert(r.subrange(1, r.len() as int) =~= body);
        lemma_body_comps_join(r, 1, st.1);
    } else if st.1.len() == 0 {
        assert(r.len() == 0);
        assert(path_components(r) =~= name_parts(st.1));
    } else {
        let n0 = st.1[0];
        assert(plain_name(n0));
        if st.1.len() >= 2 {
            lemma_join_front(st.1);
            assert(r == n0 + sep + crate::text::join_with(st.1.skip(1), sep));
        } else {
            assert(r == n0);
        }
        assert(r[0] == n0[0]);
        assert(r[0] != '/');
        assert(body_start(r) == 0) by {
            if r[0] == '.' {
                if n0.len() == 1 {
                    assert(n0 =~= seq!['.']);
                }
                assert(n0.len() >= 2);
                assert(r[1] == n0[1]);
            }
        }
        assert(r.subrange(0, r.len() as int) =~= r);
        lemma_body_comps_join(r, 0, st.1);
    }
}

/// Normalizing a path leaves no `.` or `..` component in it, keeps whether it
/// is rooted, and normalizing the result again changes nothing.
pub proof fn law_normalize_path(s: Seq<char>)
    ensures
        forall|j: int|
            0 <= j < path_components(normalized_path(s)).len() ==> !is_dot_part(
                #[trigger] path_components(normalized_path(s))[j],
            ),
        normalized_path(normalized_path(s)) == normalized_path(s),
{
    let st = norm_fold(path_components(s));
    lemma_components_plain(s);
    lemma_fold_plain(path_components(s));
    lemma_render_components(st);
    let r = normalized_path(s);
    if st.0 {
        let pre = seq![PathPart::RootDir];
        assert(pre.drop_last() =~= Seq::<PathPart>::empty());
        assert(norm_fold(pre) == (true, Seq::<Seq<char>>::empty()));
        lemma_fold_names(pre, st.1);
        assert(Seq::<Seq<char>>::empty() + st.1 =~= st.1);
    } else {
        let pre = Seq::<PathPart>::empty();
        lemma_fold_names(pre, st.1);
        assert(pre + name_parts(st.1) =~= name_parts(st.1));
        assert(Seq::<Seq<char>>::empty() + st.1 =~= st.1);
    }
}

} // verus!
