//! Pure path operations for the sandbox: joining client paths onto the
//! virtual working directory, spotting parent-directory components, and the
//! prefix test that keeps every resolved path under the server root.

use vstd::prelude::*;

verus! {

/// Whether `p` begins with the path separator.
pub open spec fn starts_with_slash(p: Seq<char>) -> bool {
    p.len() > 0 && p[0] == '/'
}

/// A client path joined onto the working directory: an absolute client path
/// replaces it, a relative one is appended behind a separator.
pub open spec fn join_virtual(cwd: Seq<char>, arg: Seq<char>) -> Seq<char> {
    if starts_with_slash(arg) {
        arg
    } else if cwd.len() > 0 && cwd.last() == '/' {
        cwd + arg
    } else {
        cwd + seq!['/'] + arg
    }
}

/// Join a client path onto the working directory.
pub fn join_paths(cwd: &str, arg: &str) -> (r: String)
    ensures
        r@ == join_virtual(cwd@, arg@),
{
    proof {
        reveal_strlit("/");
    }
    let arg_len = arg.unicode_len();
    if arg_len > 0 && arg.get_char(0) == '/' {
        return arg.to_owned();
    }
    let cwd_len = cwd.unicode_len();
    let mut r = cwd.to_owned();
    if !(cwd_len > 0 && cwd.get_char(cwd_len - 1) == '/') {
        r.append("/");
        assert(r@ =~= cwd@ + seq!['/']);
    }
    r.append(arg);
    assert(r@ =~= join_virtual(cwd@, arg@));
    r
}

/// Whether a parent-directory component starts at index `i` of `p`.
pub open spec fn dotdot_at(p: Seq<char>, i: int) -> bool {
    &&& 0 <= i
    &&& i + 1 < p.len()
    &&& p[i] == '.'
    &&& p[i + 1] == '.'
    &&& (i == 0 || p[i - 1] == '/')
    &&& (i + 2 == p.len() || p[i + 2] == '/')
}

/// Whether `p` holds a literal parent-directory component.
pub open spec fn has_dotdot(p: Seq<char>) -> bool {
    exists|i: int| #[trigger] dotdot_at(p, i)
}

/// Whether `path` holds a literal parent-directory component, which the
/// sandbox rejects before touching the filesystem.
pub fn invalid_path(path: &str) -> (r: bool)
    ensures
        r == has_dotdot(path@),
{
    let n = path.unicode_len();
    let mut i: usize = 0;
    while i < n
        invariant
            n == path@.len(),
            i <= n,
            forall|j: int| 0 <= j < i ==> !(#[trigger] dotdot_at(path@, j)),
        decreases n - i,
    {
        if i + 1 < n && path.get_char(i) == '.' && path.get_char(i + 1) == '.' && (i == 0
            || path.get_char(i - 1) == '/') && (i + 2 == n || path.get_char(i + 2) == '/') {
            assert(dotdot_at(path@, i as int));
            return true;
        }
        proof {
            assert(!dotdot_at(path@, i as int));
        }
        i += 1;
    }
    false
}

/// The index of the last separator in `p`, or `-1` if there is none.
pub open spec fn last_slash(p: Seq<char>) -> int
    decreases p.len(),
{
    if p.len() == 0 {
        -1
    } else if p.last() == '/' {
        p.len() - 1
    } else {
        last_slash(p.drop_last())
    }
}

/// `last_slash` is in range, points at a separator when there is one, and
/// nothing after it is a separator.
pub proof fn lemma_last_slash(p: Seq<char>)
    ensures
        -1 <= last_slash(p) < p.len(),
        last_slash(p) >= 0 ==> p[last_slash(p)] == '/',
        forall|i: int| last_slash(p) < i < p.len() ==> p[i] != '/',
    decreases p.len(),
{
    if p.len() == 0 {
    } else if p.last() == '/' {
    } else {
        lemma_last_slash(p.drop_last());
        assert forall|i: int| last_slash(p) < i < p.len() implies p[i] != '/' by {
            if i < p.len() - 1 {
                assert(p.drop_last()[i] == p[i]);
            }
        }
    }
}

/// The parent of a virtual path: what stands before its last separator,
/// `/` itself when the last separator is the leading one, and nothing for
/// the root or for a path without a separator.
pub open spec fn spec_parent(p: Seq<char>) -> Option<Seq<char>> {
    if p =~= seq!['/'] || last_slash(p) < 0 {
        None
    } else if last_slash(p) == 0 {
        Some(seq!['/'])
    } else {
        Some(p.subrange(0, last_slash(p)))
    }
}

/// The base name of a virtual path: what follows its last separator, if
/// that is not empty.
pub open spec fn spec_filename(p: Seq<char>) -> Option<Seq<char>> {
    if last_slash(p) < 0 || last_slash(p) == p.len() - 1 {
        None
    } else {
        Some(p.subrange(last_slash(p) + 1, p.len() as int))
    }
}

/// Find the last separator of `p`, or `p.unicode_len()` when there is none.
fn find_last_slash(p: &str) -> (r: usize)
    ensures
        last_slash(p@) >= 0 ==> r == last_slash(p@),
        last_slash(p@) < 0 ==> r == p@.len(),
{
    proof {
        lemma_last_slash(p@);
    }
    let n = p.unicode_len();
    let mut i: usize = n;
    while i > 0
        invariant
            n == p@.len(),
            i <= n,
            forall|j: int| i <= j < n ==> p@[j] != '/',
        decreases i,
    {
        i -= 1;
        if p.get_char(i) == '/' {
            proof {
                lemma_last_slash(p@);
            }
            return i;
        }
    }
    n
}

/// The parent directory of a virtual path.
pub fn get_parent(path: &str) -> (r: Option<String>)
    ensures
        (match r {
            None => spec_parent(path@) is None,
            Some(s) => spec_parent(path@) == Some(s@),
        }),
{
    proof {
        lemma_last_slash(path@);
        reveal_strlit("/");
    }
    let n = path.unicode_len();
    if n == 1 && path.get_char(0) == '/' {
        assert(path@ =~= seq!['/']);
        return None;
    }
    let ls = find_last_slash(path);
    if ls == n {
        return None;
    }
    assert(!(path@ =~= seq!['/']));
    if ls == 0 {
        let r = "/".to_owned();
        assert(r@ =~= seq!['/']);
        Some(r)
    } else {
        Some(path.substring_char(0, ls).to_owned())
    }
}

/// The base name of a virtual path.
pub fn get_filename(path: &str) -> (r: Option<String>)
    ensures
        (match r {
            None => spec_filename(path@) is None,
            Some(s) => spec_filename(path@) == Some(s@),
        }),
{
    proof {
        lemma_last_slash(path@);
    }
    let n = path.unicode_len();
    let ls = find_last_slash(path);
    if ls == n || ls + 1 == n {
        return None;
    }
    Some(path.substring_char(ls + 1, n).to_owned())
}

/// Put a leading separator on `path` if it has none.
pub fn prefix_slash(path: &mut String)
    ensures
        final(path)@ == (if starts_with_slash(old(path)@) {
            old(path)@
        } else {
            seq!['/'] + old(path)@
        }),
{
    proof {
        reveal_strlit("/");
    }
    let n = path.as_str().unicode_len();
    if !(n > 0 && path.as_str().get_char(0) == '/') {
        let mut s = "/".to_owned();
        s.append(path.as_str());
        assert(s@ =~= seq!['/'] + old(path)@);
        *path = s;
    }
}

/// Whether `p` lies under `root` component-wise: `root` itself, or `root`
/// followed by a separator.
pub open spec fn is_path_prefix(root: Seq<char>, p: Seq<char>) -> bool {
    &&& p.len() >= root.len()
    &&& p.subrange(0, root.len() as int) == root
    &&& (p.len() == root.len() || p[root.len() as int] == '/')
}

/// Whether `p` lies under `root` component-wise.
pub fn path_starts_with(p: &str, root: &str) -> (r: bool)
    ensures
        r == is_path_prefix(root@, p@),
{
    let pn = p.unicode_len();
    let rn = root.unicode_len();
    if pn < rn {
        assert(!is_path_prefix(root@, p@));
        return false;
    }
    let mut i: usize = 0;
    while i < rn
        invariant
            pn == p@.len(),
            rn == root@.len(),
            rn <= pn,
            i <= rn,
            forall|j: int| 0 <= j < i ==> p@[j] == root@[j],
        decreases rn - i,
    {
        if p.get_char(i) != root.get_char(i) {
            proof {
                if is_path_prefix(root@, p@) {
                    assert(p@.subrange(0, rn as int)[i as int] == root@[i as int]);
                }
            }
            return false;
        }
        i += 1;
    }
    if pn == rn {
        assert(p@.subrange(0, rn as int) =~= root@);
        true
    } else {
        let r = p.get_char(rn) == '/';
        proof {
            if r {
                assert(p@.subrange(0, rn as int) =~= root@);
            }
        }
        r
    }
}

/// The virtual path of `p` under `root`: `/` for `root` itself, otherwise
/// the remainder of `p`, which begins with the separator.
pub open spec fn spec_strip_root(root: Seq<char>, p: Seq<char>) -> Seq<char> {
    if p.len() == root.len() {
        seq!['/']
    } else {
        p.subrange(root.len() as int, p.len() as int)
    }
}

/// Strip the server root from a resolved path, leaving the virtual path.
pub fn strip_root(p: &str, root: &str) -> (r: String)
    requires
        is_path_prefix(root@, p@),
    ensures
        r@ == spec_strip_root(root@, p@),
{
    proof {
        reveal_strlit("/");
    }
    let pn = p.unicode_len();
    let rn = root.unicode_len();
    if pn == rn {
        let r = "/".to_owned();
        assert(r@ =~= seq!['/']);
        r
    } else {
        p.substring_char(rn, pn).to_owned()
    }
}

/// Concatenate the server root and a virtual path into a real path.
pub fn real_path(root: &str, vpath: &str) -> (r: String)
    ensures
        r@ == root@ + vpath@,
{
    let mut r = root.to_owned();
    r.append(vpath);
    r
}

} // verus!
