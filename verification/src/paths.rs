//! Path reasoning for completion candidates.
//!
//! Paths are `/`-separated character sequences, the platform-neutral form
//! completion labels use. The module derives a path's parent directory,
//! recognizes markdown files, and turns a walked path into a label relative
//! to the directory the scan started from.

use vstd::prelude::*;
use vstd::string::StrSliceExecFns;

verus! {

/// The last index in `s[0..upto)` holding `/`, or -1 when there is none.
pub open spec fn last_slash_upto(s: Seq<char>, upto: int) -> int
    recommends
        0 <= upto <= s.len(),
    decreases upto,
{
    if upto <= 0 {
        -1
    } else if s[upto - 1] == '/' {
        upto - 1
    } else {
        last_slash_upto(s, upto - 1)
    }
}

/// The last index of `/` in the path, or -1 when there is none.
pub open spec fn last_slash_index(s: Seq<char>) -> int {
    last_slash_upto(s, s.len() as int)
}

proof fn lemma_last_slash_is(s: Seq<char>, upto: int, j: int)
    requires
        0 <= upto <= s.len(),
        -1 <= j < upto,
        j >= 0 ==> s[j] == '/',
        forall|k: int| j < k < upto ==> s[k] != '/',
    ensures
        last_slash_upto(s, upto) == j,
    decreases upto,
{
    if upto > 0 && j < upto - 1 {
        lemma_last_slash_is(s, upto - 1, j);
    }
}

/// The parent of a path: the text before the last `/`, or `/` alone when
/// that slash leads the path. A path without `/`, and the bare root `/`,
/// have no parent.
pub open spec fn parent_of(s: Seq<char>) -> Option<Seq<char>> {
    let j = last_slash_index(s);
    if j < 0 {
        None
    } else if j == 0 {
        if s.len() == 1 {
            None
        } else {
            Some(seq!['/'])
        }
    } else {
        Some(s.take(j))
    }
}

fn rfind_slash(path: &str, n: usize) -> (r: Option<usize>)
    requires
        n == path@.len(),
    ensures
        match r {
            Some(j) => j < n && last_slash_index(path@) == j,
            None => last_slash_index(path@) == -1,
        },
{
    let mut i = n;
    while i > 0 && path.get_char(i - 1) != '/'
        invariant
            i <= n,
            n == path@.len(),
            forall|k: int| i <= k < n ==> path@[k] != '/',
        decreases i,
    {
        i = i - 1;
    }
    if i == 0 {
        proof {
            lemma_last_slash_is(path@, n as int, -1);
        }
        None
    } else {
        proof {
            lemma_last_slash_is(path@, n as int, i - 1);
        }
        Some(i - 1)
    }
}

/// The parent directory of a `/`-separated path, per [`parent_of`].
pub fn parent_dir(path: &str) -> (r: Option<String>)
    ensures
        match r {
            Some(p) => parent_of(path@) == Some(p@),
            None => parent_of(path@) is None,
        },
{
    let n = path.unicode_len();
    let found = rfind_slash(path, n);
    match found {
        None => None,
        Some(j) => {
            if j == 0 {
                if n == 1 {
                    None
                } else {
                    let root = "/";
                    proof {
                        reveal_strlit("/");
                        assert(root@ =~= seq!['/']);
                    }
                    Some(root.to_owned())
                }
            } else {
                let p = path.substring_char(0, j);
                proof {
                    assert(p@ =~= path@.take(j as int));
                }
                Some(p.to_owned())
            }
        }
    }
}

/// The file name of a path: the text after the last `/`, or the whole path.
pub open spec fn file_name_of(s: Seq<char>) -> Seq<char> {
    s.skip(last_slash_index(s) + 1)
}

/// Whether a path names a markdown file: its file name ends in `.md` with a
/// nonempty stem, so `.md` alone does not qualify.
pub open spec fn is_markdown_path(s: Seq<char>) -> bool {
    let f = file_name_of(s);
    f.len() > 3 && f[f.len() - 3] == '.' && f[f.len() - 2] == 'm' && f[f.len() - 1] == 'd'
}

/// Whether the path names a markdown file, per [`is_markdown_path`].
pub fn is_markdown_file(path: &str) -> (r: bool)
    ensures
        r == is_markdown_path(path@),
{
    let n = path.unicode_len();
    let found = rfind_slash(path, n);
    let start = match found {
        Some(j) => j + 1,
        None => 0,
    };
    proof {
        let f = file_name_of(path@);
        assert(f =~= path@.subrange(start as int, n as int));
    }
    if n - start > 3 {
        let dot = path.get_char(n - 3);
        let em = path.get_char(n - 2);
        let dee = path.get_char(n - 1);
        dot == '.' && em == 'm' && dee == 'd'
    } else {
        false
    }
}

/// The label a walked path gets, relative to the scan root: the root and one
/// separating `/` removed (the root `/` itself already ends in the
/// separator). `None` when the path does not lie under the root.
pub open spec fn rel_label(root: Seq<char>, path: Seq<char>) -> Option<Seq<char>> {
    if root.len() > 0 && root.last() == '/' {
        if path.len() > root.len() && path.take(root.len() as int) == root {
            Some(path.skip(root.len() as int))
        } else {
            None
        }
    } else {
        if path.len() > root.len() + 1 && path.take(root.len() as int) == root && path[
            root.len() as int
        ] == '/' {
            Some(path.skip(root.len() + 1int))
        } else {
            None
        }
    }
}

fn has_prefix(path: &str, root: &str, np: usize, nr: usize) -> (r: bool)
    requires
        np == path@.len(),
        nr == root@.len(),
        nr <= np,
    ensures
        r == (path@.take(root@.len() as int) == root@),
{
    let mut i: usize = 0;
    while i < nr
        invariant
            i <= nr <= np,
            np == path@.len(),
            nr == root@.len(),
            forall|k: int| 0 <= k < i ==> path@[k] == root@[k],
        decreases nr - i,
    {
        if path.get_char(i) != root.get_char(i) {
            proof {
                assert(path@.take(root@.len() as int)[i as int] != root@[i as int]);
            }
            return false;
        }
        i = i + 1;
    }
    proof {
        assert(path@.take(root@.len() as int) =~= root@);
    }
    true
}

/// The relative label of a walked path, per [`rel_label`].
pub fn relative_label(root: &str, path: &str) -> (r: Option<String>)
    ensures
        match r {
            Some(l) => rel_label(root@, path@) == Some(l@),
            None => rel_label(root@, path@) is None,
        },
{
    let np = path.unicode_len();
    let nr = root.unicode_len();
    let root_ends_slash = nr > 0 && root.get_char(nr - 1) == '/';
    if root_ends_slash {
        if np > nr && has_prefix(path, root, np, nr) {
            let l = path.substring_char(nr, np);
            proof {
                assert(l@ =~= path@.skip(root@.len() as int));
            }
            Some(l.to_owned())
        } else {
            None
        }
    } else {
        if np > nr && np - nr > 1 && has_prefix(path, root, np, nr) && path.get_char(nr) == '/' {
            let l = path.substring_char(nr + 1, np);
            proof {
                assert(l@ =~= path@.skip(root@.len() + 1int));
            }
            Some(l.to_owned())
        } else {
            None
        }
    }
}

} // verus!
