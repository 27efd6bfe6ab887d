//! Paths as plain strings: absolute, `/`-separated. The helpers here give
//! the path operations the resolution logic needs, with their meanings
//! stated over `Seq<char>` views.
use vstd::prelude::*;
use crate::strutil::{rfind_char, starts_with, str_eq, str_starts_with};

verus! {

/// The parent directory of `p`: everything before the last `/`, with the
/// lone `/` kept when the parent is the filesystem root. `None` when `p`
/// holds no separator or is the root itself.
pub open spec fn spec_parent(p: Seq<char>) -> Option<Seq<char>> {
    if exists|i: int| 0 <= i < p.len() && p[i] == '/' {
        let i = last_sep_index(p);
        if i == 0 {
            if p.len() > 1 {
                Some(seq!['/'])
            } else {
                None
            }
        } else {
            Some(p.take(i))
        }
    } else {
        None
    }
}

/// The index of the last `/` in `p`; meaningful only when one exists.
pub open spec fn last_sep_index(p: Seq<char>) -> int {
    choose|i: int| 0 <= i < p.len() && p[i] == '/' && (forall|j: int| i < j < p.len() ==> p[j] != '/')
}

/// When a separator occurs at all, a last one exists.
pub proof fn lemma_last_sep_exists(p: Seq<char>)
    requires
        exists|i: int| 0 <= i < p.len() && p[i] == '/',
    ensures
        0 <= last_sep_index(p) < p.len(),
        p[last_sep_index(p)] == '/',
        forall|j: int| last_sep_index(p) < j < p.len() ==> p[j] != '/',
    decreases p.len(),
{
    let w = choose|i: int| 0 <= i < p.len() && p[i] == '/';
    if p[p.len() - 1] == '/' {
        let i = p.len() - 1;
        assert(0 <= i < p.len() && p[i] == '/' && (forall|j: int| i < j < p.len() ==> p[j] != '/'));
    } else {
        let q = p.take(p.len() - 1);
        assert(q[w] == '/');
        lemma_last_sep_exists(q);
        let i = last_sep_index(q);
        assert(p[i] == '/');
        assert forall|j: int| i < j < p.len() implies p[j] != '/' by {
            if j < p.len() - 1 {
                assert(q[j] != '/');
            }
        }
        assert(0 <= i < p.len() && p[i] == '/' && (forall|j: int| i < j < p.len() ==> p[j] != '/'));
    }
}

/// Executable parent computation.
pub fn path_parent(p: &str) -> (r: Option<String>)
    ensures
        match r {
            Some(t) => spec_parent(p@) == Some(t@),
            None => spec_parent(p@) is None,
        },
{
    match rfind_char(p, '/') {
        None => {
            proof {
                assert(forall|i: int| 0 <= i < p@.len() ==> p@[i] != '/');
            }
            None
        },
        Some(i) => {
            proof {
                lemma_last_sep_exists(p@);
                let li = last_sep_index(p@);
                assert(li == i) by {
                    if li < i {
                        assert(p@[i as int] == '/');
                    }
                    if li > i {
                        assert(p@[li] == '/');
                    }
                }
            }
            if i == 0 {
                if p.unicode_len() > 1 {
                    let root = "/";
                    proof {
                        reveal_strlit("/");
                        assert(root@ =~= seq!['/']);
                    }
                    Some(root.to_owned())
                } else {
                    None
                }
            } else {
                let t = p.substring_char(0, i);
                proof {
                    assert(t@ =~= p@.take(i as int));
                }
                Some(t.to_owned())
            }
        },
    }
}

/// The final component of `p`: everything after the last `/`, or all of
/// `p` when it has none. Empty when `p` ends with a `/`.
pub open spec fn spec_file_name(p: Seq<char>) -> Seq<char> {
    if exists|i: int| 0 <= i < p.len() && p[i] == '/' {
        p.skip(last_sep_index(p) + 1)
    } else {
        p
    }
}

/// Executable final-component computation.
pub fn path_file_name(p: &str) -> (r: String)
    ensures
        r@ == spec_file_name(p@),
{
    match rfind_char(p, '/') {
        None => {
            proof {
                assert(forall|i: int| 0 <= i < p@.len() ==> p@[i] != '/');
            }
            p.to_owned()
        },
        Some(i) => {
            proof {
                lemma_last_sep_exists(p@);
                let li = last_sep_index(p@);
                assert(li == i) by {
                    if li < i {
                        assert(p@[i as int] == '/');
                    }
                    if li > i {
                        assert(p@[li] == '/');
                    }
                }
            }
            let n = p.unicode_len();
            let t = p.substring_char(i + 1, n);
            proof {
                assert(t@ =~= p@.skip(i + 1));
            }
            t.to_owned()
        },
    }
}

/// `dir` and `name` joined with a `/`, without doubling one when `dir`
/// already ends with it.
pub open spec fn spec_join(dir: Seq<char>, name: Seq<char>) -> Seq<char> {
    if dir.len() > 0 && dir[dir.len() - 1] == '/' {
        dir + name
    } else {
        dir + seq!['/'] + name
    }
}

/// Executable path join.
pub fn path_join(dir: &str, name: &str) -> (r: String)
    ensures
        r@ == spec_join(dir@, name@),
{
    let n = dir.unicode_len();
    if n > 0 && dir.get_char(n - 1) == '/' {
        let r = dir.to_owned().concat(name);
        r
    } else {
        let sep = "/";
        proof {
            reveal_strlit("/");
            assert(sep@ =~= seq!['/']);
        }
        let r = dir.to_owned().concat(sep).concat(name);
        r
    }
}

/// `p` lies at or below the directory `anc`: either equal to it, or an
/// extension of it across a component boundary.
pub open spec fn spec_is_under(p: Seq<char>, anc: Seq<char>) -> bool {
    p == anc || (starts_with(p, anc) && anc.len() > 0 && (anc[anc.len() - 1] == '/' || (p.len()
        > anc.len() && p[anc.len() as int] == '/')))
}

/// Executable ancestor-or-equal test.
pub fn path_is_under(p: &str, anc: &str) -> (r: bool)
    ensures
        r == spec_is_under(p@, anc@),
{
    if str_eq(p, anc) {
        return true;
    }
    if !str_starts_with(p, anc) {
        return false;
    }
    let alen = anc.unicode_len();
    if alen == 0 {
        return false;
    }
    if anc.get_char(alen - 1) == '/' {
        return true;
    }
    if p.unicode_len() > alen && p.get_char(alen) == '/' {
        return true;
    }
    false
}

/// Lying at or below a directory is reflexive.
pub proof fn lemma_under_self(p: Seq<char>)
    ensures
        spec_is_under(p, p),
{
}

/// Lying at or below a directory is transitive.
pub proof fn lemma_under_trans(c: Seq<char>, b: Seq<char>, a: Seq<char>)
    requires
        spec_is_under(c, b),
        spec_is_under(b, a),
    ensures
        spec_is_under(c, a),
{
    if c == b || b == a {
    } else {
        if b.len() == a.len() {
            assert(b =~= a);
        }
        if c.len() == b.len() {
            assert(c =~= b);
        }
        assert(a.len() < b.len() && b.len() < c.len());
        assert((c.subrange(0, b.len() as int)).subrange(0, a.len() as int) =~= c.subrange(
            0,
            a.len() as int,
        ));
        assert(starts_with(c, a));
        if a[a.len() - 1] != '/' {
            assert(b[a.len() as int] == '/');
            assert(c.subrange(0, b.len() as int)[a.len() as int] == c[a.len() as int]);
        }
    }
}

/// A strict descendant of a directory has a parent, the parent still
/// lies at or below the directory, and the descendant lies below its
/// parent. The directory must not end with a separator.
pub proof fn lemma_under_parent(d: Seq<char>, w: Seq<char>)
    requires
        spec_is_under(d, w),
        d != w,
        w.len() > 0,
        w[w.len() - 1] != '/',
    ensures
        spec_parent(d) is Some,
        spec_is_under(spec_parent(d).unwrap(), w),
        spec_is_under(d, spec_parent(d).unwrap()),
{
    if d.len() == w.len() {
        assert(d =~= w);
    }
    assert(d.len() > w.len());
    assert(d.subrange(0, w.len() as int)[w.len() - 1] == d[w.len() - 1]);
    assert(d[w.len() as int] == '/');
    assert(exists|i: int| 0 <= i < d.len() && d[i] == '/');
    lemma_last_sep_exists(d);
    let li = last_sep_index(d);
    assert(w.len() <= li) by {
        if li < w.len() as int {
            assert(d[w.len() as int] != '/');
        }
    }
    let p = d.take(li);
    assert(spec_parent(d) == Some(p));
    assert(p.subrange(0, w.len() as int) =~= d.subrange(0, w.len() as int));
    assert(starts_with(p, w));
    if p.len() == w.len() {
        assert(p =~= w);
    } else {
        assert(p[w.len() as int] == d[w.len() as int]);
    }
    assert(spec_is_under(p, w));
    assert(d.subrange(0, li) =~= p);
    assert(starts_with(d, p));
    assert(d[p.len() as int] == '/');
    assert(spec_is_under(d, p));
}

} // verus!
