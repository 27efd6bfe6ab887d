//! Verified helpers over `&str` and `String`, with their meanings stated
//! over the `Seq<char>` views.
use vstd::prelude::*;

verus! {

/// `s` begins with the prefix `p`.
pub open spec fn starts_with(s: Seq<char>, p: Seq<char>) -> bool {
    p.len() <= s.len() && s.subrange(0, p.len() as int) == p
}

/// `s` ends with the suffix `p`.
pub open spec fn ends_with(s: Seq<char>, p: Seq<char>) -> bool {
    p.len() <= s.len() && s.subrange(s.len() - p.len(), s.len() as int) == p
}

/// Character-by-character string equality.
pub fn str_eq(a: &str, b: &str) -> (r: bool)
    ensures
        r == (a@ == b@),
{
    let alen = a.unicode_len();
    let blen = b.unicode_len();
    if alen != blen {
        return false;
    }
    let mut i: usize = 0;
    while i < alen
        invariant
            alen == a@.len(),
            blen == b@.len(),
            alen == blen,
            i <= alen,
            forall|j: int| 0 <= j < i ==> a@[j] == b@[j],
        decreases alen - i,
    {
        if a.get_char(i) != b.get_char(i) {
            return false;
        }
        i = i + 1;
    }
    proof {
        assert(a@ =~= b@);
    }
    true
}

/// Executable test for `starts_with`.
pub fn str_starts_with(s: &str, p: &str) -> (r: bool)
    ensures
        r == starts_with(s@, p@),
{
    let slen = s.unicode_len();
    let plen = p.unicode_len();
    if plen > slen {
        return false;
    }
    let mut i: usize = 0;
    while i < plen
        invariant
            slen == s@.len(),
            plen == p@.len(),
            plen <= slen,
            i <= plen,
            forall|j: int| 0 <= j < i ==> s@[j] == p@[j],
        decreases plen - i,
    {
        if s.get_char(i) != p.get_char(i) {
            proof {
                assert(s@[i as int] != p@[i as int]);
                assert(s@.subrange(0, p@.len() as int)[i as int] == s@[i as int]);
            }
            return false;
        }
        i = i + 1;
    }
    proof {
        assert(s@.subrange(0, p@.len() as int) =~= p@);
    }
    true
}

/// First index at which `c` occurs in `s`, if any.
pub open spec fn spec_find_char(s: Seq<char>, c: char) -> Option<int>
    decreases s.len(),
{
    if s.len() == 0 {
        None
    } else if s[0] == c {
        Some(0int)
    } else {
        match spec_find_char(s.skip(1), c) {
            Some(i) => Some(i + 1),
            None => None,
        }
    }
}

/// `spec_find_char` returns the first occurrence: in range, hits `c`, and
/// nothing before it does; `None` means `c` does not occur at all.
pub proof fn lemma_find_char_first(s: Seq<char>, c: char)
    ensures
        match spec_find_char(s, c) {
            Some(i) => 0 <= i < s.len() && s[i] == c && (forall|j: int|
                0 <= j < i ==> s[j] != c),
            None => forall|j: int| 0 <= j < s.len() ==> s[j] != c,
        },
    decreases s.len(),
{
    if s.len() == 0 {
    } else if s[0] == c {
    } else {
        lemma_find_char_first(s.skip(1), c);
        match spec_find_char(s.skip(1), c) {
            Some(i) => {
                assert(s[i + 1] == s.skip(1)[i]);
                assert forall|j: int| 0 <= j < i + 1 implies s[j] != c by {
                    if j > 0 {
                        assert(s[j] == s.skip(1)[j - 1]);
                    }
                }
            },
            None => {
                assert forall|j: int| 0 <= j < s.len() implies s[j] != c by {
                    if j > 0 {
                        assert(s[j] == s.skip(1)[j - 1]);
                    }
                }
            },
        }
    }
}

/// Executable first-occurrence search, pinned to `spec_find_char`.
pub fn find_char(s: &str, c: char) -> (r: Option<usize>)
    ensures
        match r {
            Some(i) => spec_find_char(s@, c) == Some(i as int),
            None => spec_find_char(s@, c) is None,
        },
{
    let n = s.unicode_len();
    let mut i: usize = 0;
    while i < n
        invariant
            n == s@.len(),
            i <= n,
            forall|j: int| 0 <= j < i ==> s@[j] != c,
        decreases n - i,
    {
        if s.get_char(i) == c {
            proof {
                lemma_find_char_first(s@, c);
            }
            return Some(i);
        }
        i = i + 1;
    }
    proof {
        lemma_find_char_first(s@, c);
    }
    None
}

/// `c` occurs somewhere in `s`.
pub open spec fn contains_char(s: Seq<char>, c: char) -> bool {
    exists|i: int| 0 <= i < s.len() && s[i] == c
}

/// Executable membership test for a single character.
pub fn str_contains_char(s: &str, c: char) -> (r: bool)
    ensures
        r == contains_char(s@, c),
{
    proof {
        lemma_find_char_first(s@, c);
    }
    match find_char(s, c) {
        Some(_) => true,
        None => false,
    }
}

/// The index of the last occurrence of `c`, or `None` when `c` is absent.
pub fn rfind_char(s: &str, c: char) -> (r: Option<usize>)
    ensures
        match r {
            Some(i) => i < s@.len() && s@[i as int] == c && (forall|j: int|
                i < j < s@.len() ==> s@[j] != c),
            None => forall|j: int| 0 <= j < s@.len() ==> s@[j] != c,
        },
{
    let n = s.unicode_len();
    let mut i: usize = n;
    while i > 0
        invariant
            n == s@.len(),
            i <= n,
            forall|j: int| i <= j < n ==> s@[j] != c,
        decreases i,
    {
        i = i - 1;
        if s.get_char(i) == c {
            return Some(i);
        }
    }
    None
}

/// `p` occurs as a contiguous substring of `s`.
pub open spec fn contains_substr(s: Seq<char>, p: Seq<char>) -> bool {
    exists|i: int| 0 <= i && i + p.len() <= s.len() && #[trigger] s.subrange(i, i + p.len() as int)
        == p
}

/// Executable substring search.
pub fn str_contains(s: &str, p: &str) -> (r: bool)
    ensures
        r == contains_substr(s@, p@),
{
    let n = s.unicode_len();
    let plen = p.unicode_len();
    if plen > n {
        return false;
    }
    if plen == 0 {
        proof {
            assert(s@.subrange(0, 0 + p@.len() as int) =~= p@);
        }
        return true;
    }
    let mut i: usize = 0;
    while i <= n - plen
        invariant
            n == s@.len(),
            plen == p@.len(),
            1 <= plen <= n,
            i <= n - plen + 1,
            forall|k: int| 0 <= k < i ==> #[trigger] s@.subrange(k, k + p@.len() as int) != p@,
        decreases n - i,
    {
        let piece = s.substring_char(i, i + plen);
        if str_eq(piece, p) {
            proof {
                assert(s@.subrange(i as int, i + p@.len() as int) == p@);
            }
            return true;
        }
        i = i + 1;
    }
    false
}

/// Strip `p` from the front of `s`, if it is a prefix.
pub fn strip_prefix_str<'a>(s: &'a str, p: &str) -> (r: Option<&'a str>)
    ensures
        r is Some <==> starts_with(s@, p@),
        r is Some ==> r.unwrap()@ == s@.skip(p@.len() as int),
{
    if str_starts_with(s, p) {
        let rest = s.substring_char(p.unicode_len(), s.unicode_len());
        proof {
            assert(rest@ =~= s@.skip(p@.len() as int));
        }
        Some(rest)
    } else {
        None
    }
}

/// Strip `p` from the back of `s`, if it is a suffix.
pub fn strip_suffix_str<'a>(s: &'a str, p: &str) -> (r: Option<&'a str>)
    ensures
        r is Some <==> ends_with(s@, p@),
        r is Some ==> r.unwrap()@ == s@.take(s@.len() - p@.len()),
{
    if str_ends_with(s, p) {
        let rest = s.substring_char(0, s.unicode_len() - p.unicode_len());
        proof {
            assert(rest@ =~= s@.take(s@.len() - p@.len()));
        }
        Some(rest)
    } else {
        None
    }
}

/// ASCII whitespace, the only whitespace this library trims.
pub open spec fn is_space_char(c: char) -> bool {
    c == ' ' || c == '\t' || c == '\r' || c == '\n'
}

/// `s` with leading ASCII whitespace removed.
pub open spec fn spec_trim_start(s: Seq<char>) -> Seq<char>
    decreases s.len(),
{
    if s.len() > 0 && is_space_char(s[0]) {
        spec_trim_start(s.skip(1))
    } else {
        s
    }
}

/// `s` with trailing ASCII whitespace removed.
pub open spec fn spec_trim_end(s: Seq<char>) -> Seq<char>
    decreases s.len(),
{
    if s.len() > 0 && is_space_char(s[s.len() - 1]) {
        spec_trim_end(s.take(s.len() - 1))
    } else {
        s
    }
}

/// `s` with ASCII whitespace removed from both ends.
pub open spec fn spec_trim(s: Seq<char>) -> Seq<char> {
    spec_trim_end(spec_trim_start(s))
}

proof fn lemma_trim_start_skip(s: Seq<char>, a: int)
    requires
        0 <= a <= s.len(),
        forall|j: int| 0 <= j < a ==> is_space_char(s[j]),
        a < s.len() ==> !is_space_char(s[a]),
    ensures
        spec_trim_start(s) =~= s.skip(a),
    decreases a,
{
    if a == 0 {
    } else {
        lemma_trim_start_skip(s.skip(1), a - 1);
        assert(s.skip(1).skip(a - 1) =~= s.skip(a));
    }
}

proof fn lemma_trim_end_take(s: Seq<char>, b: int)
    requires
        0 <= b <= s.len(),
        forall|j: int| b <= j < s.len() ==> is_space_char(s[j]),
        b > 0 ==> !is_space_char(s[b - 1]),
    ensures
        spec_trim_end(s) =~= s.take(b),
    decreases s.len() - b,
{
    if b == s.len() {
        if s.len() > 0 && is_space_char(s[s.len() - 1]) {
            lemma_trim_end_take(s.take(s.len() - 1), b - 1);
            assert(s.take(s.len() - 1).take(b - 1) =~= s.take(b - 1));
            assert(spec_trim_end(s) =~= s.take(b - 1));
            assert(is_space_char(s[b - 1]));
            assert(false);
        }
    } else {
        lemma_trim_end_take(s.take(s.len() - 1), b);
        assert(s.take(s.len() - 1).take(b) =~= s.take(b));
    }
}

/// Trim ASCII whitespace from both ends of `s`.
pub fn trim_ascii<'a>(s: &'a str) -> (r: &'a str)
    ensures
        r@ == spec_trim(s@),
{
    let n = s.unicode_len();
    let mut a: usize = 0;
    while a < n && is_space(s.get_char(a))
        invariant
            n == s@.len(),
            a <= n,
            forall|j: int| 0 <= j < a ==> is_space_char(s@[j]),
        decreases n - a,
    {
        a = a + 1;
    }
    proof {
        lemma_trim_start_skip(s@, a as int);
    }
    let mut b: usize = n;
    while b > a && is_space(s.get_char(b - 1))
        invariant
            n == s@.len(),
            a <= b <= n,
            forall|j: int| 0 <= j < a ==> is_space_char(s@[j]),
            a < n ==> !is_space_char(s@[a as int]),
            forall|j: int| b <= j < n ==> is_space_char(s@[j]),
        decreases b,
    {
        b = b - 1;
    }
    let r = s.substring_char(a, b);
    proof {
        let t = s@.skip(a as int);
        lemma_trim_end_take(t, b - a);
        assert(forall|j: int| 0 <= j < t.len() ==> t[j] == s@[a + j]);
        assert(r@ =~= t.take(b - a));
    }
    r
}

/// Executable form of `is_space_char`.
pub fn is_space(c: char) -> (r: bool)
    ensures
        r == is_space_char(c),
{
    c == ' ' || c == '\t' || c == '\r' || c == '\n'
}

/// Executable test for `ends_with`.
pub fn str_ends_with(s: &str, p: &str) -> (r: bool)
    ensures
        r == ends_with(s@, p@),
{
    let slen = s.unicode_len();
    let plen = p.unicode_len();
    if plen > slen {
        return false;
    }
    let off = slen - plen;
    let mut i: usize = 0;
    while i < plen
        invariant
            slen == s@.len(),
            plen == p@.len(),
            plen <= slen,
            off == slen - plen,
            i <= plen,
            forall|j: int| 0 <= j < i ==> s@[off + j] == p@[j],
        decreases plen - i,
    {
        if s.get_char(off + i) != p.get_char(i) {
            proof {
                assert(s@.subrange(s@.len() - p@.len(), s@.len() as int)[i as int]
                    == s@[off + i]);
            }
            return false;
        }
        i = i + 1;
    }
    proof {
        assert(s@.subrange(s@.len() - p@.len(), s@.len() as int) =~= p@);
    }
    true
}

/// The views of a vector of strings.
pub open spec fn views_of(v: Seq<String>) -> Seq<Seq<char>> {
    v.map_values(|t: String| t@)
}

/// Splitting on `c`: the segments between occurrences of `c`, in order.
pub open spec fn spec_split(s: Seq<char>, c: char) -> Seq<Seq<char>>
    decreases s.len(),
    via spec_split_decreases
{
    match spec_find_char(s, c) {
        None => seq![s],
        Some(i) => seq![s.take(i)] + spec_split(s.skip(i + 1), c),
    }
}

#[via_fn]
proof fn spec_split_decreases(s: Seq<char>, c: char) {
    lemma_find_char_first(s, c);
}

/// Splitting yields at least one segment.
pub proof fn lemma_split_nonempty(s: Seq<char>, c: char)
    ensures
        spec_split(s, c).len() >= 1,
{
}

/// Split `s` at every occurrence of `c`.
pub fn split_char(s: &str, c: char) -> (r: Vec<String>)
    ensures
        views_of(r@) == spec_split(s@, c),
{
    let n = s.unicode_len();
    let mut res: Vec<String> = Vec::new();
    let mut pos: usize = 0;
    proof {
        assert(s@.skip(0) =~= s@);
        assert(views_of(res@) + spec_split(s@, c) =~= spec_split(s@, c));
    }
    loop
        invariant_except_break
            spec_split(s@, c) == views_of(res@) + spec_split(s@.skip(pos as int), c),
        invariant
            n == s@.len(),
            pos <= n,
        ensures
            views_of(res@) == spec_split(s@, c),
        decreases n - pos,
    {
        let rest = s.substring_char(pos, n);
        proof {
            assert(rest@ =~= s@.skip(pos as int));
            lemma_find_char_first(rest@, c);
        }
        match find_char(rest, c) {
            Some(j) => {
                let seg = rest.substring_char(0, j).to_owned();
                proof {
                    assert(seg@ =~= rest@.take(j as int));
                    assert(rest@.skip(j + 1) =~= s@.skip(pos + j + 1));
                    assert(spec_split(s@.skip(pos as int), c) == seq![seg@] + spec_split(
                        s@.skip(pos + j + 1),
                        c,
                    ));
                }
                let ghost old_res = res@;
                res.push(seg);
                pos = pos + j + 1;
                proof {
                    assert(views_of(res@) =~= views_of(old_res).push(seg@));
                    assert(views_of(old_res) + (seq![seg@] + spec_split(s@.skip(pos as int), c))
                        =~= views_of(res@) + spec_split(s@.skip(pos as int), c));
                }
            },
            None => {
                let ghost old_res = res@;
                res.push(rest.to_owned());
                proof {
                    assert(spec_split(s@.skip(pos as int), c) == seq![rest@]);
                    assert(views_of(res@) =~= views_of(old_res) + seq![rest@]);
                    assert(views_of(old_res) + seq![rest@] =~= spec_split(s@, c));
                }
                break ;
            },
        }
    }
    res
}

/// `s` with every occurrence of the character `from` replaced by the
/// string `to`.
pub open spec fn spec_replace_char(s: Seq<char>, from: char, to: Seq<char>) -> Seq<char>
    decreases s.len(),
{
    if s.len() == 0 {
        Seq::empty()
    } else {
        (if s[0] == from {
            to
        } else {
            seq![s[0]]
        }) + spec_replace_char(s.skip(1), from, to)
    }
}

/// Replace every occurrence of the character `from` by the string `to`.
pub fn replace_char_with(s: &str, from: char, to: &str) -> (r: String)
    ensures
        r@ == spec_replace_char(s@, from, to@),
{
    let n = s.unicode_len();
    let mut out = String::new();
    let mut i: usize = 0;
    proof {
        assert(s@.skip(0) =~= s@);
        assert(out@ + spec_replace_char(s@, from, to@) =~= spec_replace_char(s@, from, to@));
    }
    while i < n
        invariant
            n == s@.len(),
            i <= n,
            spec_replace_char(s@, from, to@) == out@ + spec_replace_char(
                s@.skip(i as int),
                from,
                to@,
            ),
        decreases n - i,
    {
        let ghost rem = s@.skip(i as int);
        let ghost old_out = out@;
        let c = s.get_char(i);
        proof {
            assert(rem[0] == s@[i as int]);
            assert(rem.skip(1) =~= s@.skip(i + 1));
        }
        if c == from {
            out.append(to);
            proof {
                assert(old_out + (to@ + spec_replace_char(s@.skip(i + 1), from, to@)) =~= out@
                    + spec_replace_char(s@.skip(i + 1), from, to@));
            }
        } else {
            out.append(s.substring_char(i, i + 1));
            proof {
                assert(s@.subrange(i as int, i + 1) =~= seq![s@[i as int]]);
                assert(old_out + (seq![s@[i as int]] + spec_replace_char(s@.skip(i + 1), from, to@))
                    =~= out@ + spec_replace_char(s@.skip(i + 1), from, to@));
            }
        }
        i = i + 1;
    }
    proof {
        assert(s@.skip(n as int) =~= Seq::<char>::empty());
        assert(out@ + Seq::<char>::empty() =~= out@);
    }
    out
}

/// `s` with the leftmost, non-overlapping occurrences of `pat` replaced by
/// `rep`; an empty pattern leaves `s` unchanged.
pub open spec fn spec_replace_substr(s: Seq<char>, pat: Seq<char>, rep: Seq<char>) -> Seq<char>
    decreases s.len(),
{
    if pat.len() == 0 || s.len() < pat.len() {
        s
    } else if s.subrange(0, pat.len() as int) == pat {
        rep + spec_replace_substr(s.skip(pat.len() as int), pat, rep)
    } else {
        seq![s[0]] + spec_replace_substr(s.skip(1), pat, rep)
    }
}

/// Replace the leftmost, non-overlapping occurrences of `pat` by `rep`.
pub fn replace_substr(s: &str, pat: &str, rep: &str) -> (r: String)
    ensures
        r@ == spec_replace_substr(s@, pat@, rep@),
{
    let n = s.unicode_len();
    let plen = pat.unicode_len();
    if plen == 0 {
        return s.to_owned();
    }
    let mut out = String::new();
    let mut i: usize = 0;
    proof {
        assert(s@.skip(0) =~= s@);
        assert(out@ + spec_replace_substr(s@, pat@, rep@) =~= spec_replace_substr(s@, pat@, rep@));
    }
    while i < n
        invariant
            n == s@.len(),
            plen == pat@.len(),
            plen >= 1,
            i <= n,
            spec_replace_substr(s@, pat@, rep@) == out@ + spec_replace_substr(
                s@.skip(i as int),
                pat@,
                rep@,
            ),
        decreases n - i,
    {
        let ghost rem = s@.skip(i as int);
        let ghost old_out = out@;
        if plen <= n - i && str_eq(s.substring_char(i, i + plen), pat) {
            proof {
                assert(rem.subrange(0, pat@.len() as int) =~= s@.subrange(i as int, i + plen));
                assert(rem.skip(pat@.len() as int) =~= s@.skip(i + plen));
            }
            out.append(rep);
            i = i + plen;
            proof {
                assert(old_out + (rep@ + spec_replace_substr(s@.skip(i as int), pat@, rep@)) =~= out@
                    + spec_replace_substr(s@.skip(i as int), pat@, rep@));
            }
        } else {
            proof {
                if plen <= n - i {
                    assert(rem.subrange(0, pat@.len() as int) =~= s@.subrange(i as int, i + plen));
                }
                assert(rem.skip(1) =~= s@.skip(i + 1));
                assert(seq![rem[0]] =~= s@.subrange(i as int, i + 1));
            }
            out.append(s.substring_char(i, i + 1));
            i = i + 1;
            proof {
                assert(old_out + (seq![rem[0]] + spec_replace_substr(s@.skip(i as int), pat@, rep@))
                    =~= out@ + spec_replace_substr(s@.skip(i as int), pat@, rep@));
            }
        }
    }
    proof {
        assert(s@.skip(n as int) =~= Seq::<char>::empty());
        assert(out@ + Seq::<char>::empty() =~= out@);
    }
    out
}

/// `s` with every trailing copy of `pat` removed.
pub open spec fn spec_trim_end_matches(s: Seq<char>, pat: Seq<char>) -> Seq<char>
    decreases s.len(),
{
    if pat.len() > 0 && ends_with(s, pat) {
        spec_trim_end_matches(s.take(s.len() - pat.len()), pat)
    } else {
        s
    }
}

/// Remove every trailing copy of `pat` from `s`.
pub fn trim_end_matches_str<'a>(s: &'a str, pat: &str) -> (r: &'a str)
    ensures
        r@ == spec_trim_end_matches(s@, pat@),
{
    let plen = pat.unicode_len();
    let mut cur: &str = s;
    if plen == 0 {
        return cur;
    }
    loop
        invariant
            plen == pat@.len(),
            plen >= 1,
            spec_trim_end_matches(s@, pat@) == spec_trim_end_matches(cur@, pat@),
        ensures
            spec_trim_end_matches(s@, pat@) == cur@,
        decreases cur@.len(),
    {
        if str_ends_with(cur, pat) {
            let next = cur.substring_char(0, cur.unicode_len() - plen);
            proof {
                assert(next@ =~= cur@.take(cur@.len() - pat@.len()));
            }
            cur = next;
        } else {
            break ;
        }
    }
    cur
}

/// A string holding the separator splits into at least two segments.
pub proof fn lemma_split_contains(s: Seq<char>, c: char)
    requires
        exists|i: int| 0 <= i < s.len() && s[i] == c,
    ensures
        spec_split(s, c).len() >= 2,
{
    lemma_find_char_first(s, c);
    if spec_find_char(s, c) is None {
        let w = choose|i: int| 0 <= i < s.len() && s[i] == c;
        assert(s[w] != c);
    }
    let i = spec_find_char(s, c).unwrap();
    lemma_split_nonempty(s.skip(i + 1), c);
}

/// Removing trailing copies of `.git` never eats into a prefix that ends
/// with a path separator: no character of the suffix is a separator, so
/// each removal stops short of it.
pub proof fn lemma_trim_keeps_slash_prefix(s: Seq<char>, q: Seq<char>)
    requires
        starts_with(s, q),
        q.len() > 0,
        q[q.len() - 1] == '/',
    ensures
        starts_with(spec_trim_end_matches(s, ".git"@), q),
    decreases s.len(),
{
    reveal_strlit(".git");
    if ends_with(s, ".git"@) {
        let cut = s.len() - ".git"@.len();
        assert(q.len() <= cut) by {
            if cut < q.len() as int {
                let off = q.len() - 1 - cut;
                assert(s.subrange(s.len() - ".git"@.len(), s.len() as int)[off] == s[q.len() - 1]);
                assert(s.subrange(0, q.len() as int)[q.len() - 1] == s[q.len() - 1]);
                assert(s[q.len() - 1] == '/');
                assert(".git"@[off] == '/');
            }
        }
        let t = s.take(cut);
        assert(t.subrange(0, q.len() as int) =~= s.subrange(0, q.len() as int));
        lemma_trim_keeps_slash_prefix(t, q);
    }
}

/// ASCII lower-casing of one character.
pub open spec fn spec_lower_char(c: char) -> char {
    if 'A' <= c && c <= 'Z' {
        (((c as u8) + 32) as u8) as char
    } else {
        c
    }
}

/// ASCII lower-casing of a string.
pub open spec fn lower_seq(s: Seq<char>) -> Seq<char> {
    s.map_values(|c: char| spec_lower_char(c))
}

/// Executable ASCII lower-casing of one character.
pub fn lower_char(c: char) -> (r: char)
    ensures
        r == spec_lower_char(c),
{
    if 'A' <= c && c <= 'Z' {
        ((c as u8) + 32) as char
    } else {
        c
    }
}

/// ASCII case-insensitive string equality.
pub fn eq_ignore_ascii_case(a: &str, b: &str) -> (r: bool)
    ensures
        r == (lower_seq(a@) == lower_seq(b@)),
{
    let alen = a.unicode_len();
    let blen = b.unicode_len();
    if alen != blen {
        proof {
            assert(lower_seq(a@).len() == a@.len());
            assert(lower_seq(b@).len() == b@.len());
        }
        return false;
    }
    let mut i: usize = 0;
    while i < alen
        invariant
            alen == a@.len(),
            blen == b@.len(),
            alen == blen,
            i <= alen,
            forall|j: int| 0 <= j < i ==> spec_lower_char(a@[j]) == spec_lower_char(b@[j]),
        decreases alen - i,
    {
        if lower_char(a.get_char(i)) != lower_char(b.get_char(i)) {
            proof {
                assert(lower_seq(a@)[i as int] != lower_seq(b@)[i as int]);
            }
            return false;
        }
        i = i + 1;
    }
    proof {
        assert(lower_seq(a@) =~= lower_seq(b@));
    }
    true
}

} // verus!
