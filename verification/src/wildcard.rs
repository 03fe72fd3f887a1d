//! Glob-style wildcard matching for access-control and routing masks:
//! `?` matches exactly one character, `*` any run of characters.

use vstd::prelude::*;
use vstd::string::*;

verus! {

/// Glob semantics, character by character: an empty pattern matches
/// only the empty subject; `*` matches zero or more characters; `?`
/// matches exactly one; anything else matches itself. Consecutive `*`
/// collapse by construction.
pub open spec fn glob_match(p: Seq<char>, t: Seq<char>) -> bool
    decreases p.len() + t.len(),
{
    if p.len() == 0 {
        t.len() == 0
    } else if p[0] == '*' {
        glob_match(p.skip(1), t) || (t.len() > 0 && glob_match(p, t.skip(1)))
    } else if t.len() == 0 {
        false
    } else {
        (p[0] == '?' || p[0] == t[0]) && glob_match(p.skip(1), t.skip(1))
    }
}

/// A `*`-free pattern matches a same-length prefix of the subject when
/// each of its characters is `?` or equals the subject's character.
pub open spec fn prefix_match(p: Seq<char>, t: Seq<char>) -> bool {
    p.len() <= t.len() && (forall|i: int| 0 <= i < p.len() ==> p[i] == '?' || p[i] == t[i])
}

/// Whether `pattern` (taken literally but for `?`) matches a prefix of
/// `text` of the pattern's own length.
pub fn starts_single_wilcards(pattern: &str, text: &str) -> (r: bool)
    ensures
        r == prefix_match(pattern@, text@),
{
    let pn = pattern.unicode_len();
    let tn = text.unicode_len();
    if pn > tn {
        return false;
    }
    let mut i: usize = 0;
    while i < pn
        invariant
            pn == pattern@.len(),
            tn == text@.len(),
            pn <= tn,
            i <= pn,
            forall|j: int| 0 <= j < i ==> pattern@[j] == '?' || pattern@[j] == text@[j],
        decreases pn - i,
    {
        let c = pattern.get_char(i);
        if c != '?' && c != text.get_char(i) {
            return false;
        }
        i += 1;
    }
    true
}

/// The characters of `s`, as a vector.
fn str_chars(s: &str) -> (r: Vec<char>)
    ensures
        r@ == s@,
{
    let n = s.unicode_len();
    let mut r: Vec<char> = Vec::new();
    let mut i: usize = 0;
    while i < n
        invariant
            n == s@.len(),
            i <= n,
            r@ == s@.take(i as int),
        decreases n - i,
    {
        r.push(s.get_char(i));
        proof {
            assert(r@ =~= s@.take(i as int + 1));
        }
        i += 1;
    }
    proof {
        assert(s@.take(n as int) =~= s@);
    }
    r
}

/// Whether `text` matches the glob `pattern`. The match table is
/// filled from the shortest suffixes upward, so the run time is
/// bounded by the product of the two lengths.
pub fn match_wildcard(pattern: &str, text: &str) -> (r: bool)
    ensures
        r == glob_match(pattern@, text@),
{
    let p = str_chars(pattern);
    let t = str_chars(text);
    let pn = p.len();
    let tn = t.len();
    // Row for the empty pattern suffix: only the empty subject suffix
    // matches.
    let mut prev: Vec<bool> = Vec::new();
    let mut j: usize = 0;
    while j < tn
        invariant
            tn == t@.len(),
            j <= tn,
            prev@.len() == j,
            forall|j2: int| 0 <= j2 < j ==> prev@[j2] == false,
        decreases tn - j,
    {
        prev.push(false);
        j += 1;
    }
    prev.push(true);
    proof {
        assert forall|j2: int| 0 <= j2 <= tn implies prev@[j2] == glob_match(
            p@.skip(pn as int),
            t@.skip(j2),
        ) by {
            assert(p@.skip(pn as int).len() == 0);
            assert(t@.skip(j2).len() == t@.len() - j2);
        }
    }
    let rn = prev.len();
    let mut ip: usize = pn;
    while ip > 0
        invariant
            pn == p@.len(),
            tn == t@.len(),
            p@ == pattern@,
            t@ == text@,
            ip <= pn,
            rn == tn + 1,
            prev@.len() == rn,
            forall|j2: int|
                0 <= j2 <= tn ==> prev@[j2] == glob_match(p@.skip(ip as int), t@.skip(j2)),
        decreases ip,
    {
        ip -= 1;
        let c = p[ip];
        let ghost psuf = p@.skip(ip as int);
        proof {
            assert(psuf[0] == p@[ip as int]);
            assert(psuf.skip(1) =~= p@.skip(ip as int + 1));
        }
        let mut cur: Vec<bool> = vec![false; rn];
        if c == '*' {
            let mut jj: usize = rn;
            while jj > 0
                invariant
                    pn == p@.len(),
                    tn == t@.len(),
                    ip < pn,
                    rn == tn + 1,
                    jj <= rn,
                    cur@.len() == rn,
                    prev@.len() == rn,
                    psuf == p@.skip(ip as int),
                    p@[ip as int] == '*',
                    forall|j2: int|
                        0 <= j2 <= tn ==> prev@[j2] == glob_match(
                            p@.skip(ip as int + 1),
                            t@.skip(j2),
                        ),
                    forall|j2: int|
                        jj <= j2 <= tn ==> cur@[j2] == glob_match(psuf, t@.skip(j2)),
                decreases jj,
            {
                jj -= 1;
                proof {
                    assert(psuf[0] == p@[ip as int]);
                    assert(psuf.skip(1) =~= p@.skip(ip as int + 1));
                    assert(t@.skip(jj as int).len() == t@.len() - jj);
                    if jj < tn {
                        assert(t@.skip(jj as int).skip(1) =~= t@.skip(jj as int + 1));
                    }
                }
                let val: bool = if jj == tn {
                    prev[jj]
                } else {
                    prev[jj] || cur[jj + 1]
                };
                cur[jj] = val;
            }
            prev = cur;
        } else {
            let mut jj: usize = 0;
            while jj < rn
                invariant
                    pn == p@.len(),
                    tn == t@.len(),
                    t@ == text@,
                    ip < pn,
                    rn == tn + 1,
                    jj <= rn,
                    cur@.len() == rn,
                    prev@.len() == rn,
                    psuf == p@.skip(ip as int),
                    p@[ip as int] == c,
                    c != '*',
                    c == p@[ip as int],
                    forall|j2: int|
                        0 <= j2 <= tn ==> prev@[j2] == glob_match(
                            p@.skip(ip as int + 1),
                            t@.skip(j2),
                        ),
                    forall|j2: int| 0 <= j2 < jj ==> cur@[j2] == glob_match(psuf, t@.skip(j2)),
                decreases rn - jj,
            {
                proof {
                    assert(psuf[0] == p@[ip as int]);
                    assert(psuf.skip(1) =~= p@.skip(ip as int + 1));
                    assert(t@.skip(jj as int).len() == t@.len() - jj);
                    if jj < tn {
                        assert(t@.skip(jj as int)[0] == t@[jj as int]);
                        assert(t@.skip(jj as int).skip(1) =~= t@.skip(jj as int + 1));
                    }
                }
                let val: bool = if jj < tn {
                    (c == '?' || c == t[jj]) && prev[jj + 1]
                } else {
                    false
                };
                cur[jj] = val;
                jj += 1;
            }
            prev = cur;
        }
    }
    proof {
        assert(p@.skip(0) =~= p@);
        assert(t@.skip(0) =~= t@);
    }
    prev[0]
}

/// A pattern of a single `*` matches every subject.
pub proof fn lemma_star_matches_any(t: Seq<char>)
    ensures
        glob_match(seq!['*'], t),
    decreases t.len(),
{
    let p = seq!['*'];
    assert(p.len() == 1);
    assert(p[0] == '*');
    if t.len() == 0 {
        assert(p.skip(1).len() == 0);
        assert(glob_match(p.skip(1), t));
    } else {
        lemma_star_matches_any(t.skip(1));
        assert(glob_match(p, t.skip(1)));
    }
}

} // verus!
