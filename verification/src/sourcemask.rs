//! Source-mask normalization: any mask is brought to the canonical
//! `nick!user@host` shape by filling the missing components with `*`.

use vstd::prelude::*;
use vstd::string::*;

use crate::search::find_first;
use crate::validators::find_char_index;
use crate::search::lemma_find_first;
use crate::search::lemma_find_first_at;
use crate::search::lemma_find_first_contains;

verus! {

/// The normalized form of a mask: if it holds a `!`, `@*` is appended
/// only when no `@` follows that `!`; else if it holds an `@`, `!*` is
/// inserted right before it; else `!*@*` is appended.
pub open spec fn spec_normalize_sourcemask(m: Seq<char>) -> Seq<char> {
    match find_first(m, '!') {
        Some(p) => if find_first(m.skip(p + 1), '@') is Some {
            m
        } else {
            m + "@*"@
        },
        None => match find_first(m, '@') {
            Some(p2) => m.take(p2) + "!*"@ + m.skip(p2),
            None => m + "!*@*"@,
        },
    }
}

/// Brings `mask` to the canonical `nick!user@host` shape; missing
/// components become `*`.
pub fn normalize_sourcemask(mask: &str) -> (r: String)
    ensures
        r@ == spec_normalize_sourcemask(mask@),
{
    let n = mask.unicode_len();
    let mut out = String::new();
    match find_char_index(mask, '!') {
        Some(p) => {
            proof {
                lemma_find_first(mask@, '!');
            }
            out.append(mask);
            let rest = mask.substring_char(p + 1, n);
            proof {
                assert(rest@ =~= mask@.skip(p + 1));
            }
            match find_char_index(rest, '@') {
                Some(_) => {
                    proof {
                        assert(out@ =~= spec_normalize_sourcemask(mask@));
                    }
                },
                None => {
                    out.append("@*");
                    proof {
                        assert(out@ =~= spec_normalize_sourcemask(mask@));
                    }
                },
            }
        },
        None => {
            match find_char_index(mask, '@') {
                Some(p2) => {
                    proof {
                        lemma_find_first(mask@, '@');
                    }
                    out.append(mask.substring_char(0, p2));
                    out.append("!*");
                    out.append(mask.substring_char(p2, n));
                    proof {
                        assert(mask@.subrange(0, p2 as int) =~= mask@.take(p2 as int));
                        assert(mask@.subrange(p2 as int, n as int) =~= mask@.skip(p2 as int));
                        assert(out@ =~= spec_normalize_sourcemask(mask@));
                    }
                },
                None => {
                    out.append(mask);
                    out.append("!*@*");
                    proof {
                        assert(out@ =~= spec_normalize_sourcemask(mask@));
                    }
                },
            }
        },
    }
    out
}

/// A mask already of the canonical `nick!user@host` shape: exactly one
/// `!`, exactly one `@`, and the `!` precedes the `@`.
pub open spec fn canonical_sourcemask(m: Seq<char>) -> bool {
    exists|i: int, j: int|
        {
            &&& 0 <= i < j < m.len()
            &&& m[i] == '!'
            &&& m[j] == '@'
            &&& (forall|k: int| 0 <= k < m.len() && m[k] == '!' ==> k == i)
            &&& (forall|k: int| 0 <= k < m.len() && m[k] == '@' ==> k == j)
        }
}

/// Normalization is idempotent on canonical masks: a mask of exact
/// shape `nick!user@host` comes back unchanged.
pub proof fn lemma_normalize_canonical(m: Seq<char>)
    requires
        canonical_sourcemask(m),
    ensures
        spec_normalize_sourcemask(m) == m,
{
    let (i, j) = choose|i: int, j: int|
        {
            &&& 0 <= i < j < m.len()
            &&& m[i] == '!'
            &&& m[j] == '@'
            &&& (forall|k: int| 0 <= k < m.len() && m[k] == '!' ==> k == i)
            &&& (forall|k: int| 0 <= k < m.len() && m[k] == '@' ==> k == j)
        };
    assert forall|k: int| 0 <= k < i implies m[k] != '!' by {}
    lemma_find_first_at(m, '!', i);
    let t = m.skip(i + 1);
    assert(t[j - i - 1] == m[j]);
    assert(t.contains('@'));
    lemma_find_first_contains(t, '@');
}

} // verus!
