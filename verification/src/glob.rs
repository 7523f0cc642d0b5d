//! Key-pattern matching for store scans: `*` matches any run of characters,
//! every other character matches itself.

use vstd::prelude::*;

use crate::text::str_to_chars;

verus! {

/// Whether the pattern `p` matches the whole key `s`.
pub open spec fn glob_matches(p: Seq<char>, s: Seq<char>) -> bool
    decreases p.len() + s.len(),
{
    if p.len() == 0 {
        s.len() == 0
    } else if p[0] == '*' {
        glob_matches(p.drop_first(), s) || (s.len() > 0 && glob_matches(p, s.drop_first()))
    } else {
        s.len() > 0 && p[0] == s[0] && glob_matches(p.drop_first(), s.drop_first())
    }
}

fn glob_match_at(p: &Vec<char>, s: &Vec<char>, i: usize, j: usize) -> (r: bool)
    requires
        i <= p.len(),
        j <= s.len(),
    ensures
        r == glob_matches(
            p@.subrange(i as int, p@.len() as int),
            s@.subrange(j as int, s@.len() as int),
        ),
    decreases p@.len() - i + s@.len() - j,
{
    let ghost ps = p@.subrange(i as int, p@.len() as int);
    let ghost ss = s@.subrange(j as int, s@.len() as int);
    if i == p.len() {
        j == s.len()
    } else if p[i] == '*' {
        proof {
            assert(ps[0] == '*');
            assert(ps.drop_first() =~= p@.subrange(i + 1, p@.len() as int));
        }
        let r1 = glob_match_at(p, s, i + 1, j);
        if r1 {
            true
        } else if j < s.len() {
            proof {
                assert(ss.drop_first() =~= s@.subrange(j + 1, s@.len() as int));
            }
            glob_match_at(p, s, i, j + 1)
        } else {
            false
        }
    } else {
        if j < s.len() && p[i] == s[j] {
            proof {
                assert(ps[0] == p@[i as int]);
                assert(ss[0] == s@[j as int]);
                assert(ps.drop_first() =~= p@.subrange(i + 1, p@.len() as int));
                assert(ss.drop_first() =~= s@.subrange(j + 1, s@.len() as int));
            }
            glob_match_at(p, s, i + 1, j + 1)
        } else {
            proof {
                assert(ps[0] == p@[i as int]);
                if ss.len() > 0 {
                    assert(ss[0] == s@[j as int]);
                }
            }
            false
        }
    }
}

/// Whether `pattern` matches `key`, with `*` as the only wildcard.
pub fn glob_match(pattern: &str, key: &str) -> (r: bool)
    ensures
        r == glob_matches(pattern@, key@),
{
    let p = str_to_chars(pattern);
    let s = str_to_chars(key);
    proof {
        assert(p@.subrange(0, p@.len() as int) =~= pattern@);
        assert(s@.subrange(0, s@.len() as int) =~= key@);
    }
    glob_match_at(&p, &s, 0, 0)
}

} // verus!
