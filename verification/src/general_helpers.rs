//! Slug derivation for board names, and the wall-clock reading used to
//! timestamp posts.

use vstd::prelude::*;

use crate::text::str_to_chars;
use crate::text::chars_to_string;

verus! {

/// The four ASCII whitespace characters the slug scheme replaces.
pub open spec fn is_ws(c: char) -> bool {
    c == ' ' || c == '\r' || c == '\n' || c == '\t'
}

/// The Unicode `White_Space` characters, the set `str::trim` removes:
/// TAB..CR, space, NEL, no-break space, ogham space mark, the en-quad..hair
/// space range, the line and paragraph separators, the narrow no-break
/// space, the medium mathematical space, and the ideographic space.
pub open spec fn is_trim_ws(c: char) -> bool {
    (9 <= c as u32 <= 13) || c as u32 == 32 || c as u32 == 0x85 || c as u32 == 0xA0 || c as u32
        == 0x1680 || (0x2000 <= c as u32 <= 0x200A) || c as u32 == 0x2028 || c as u32 == 0x2029
        || c as u32 == 0x202F || c as u32 == 0x205F || c as u32 == 0x3000
}

/// A whitespace character becomes an underscore; anything else is kept.
pub open spec fn map_ws(c: char) -> char {
    if is_ws(c) {
        '_'
    } else {
        c
    }
}

/// `s` with leading whitespace removed.
pub open spec fn trim_front(s: Seq<char>) -> Seq<char>
    decreases s.len(),
{
    if s.len() > 0 && is_trim_ws(s[0]) {
        trim_front(s.drop_first())
    } else {
        s
    }
}

/// `s` with trailing whitespace removed.
pub open spec fn trim_back(s: Seq<char>) -> Seq<char>
    decreases s.len(),
{
    if s.len() > 0 && is_trim_ws(s.last()) {
        trim_back(s.drop_last())
    } else {
        s
    }
}

/// `s` with leading and trailing whitespace removed.
pub open spec fn trimmed(s: Seq<char>) -> Seq<char> {
    trim_back(trim_front(s))
}

/// Every character sent through `map_ws`.
pub open spec fn mapped_ws(s: Seq<char>) -> Seq<char> {
    Seq::new(s.len(), |i: int| map_ws(s[i]))
}

/// The slug of a human-readable name: trim all leading and trailing
/// whitespace, then replace each remaining space, CR, LF or TAB with an
/// underscore.
pub open spec fn slug_of(s: Seq<char>) -> Seq<char> {
    mapped_ws(trimmed(s))
}

proof fn lemma_trim_front_idx(s: Seq<char>, i: int)
    requires
        0 <= i <= s.len(),
        forall|j: int| 0 <= j < i ==> is_trim_ws(s[j]),
        i == s.len() || !is_trim_ws(s[i]),
    ensures
        trim_front(s) == s.subrange(i, s.len() as int),
    decreases i,
{
    if i == 0 {
        assert(s.subrange(0, s.len() as int) =~= s);
    } else {
        assert(is_trim_ws(s[0]));
        lemma_trim_front_idx(s.drop_first(), i - 1);
        assert(s.drop_first().subrange(i - 1, s.drop_first().len() as int) =~= s.subrange(
            i,
            s.len() as int,
        ));
    }
}

proof fn lemma_trim_back_idx(s: Seq<char>, e: int)
    requires
        0 <= e <= s.len(),
        forall|j: int| e <= j < s.len() ==> is_trim_ws(s[j]),
        e == 0 || !is_trim_ws(s[e - 1]),
    ensures
        trim_back(s) == s.subrange(0, e),
    decreases s.len() - e,
{
    if e == s.len() {
        if s.len() > 0 && is_trim_ws(s.last()) {
            assert(!is_trim_ws(s[e - 1]));
            assert(false);
        }
        assert(s.subrange(0, e) =~= s);
    } else {
        assert(is_trim_ws(s.last()));
        lemma_trim_back_idx(s.drop_last(), e);
        assert(s.drop_last().subrange(0, e) =~= s.subrange(0, e));
    }
}

proof fn lemma_trim_front_first(s: Seq<char>)
    ensures
        trim_front(s).len() > 0 ==> !is_trim_ws(trim_front(s)[0]),
    decreases s.len(),
{
    if s.len() > 0 && is_trim_ws(s[0]) {
        lemma_trim_front_first(s.drop_first());
    }
}

proof fn lemma_trim_back_prefix(s: Seq<char>)
    ensures
        trim_back(s).len() <= s.len(),
        forall|i: int| 0 <= i < trim_back(s).len() ==> trim_back(s)[i] == s[i],
        trim_back(s).len() > 0 ==> !is_trim_ws(trim_back(s).last()),
    decreases s.len(),
{
    if s.len() > 0 && is_trim_ws(s.last()) {
        lemma_trim_back_prefix(s.drop_last());
        assert forall|i: int| 0 <= i < trim_back(s).len() implies trim_back(s)[i] == s[i] by {
            assert(trim_back(s)[i] == s.drop_last()[i]);
            assert(s.drop_last()[i] == s[i]);
        }
    }
}

fn is_ws_exec(c: char) -> (r: bool)
    ensures
        r == is_ws(c),
{
    c == ' ' || c == '\r' || c == '\n' || c == '\t'
}

fn is_trim_ws_exec(c: char) -> (r: bool)
    ensures
        r == is_trim_ws(c),
{
    let u = c as u32;
    (9 <= u && u <= 13) || u == 32 || u == 0x85 || u == 0xA0 || u == 0x1680 || (0x2000 <= u && u
        <= 0x200A) || u == 0x2028 || u == 0x2029 || u == 0x202F || u == 0x205F || u == 0x3000
}

/// Derives a board slug from a human name: leading and trailing whitespace
/// is dropped, and every other space, CR, LF or TAB becomes an underscore.
pub fn slugify(s: &str) -> (r: String)
    ensures
        r@ == slug_of(s@),
{
    let v = str_to_chars(s);
    let n = v.len();
    let mut start: usize = 0;
    while start < n && is_trim_ws_exec(v[start])
        invariant
            n == v.len(),
            start <= n,
            forall|j: int| 0 <= j < start ==> is_trim_ws(v@[j]),
        decreases n - start,
    {
        start += 1;
    }
    let mut end: usize = n;
    while end > start && is_trim_ws_exec(v[end - 1])
        invariant
            n == v.len(),
            start <= end <= n,
            forall|j: int| end <= j < n ==> is_trim_ws(v@[j]),
        decreases end,
    {
        end -= 1;
    }
    proof {
        lemma_trim_front_idx(v@, start as int);
        lemma_trim_back_idx(v@.subrange(start as int, n as int), end - start);
        assert(trimmed(v@) =~= v@.subrange(start as int, end as int));
    }
    let mut out: Vec<char> = Vec::new();
    let mut k: usize = start;
    while k < end
        invariant
            n == v.len(),
            start <= k <= end <= n,
            out@.len() == k - start,
            forall|j: int| 0 <= j < out@.len() ==> out@[j] == map_ws(v@[start + j]),
        decreases end - k,
    {
        let c = v[k];
        if is_ws_exec(c) {
            out.push('_');
        } else {
            out.push(c);
        }
        k += 1;
    }
    proof {
        assert(out@ =~= mapped_ws(trimmed(v@)));
    }
    chars_to_string(&out)
}

/// Slugifying an already slugified name changes nothing: the first pass
/// leaves no whitespace at either end and none of the four replaced
/// characters anywhere, so the second finds nothing to trim or replace.
pub proof fn lemma_slugify_idempotent(s: Seq<char>)
    ensures
        slug_of(slug_of(s)) == slug_of(s),
{
    let tf = trim_front(s);
    let t = trimmed(s);
    let r = slug_of(s);
    lemma_trim_front_first(s);
    lemma_trim_back_prefix(tf);
    if t.len() > 0 {
        assert(t[0] == tf[0]);
        assert(!is_trim_ws(t[0]));
        assert(!is_trim_ws(t.last()));
        assert(r[0] == map_ws(t[0]));
        assert(!is_ws(t[0]));
        assert(r[0] == t[0]);
        assert(r.last() == map_ws(t.last()));
        assert(!is_ws(t.last()));
        assert(r.last() == t.last());
    }
    assert(forall|i: int| 0 <= i < r.len() ==> !is_ws(#[trigger] r[i]));
    assert(trim_front(r) == r);
    assert(trim_back(r) == r);
    assert(mapped_ws(r) =~= r);
}

/// Relies on `std::time::SystemTime`: returns the seconds elapsed since the
/// Unix epoch, or zero if the clock reads earlier than the epoch.
#[verifier::external_body]
pub fn current_timestamp() -> u64 {
    std::time::SystemTime::UNIX_EPOCH.elapsed().map(|d| d.as_secs()).unwrap_or(0)
}

} // verus!
