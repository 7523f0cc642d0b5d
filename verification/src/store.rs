//! An in-memory model of the backing key-value store: two string tables
//! (`boards`, `threads`) queried by exact key or glob scan, the ban table
//! keyed by raw digest bytes, and the shared post counter.
//!
//! Each table is an association list with pairwise distinct keys; its
//! mathematical content is the finite map the list denotes.

use vstd::prelude::*;

use crate::glob::glob_matches;
use crate::glob::glob_match;

verus! {

// ---------------------------------------------------------------------------
// Association lists and the maps they denote
// ---------------------------------------------------------------------------
/// The map denoted by a string-keyed association list; later entries win.
pub open spec fn str_map_of(v: Seq<(String, String)>) -> Map<Seq<char>, Seq<char>>
    decreases v.len(),
{
    if v.len() == 0 {
        Map::empty()
    } else {
        str_map_of(v.drop_last()).insert(v.last().0@, v.last().1@)
    }
}

/// The map denoted by a byte-keyed association list.
pub open spec fn bytes_map_of(v: Seq<(Vec<u8>, u64)>) -> Map<Seq<u8>, u64>
    decreases v.len(),
{
    if v.len() == 0 {
        Map::empty()
    } else {
        bytes_map_of(v.drop_last()).insert(v.last().0@, v.last().1)
    }
}

/// No two entries share a key.
pub open spec fn str_keys_distinct(v: Seq<(String, String)>) -> bool {
    forall|i: int, j: int| 0 <= i < j < v.len() ==> v[i].0@ != v[j].0@
}

/// No two entries share a key.
pub open spec fn bytes_keys_distinct(v: Seq<(Vec<u8>, u64)>) -> bool {
    forall|i: int, j: int| 0 <= i < j < v.len() ==> v[i].0@ != v[j].0@
}

proof fn lemma_str_map_at(v: Seq<(String, String)>, i: int)
    requires
        str_keys_distinct(v),
        0 <= i < v.len(),
    ensures
        str_map_of(v).contains_key(v[i].0@),
        str_map_of(v)[v[i].0@] == v[i].1@,
    decreases v.len(),
{
    if i < v.len() - 1 {
        assert(str_keys_distinct(v.drop_last()));
        lemma_str_map_at(v.drop_last(), i);
        assert(v.drop_last()[i] == v[i]);
        assert(v[i].0@ != v.last().0@);
    }
}

proof fn lemma_str_map_absent(v: Seq<(String, String)>, k: Seq<char>)
    requires
        forall|m: int| 0 <= m < v.len() ==> v[m].0@ != k,
    ensures
        !str_map_of(v).contains_key(k),
    decreases v.len(),
{
    if v.len() > 0 {
        assert(forall|m: int| 0 <= m < v.drop_last().len() ==> v.drop_last()[m].0@ != k);
        lemma_str_map_absent(v.drop_last(), k);
        assert(v.last().0@ != k);
    }
}

proof fn lemma_str_map_contains_exists(v: Seq<(String, String)>, k: Seq<char>)
    requires
        str_map_of(v).contains_key(k),
    ensures
        exists|i: int| 0 <= i < v.len() && v[i].0@ == k,
    decreases v.len(),
{
    if v.len() > 0 {
        if v.last().0@ == k {
            assert(v[v.len() - 1].0@ == k);
        } else {
            lemma_str_map_contains_exists(v.drop_last(), k);
            let i = choose|i: int| 0 <= i < v.drop_last().len() && v.drop_last()[i].0@ == k;
            assert(v[i].0@ == k);
        }
    }
}

proof fn lemma_str_map_remove(v: Seq<(String, String)>, i: int)
    requires
        str_keys_distinct(v),
        0 <= i < v.len(),
    ensures
        str_keys_distinct(v.remove(i)),
        str_map_of(v.remove(i)) == str_map_of(v).remove(v[i].0@),
    decreases v.len(),
{
    let k = v[i].0@;
    assert(str_keys_distinct(v.remove(i)));
    if i == v.len() - 1 {
        assert(v.remove(i) =~= v.drop_last());
        assert(forall|m: int| 0 <= m < v.drop_last().len() ==> v.drop_last()[m].0@ != k);
        lemma_str_map_absent(v.drop_last(), k);
        assert(str_map_of(v).remove(k) =~= str_map_of(v.drop_last()));
    } else {
        assert(str_keys_distinct(v.drop_last()));
        lemma_str_map_remove(v.drop_last(), i);
        assert(v.remove(i).drop_last() =~= v.drop_last().remove(i));
        assert(v.remove(i).last() == v.last());
        assert(v[i].0@ != v.last().0@);
        assert(v.drop_last()[i] == v[i]);
        assert(str_map_of(v.drop_last()).remove(k).insert(v.last().0@, v.last().1@)
            =~= str_map_of(v.drop_last()).insert(v.last().0@, v.last().1@).remove(k));
    }
}

proof fn lemma_bytes_map_at(v: Seq<(Vec<u8>, u64)>, i: int)
    requires
        bytes_keys_distinct(v),
        0 <= i < v.len(),
    ensures
        bytes_map_of(v).contains_key(v[i].0@),
        bytes_map_of(v)[v[i].0@] == v[i].1,
    decreases v.len(),
{
    if i < v.len() - 1 {
        assert(bytes_keys_distinct(v.drop_last()));
        lemma_bytes_map_at(v.drop_last(), i);
        assert(v.drop_last()[i] == v[i]);
        assert(v[i].0@ != v.last().0@);
    }
}

proof fn lemma_bytes_map_absent(v: Seq<(Vec<u8>, u64)>, k: Seq<u8>)
    requires
        forall|m: int| 0 <= m < v.len() ==> v[m].0@ != k,
    ensures
        !bytes_map_of(v).contains_key(k),
    decreases v.len(),
{
    if v.len() > 0 {
        assert(forall|m: int| 0 <= m < v.drop_last().len() ==> v.drop_last()[m].0@ != k);
        lemma_bytes_map_absent(v.drop_last(), k);
        assert(v.last().0@ != k);
    }
}

proof fn lemma_bytes_map_remove(v: Seq<(Vec<u8>, u64)>, i: int)
    requires
        bytes_keys_distinct(v),
        0 <= i < v.len(),
    ensures
        bytes_keys_distinct(v.remove(i)),
        bytes_map_of(v.remove(i)) == bytes_map_of(v).remove(v[i].0@),
    decreases v.len(),
{
    let k = v[i].0@;
    assert(bytes_keys_distinct(v.remove(i)));
    if i == v.len() - 1 {
        assert(v.remove(i) =~= v.drop_last());
        assert(forall|m: int| 0 <= m < v.drop_last().len() ==> v.drop_last()[m].0@ != k);
        lemma_bytes_map_absent(v.drop_last(), k);
        assert(bytes_map_of(v).remove(k) =~= bytes_map_of(v.drop_last()));
    } else {
        assert(bytes_keys_distinct(v.drop_last()));
        lemma_bytes_map_remove(v.drop_last(), i);
        assert(v.remove(i).drop_last() =~= v.drop_last().remove(i));
        assert(v.remove(i).last() == v.last());
        assert(v[i].0@ != v.last().0@);
        assert(v.drop_last()[i] == v[i]);
        assert(bytes_map_of(v.drop_last()).remove(k).insert(v.last().0@, v.last().1)
            =~= bytes_map_of(v.drop_last()).insert(v.last().0@, v.last().1).remove(k));
    }
}

// ---------------------------------------------------------------------------
// Scans
// ---------------------------------------------------------------------------
/// The views of a sequence of owned entries.
pub open spec fn pairs_view(s: Seq<(String, String)>) -> Seq<(Seq<char>, Seq<char>)> {
    Seq::new(s.len(), |i: int| (s[i].0@, s[i].1@))
}

/// The entries of `v` whose keys match `pat`, in table order.
pub open spec fn scan_result(v: Seq<(String, String)>, pat: Seq<char>) -> Seq<
    (Seq<char>, Seq<char>),
>
    decreases v.len(),
{
    if v.len() == 0 {
        Seq::empty()
    } else {
        scan_result(v.drop_last(), pat) + (if glob_matches(pat, v.last().0@) {
            seq![(v.last().0@, v.last().1@)]
        } else {
            Seq::empty()
        })
    }
}

proof fn lemma_scan_sound(v: Seq<(String, String)>, pat: Seq<char>)
    requires
        str_keys_distinct(v),
    ensures
        forall|j: int|
            0 <= j < scan_result(v, pat).len() ==> glob_matches(
                pat,
                (#[trigger] scan_result(v, pat)[j]).0,
            ) && str_map_of(v).contains_key(scan_result(v, pat)[j].0) && str_map_of(v)[scan_result(
                v,
                pat,
            )[j].0] == scan_result(v, pat)[j].1,
    decreases v.len(),
{
    if v.len() > 0 {
        assert(str_keys_distinct(v.drop_last()));
        lemma_scan_sound(v.drop_last(), pat);
        let inner = scan_result(v.drop_last(), pat);
        let sr = scan_result(v, pat);
        assert forall|j: int| 0 <= j < sr.len() implies glob_matches(pat, (#[trigger] sr[j]).0)
            && str_map_of(v).contains_key(sr[j].0) && str_map_of(v)[sr[j].0] == sr[j].1 by {
            if j < inner.len() {
                assert(sr[j] == inner[j]);
                lemma_str_map_contains_exists(v.drop_last(), inner[j].0);
                let m = choose|m: int|
                    0 <= m < v.drop_last().len() && v.drop_last()[m].0@ == inner[j].0;
                assert(v[m] == v.drop_last()[m]);
                assert(v[m].0@ != v.last().0@);
            } else {
                assert(glob_matches(pat, v.last().0@));
                assert(sr[j] == (v.last().0@, v.last().1@));
            }
        }
    }
}

proof fn lemma_scan_complete(v: Seq<(String, String)>, pat: Seq<char>, i: int)
    requires
        0 <= i < v.len(),
        glob_matches(pat, v[i].0@),
    ensures
        exists|j: int|
            0 <= j < scan_result(v, pat).len() && #[trigger] scan_result(v, pat)[j] == (v[i].0@,
            v[i].1@),
    decreases v.len(),
{
    let inner = scan_result(v.drop_last(), pat);
    if i == v.len() - 1 {
        assert(scan_result(v, pat)[inner.len() as int] == (v[i].0@, v[i].1@));
    } else {
        assert(v.drop_last()[i] == v[i]);
        lemma_scan_complete(v.drop_last(), pat, i);
        let j = choose|j: int| 0 <= j < inner.len() && #[trigger] inner[j] == (v[i].0@, v[i].1@);
        assert(scan_result(v, pat)[j] == inner[j]);
    }
}

proof fn lemma_scan_distinct(v: Seq<(String, String)>, pat: Seq<char>)
    requires
        str_keys_distinct(v),
    ensures
        forall|i: int, j: int|
            0 <= i < j < scan_result(v, pat).len() ==> (#[trigger] scan_result(v, pat)[i]).0 != (
            #[trigger] scan_result(v, pat)[j]).0,
    decreases v.len(),
{
    if v.len() > 0 {
        assert(str_keys_distinct(v.drop_last()));
        lemma_scan_distinct(v.drop_last(), pat);
        lemma_scan_sound(v.drop_last(), pat);
        let inner = scan_result(v.drop_last(), pat);
        let sr = scan_result(v, pat);
        assert forall|i: int, j: int| 0 <= i < j < sr.len() implies (#[trigger] sr[i]).0 != (
        #[trigger] sr[j]).0 by {
            if j < inner.len() {
                assert(sr[i] == inner[i] && sr[j] == inner[j]);
            } else {
                assert(glob_matches(pat, v.last().0@));
                assert(sr[j] == (v.last().0@, v.last().1@));
                assert(sr[i] == inner[i]);
                assert(str_map_of(v.drop_last()).contains_key(inner[i].0));
                lemma_str_map_contains_exists(v.drop_last(), inner[i].0);
                let m = choose|m: int|
                    0 <= m < v.drop_last().len() && v.drop_last()[m].0@ == inner[i].0;
                assert(v[m] == v.drop_last()[m]);
                assert(v[m].0@ != v.last().0@);
            }
        }
    }
}

// ---------------------------------------------------------------------------
// The store
// ---------------------------------------------------------------------------
/// Which of the two entity tables an operation addresses.
#[derive(Clone, Copy)]
pub enum Table {
    Boards,
    Threads,
}

/// The mathematical content of a [`Store`].
#[verifier::ext_equal]
pub ghost struct StoreV {
    pub boards: Map<Seq<char>, Seq<char>>,
    pub threads: Map<Seq<char>, Seq<char>>,
    pub banned: Map<Seq<u8>, u64>,
    pub post_count: u64,
}

/// The table a [`Table`] value selects.
pub open spec fn table_map(s: StoreV, t: Table) -> Map<Seq<char>, Seq<char>> {
    match t {
        Table::Boards => s.boards,
        Table::Threads => s.threads,
    }
}

/// The single source of truth: two entity tables, the ban table, and the
/// post counter.
pub struct Store {
    boards: Vec<(String, String)>,
    threads: Vec<(String, String)>,
    banned: Vec<(Vec<u8>, u64)>,
    post_count: u64,
}

impl View for Store {
    type V = StoreV;

    closed spec fn view(&self) -> StoreV {
        StoreV {
            boards: str_map_of(self.boards@),
            threads: str_map_of(self.threads@),
            banned: bytes_map_of(self.banned@),
            post_count: self.post_count,
        }
    }
}

fn assoc_get(v: &Vec<(String, String)>, key: &String) -> (r: Option<String>)
    requires
        str_keys_distinct(v@),
    ensures
        match r {
            Option::Some(val) => str_map_of(v@).contains_key(key@) && str_map_of(v@)[key@]
                == val@,
            Option::None => !str_map_of(v@).contains_key(key@),
        },
{
    let n = v.len();
    let mut i: usize = 0;
    while i < n
        invariant
            n == v.len(),
            i <= n,
            str_keys_distinct(v@),
            forall|m: int| 0 <= m < i ==> v@[m].0@ != key@,
        decreases n - i,
    {
        if v[i].0.eq(key) {
            proof {
                lemma_str_map_at(v@, i as int);
            }
            return Option::Some(v[i].1.clone());
        }
        i += 1;
    }
    proof {
        lemma_str_map_absent(v@, key@);
    }
    Option::None
}

fn assoc_put(v: &mut Vec<(String, String)>, key: String, value: String)
    requires
        str_keys_distinct(old(v)@),
    ensures
        str_keys_distinct(final(v)@),
        str_map_of(final(v)@) == str_map_of(old(v)@).insert(key@, value@),
{
    let n = v.len();
    let mut i: usize = 0;
    while i < n
        invariant
            n == v.len(),
            i <= n,
            v@ == old(v)@,
            str_keys_distinct(v@),
            forall|m: int| 0 <= m < i ==> v@[m].0@ != key@,
        decreases n - i,
    {
        if v[i].0.eq(&key) {
            proof {
                lemma_str_map_remove(v@, i as int);
            }
            let ghost w0 = v@;
            let _removed = v.remove(i);
            let ghost w1 = v@;
            v.push((key, value));
            proof {
                assert(v@.drop_last() =~= w1);
                assert(forall|m: int| 0 <= m < w1.len() ==> w1[m].0@ != w0[i as int].0@);
                assert(str_keys_distinct(v@));
                assert(str_map_of(v@) =~= str_map_of(w0).insert(w0[i as int].0@, value@));
            }
            return ;
        }
        i += 1;
    }
    let ghost w0 = v@;
    proof {
        lemma_str_map_absent(w0, key@);
    }
    v.push((key, value));
    proof {
        assert(v@.drop_last() =~= w0);
        assert(str_keys_distinct(v@));
        assert(str_map_of(v@) =~= str_map_of(w0).insert(key@, value@));
    }
}

fn bytes_eq(a: &Vec<u8>, b: &Vec<u8>) -> (r: bool)
    ensures
        r == (a@ == b@),
{
    if a.len() != b.len() {
        return false;
    }
    let n = a.len();
    let mut i: usize = 0;
    while i < n
        invariant
            n == a.len() == b.len(),
            i <= n,
            forall|m: int| 0 <= m < i ==> a@[m] == b@[m],
        decreases n - i,
    {
        if a[i] != b[i] {
            return false;
        }
        i += 1;
    }
    proof {
        assert(a@ =~= b@);
    }
    true
}

impl Store {
    /// Every table's keys are pairwise distinct.
    pub closed spec fn wf(&self) -> bool {
        str_keys_distinct(self.boards@) && str_keys_distinct(self.threads@)
            && bytes_keys_distinct(self.banned@)
    }

    /// A fresh store: both tables empty, no bans, counter at zero.
    pub fn new() -> (s: Store)
        ensures
            s.wf(),
            s@.boards == Map::<Seq<char>, Seq<char>>::empty(),
            s@.threads == Map::<Seq<char>, Seq<char>>::empty(),
            s@.banned == Map::<Seq<u8>, u64>::empty(),
            s@.post_count == 0,
    {
        Store { boards: Vec::new(), threads: Vec::new(), banned: Vec::new(), post_count: 0 }
    }

    /// Upsert: writes `value` under `key`, replacing any previous value.
    pub fn put(&mut self, table: Table, key: String, value: String)
        requires
            old(self).wf(),
        ensures
            final(self).wf(),
            table_map(final(self)@, table) == table_map(old(self)@, table).insert(key@, value@),
            (table is Boards) ==> final(self)@.threads == old(self)@.threads,
            (table is Threads) ==> final(self)@.boards == old(self)@.boards,
            final(self)@.banned == old(self)@.banned,
            final(self)@.post_count == old(self)@.post_count,
    {
        match table {
            Table::Boards => assoc_put(&mut self.boards, key, value),
            Table::Threads => assoc_put(&mut self.threads, key, value),
        }
    }

    /// Point lookup by exact key.
    pub fn get(&self, table: Table, key: &String) -> (r: Option<String>)
        requires
            self.wf(),
        ensures
            match r {
                Option::Some(val) => table_map(self@, table).contains_key(key@) && table_map(
                    self@,
                    table,
                )[key@] == val@,
                Option::None => !table_map(self@, table).contains_key(key@),
            },
    {
        match table {
            Table::Boards => assoc_get(&self.boards, key),
            Table::Threads => assoc_get(&self.threads, key),
        }
    }

    /// Scan: every entry whose key matches the glob pattern, each key once,
    /// with the value stored under it.
    pub fn scan_match(&self, table: Table, pattern: &str) -> (r: Vec<(String, String)>)
        requires
            self.wf(),
        ensures
            forall|j: int|
                0 <= j < r@.len() ==> glob_matches(pattern@, #[trigger] r@[j].0@) && table_map(
                    self@,
                    table,
                ).contains_key(r@[j].0@) && table_map(self@, table)[r@[j].0@] == r@[j].1@,
            forall|k: Seq<char>|
                #[trigger] table_map(self@, table).contains_key(k) && glob_matches(pattern@, k)
                    ==> exists|j: int|
                    0 <= j < r@.len() && #[trigger] r@[j].0@ == k,
            forall|i: int, j: int|
                0 <= i < j < r@.len() ==> (#[trigger] r@[i]).0@ != (#[trigger] r@[j]).0@,
    {
        let tbl = match table {
            Table::Boards => &self.boards,
            Table::Threads => &self.threads,
        };
        let ghost tv = tbl@;
        let n = tbl.len();
        let mut out: Vec<(String, String)> = Vec::new();
        let mut i: usize = 0;
        while i < n
            invariant
                n == tbl.len(),
                i <= n,
                str_keys_distinct(tv),
                tv == tbl@,
                pairs_view(out@) =~= scan_result(tv.subrange(0, i as int), pattern@),
            decreases n - i,
        {
            let ghost prefix = tv.subrange(0, i as int);
            proof {
                assert(tv.subrange(0, i + 1 as int).drop_last() =~= prefix);
                assert(tv.subrange(0, i + 1 as int).last() == tv[i as int]);
            }
            let matched = glob_match(pattern, tbl[i].0.as_str());
            if matched {
                out.push((tbl[i].0.clone(), tbl[i].1.clone()));
            }
            proof {
                assert(pairs_view(out@) =~= scan_result(tv.subrange(0, i + 1 as int), pattern@));
            }
            i += 1;
        }
        proof {
            assert(tv.subrange(0, n as int) =~= tv);
            lemma_scan_sound(tv, pattern@);
            lemma_scan_distinct(tv, pattern@);
            let sr = scan_result(tv, pattern@);
            assert forall|i: int, j: int| 0 <= i < j < out@.len() implies (
            #[trigger] out@[i]).0@ != (#[trigger] out@[j]).0@ by {
                assert(pairs_view(out@)[i] == sr[i]);
                assert(pairs_view(out@)[j] == sr[j]);
                assert(sr[i].0 != sr[j].0);
            }
            assert forall|j: int| 0 <= j < out@.len() implies glob_matches(
                pattern@,
                #[trigger] out@[j].0@,
            ) && table_map(self@, table).contains_key(out@[j].0@) && table_map(self@, table)[out@[j].0@]
                == out@[j].1@ by {
                assert(pairs_view(out@)[j] == sr[j]);
                assert(sr[j].0 == out@[j].0@ && sr[j].1 == out@[j].1@);
            }
            assert forall|k: Seq<char>|
                #[trigger] table_map(self@, table).contains_key(k) && glob_matches(pattern@, k)
                    implies exists|j: int| 0 <= j < out@.len() && #[trigger] out@[j].0@ == k by {
                lemma_str_map_contains_exists(tv, k);
                let m = choose|m: int| 0 <= m < tv.len() && tv[m].0@ == k;
                lemma_scan_complete(tv, pattern@, m);
                let j = choose|j: int|
                    0 <= j < sr.len() && #[trigger] sr[j] == (tv[m].0@, tv[m].1@);
                assert(pairs_view(out@)[j] == sr[j]);
                assert(out@[j].0@ == k);
            }
        }
        out
    }

    /// Atomic fetch-and-add on the shared post counter; returns the new
    /// value.  This is the only operation that allocates post ids.
    pub fn incr(&mut self, delta: u64) -> (r: u64)
        requires
            old(self).wf(),
            old(self)@.post_count + delta <= u64::MAX,
        ensures
            final(self).wf(),
            r == old(self)@.post_count + delta,
            final(self)@.post_count == r,
            final(self)@.boards == old(self)@.boards,
            final(self)@.threads == old(self)@.threads,
            final(self)@.banned == old(self)@.banned,
    {
        self.post_count = self.post_count + delta;
        self.post_count
    }

    /// The ban expiry stored for a digest, if any.
    pub fn get_ban(&self, key: &Vec<u8>) -> (r: Option<u64>)
        requires
            self.wf(),
        ensures
            match r {
                Option::Some(expiry) => self@.banned.contains_key(key@) && self@.banned[key@]
                    == expiry,
                Option::None => !self@.banned.contains_key(key@),
            },
    {
        let n = self.banned.len();
        let mut i: usize = 0;
        while i < n
            invariant
                n == self.banned.len(),
                i <= n,
                bytes_keys_distinct(self.banned@),
                self@.banned == bytes_map_of(self.banned@),
                forall|m: int| 0 <= m < i ==> self.banned@[m].0@ != key@,
            decreases n - i,
        {
            if bytes_eq(&self.banned[i].0, key) {
                proof {
                    lemma_bytes_map_at(self.banned@, i as int);
                }
                return Option::Some(self.banned[i].1);
            }
            i += 1;
        }
        proof {
            lemma_bytes_map_absent(self.banned@, key@);
        }
        Option::None
    }

    /// Records a ban: the digest is banned until `expiry`.
    pub fn set_ban(&mut self, key: Vec<u8>, expiry: u64)
        requires
            old(self).wf(),
        ensures
            final(self).wf(),
            final(self)@.banned == old(self)@.banned.insert(key@, expiry),
            final(self)@.boards == old(self)@.boards,
            final(self)@.threads == old(self)@.threads,
            final(self)@.post_count == old(self)@.post_count,
    {
        let n = self.banned.len();
        let mut i: usize = 0;
        while i < n
            invariant
                n == self.banned.len(),
                i <= n,
                self.banned@ == old(self).banned@,
                self.boards@ == old(self).boards@,
                self.threads@ == old(self).threads@,
                self.post_count == old(self).post_count,
                str_keys_distinct(self.boards@),
                str_keys_distinct(self.threads@),
                bytes_keys_distinct(self.banned@),
                forall|m: int| 0 <= m < i ==> self.banned@[m].0@ != key@,
            decreases n - i,
        {
            if bytes_eq(&self.banned[i].0, &key) {
                proof {
                    lemma_bytes_map_remove(self.banned@, i as int);
                }
                let ghost w0 = self.banned@;
                let _removed = self.banned.remove(i);
                let ghost w1 = self.banned@;
                self.banned.push((key, expiry));
                proof {
                    assert(self.banned@.drop_last() =~= w1);
                    assert(forall|m: int| 0 <= m < w1.len() ==> w1[m].0@ != w0[i as int].0@);
                    assert(bytes_keys_distinct(self.banned@));
                    assert(bytes_map_of(self.banned@) =~= bytes_map_of(w0).insert(
                        w0[i as int].0@,
                        expiry,
                    ));
                    assert(bytes_keys_distinct(self.banned@));
                }
                return ;
            }
            i += 1;
        }
        let ghost w0 = self.banned@;
        proof {
            lemma_bytes_map_absent(w0, key@);
        }
        self.banned.push((key, expiry));
        proof {
            assert(self.banned@.drop_last() =~= w0);
            assert(bytes_keys_distinct(self.banned@));
            assert(bytes_map_of(self.banned@) =~= bytes_map_of(w0).insert(key@, expiry));
        }
    }

    /// Deletes any ban record stored for the digest (lazy expiry).
    pub fn remove_ban(&mut self, key: &Vec<u8>)
        requires
            old(self).wf(),
        ensures
            final(self).wf(),
            final(self)@.banned == old(self)@.banned.remove(key@),
            final(self)@.boards == old(self)@.boards,
            final(self)@.threads == old(self)@.threads,
            final(self)@.post_count == old(self)@.post_count,
    {
        let n = self.banned.len();
        let mut i: usize = 0;
        while i < n
            invariant
                n == self.banned.len(),
                i <= n,
                self.banned@ == old(self).banned@,
                self.boards@ == old(self).boards@,
                self.threads@ == old(self).threads@,
                self.post_count == old(self).post_count,
                str_keys_distinct(self.boards@),
                str_keys_distinct(self.threads@),
                bytes_keys_distinct(self.banned@),
                forall|m: int| 0 <= m < i ==> self.banned@[m].0@ != key@,
            decreases n - i,
        {
            if bytes_eq(&self.banned[i].0, key) {
                proof {
                    lemma_bytes_map_remove(self.banned@, i as int);
                }
                let _removed = self.banned.remove(i);
                return ;
            }
            i += 1;
        }
        proof {
            lemma_bytes_map_absent(self.banned@, key@);
            assert(bytes_map_of(self.banned@) =~= bytes_map_of(self.banned@).remove(key@));
        }
    }
}

/// Ids handed out by successive counter allocations are strictly increasing,
/// hence pairwise distinct and contiguous from the base value.
pub proof fn lemma_post_ids_unique(ids: Seq<u64>, base: u64)
    requires
        forall|i: int| 0 <= i < ids.len() ==> #[trigger] ids[i] == base + i + 1,
    ensures
        forall|i: int, j: int| 0 <= i < j < ids.len() ==> ids[i] < ids[j],
{
}

} // verus!
