//! The read path: board lookup, board thread listing (sorted by timestamp,
//! newest first), and single-thread lookup by id.

use vstd::prelude::*;

use crate::boards::Board;
use crate::boards::board_ident_of;
use crate::codec::p_board;
use crate::codec::p_thread;
use crate::codec::deserialize_board;
use crate::codec::deserialize_thread;
use crate::glob::glob_matches;
use crate::store::Store;
use crate::store::Table;
use crate::store::table_map;
use crate::store::pairs_view;
use crate::text::dec_of;
use crate::text::u64_to_string;
use crate::thread::Thread;
use crate::thread::ThreadV;
use crate::thread::timestamp_of;

verus! {

/// Why a read failed: the entity is absent, or a persisted record does not
/// parse.
#[derive(Clone, Copy, Debug, PartialEq, Eq, Structural)]
pub enum LookupError {
    NotFound,
    EncodingError,
}

/// The scan pattern that selects every post of a board.
pub open spec fn thread_scan_pattern_of(slug: Seq<char>) -> Seq<char> {
    "thread:"@ + slug + ":*"@
}

/// The scan pattern that selects the posts of a board whose key ends in the
/// given id.
pub open spec fn thread_lookup_pattern_of(slug: Seq<char>, id: u64) -> Seq<char> {
    "thread:"@ + slug + ":*:"@ + dec_of(id as nat)
}

/// The store key of the board with this slug.
pub fn board_key(slug: &str) -> (r: String)
    ensures
        r@ == board_ident_of(slug@),
{
    let mut r = "board:".to_owned();
    r.append(slug);
    r
}

/// The scan pattern for every post of the board with this slug.
pub fn thread_scan_pattern(slug: &str) -> (r: String)
    ensures
        r@ == thread_scan_pattern_of(slug@),
{
    let mut r = "thread:".to_owned();
    r.append(slug);
    r.append(":*");
    r
}

/// The scan pattern for the post of this board whose key ends in `id`.
pub fn thread_lookup_pattern(slug: &str, id: u64) -> (r: String)
    ensures
        r@ == thread_lookup_pattern_of(slug@, id),
{
    let mut r = "thread:".to_owned();
    r.append(slug);
    r.append(":*:");
    let ds = u64_to_string(id);
    r.append(ds.as_str());
    r
}

/// Board lookup: the entity stored under `board:<slug>`, decoded.
pub fn get_board(store: &Store, slug: &str) -> (r: Result<Board, LookupError>)
    requires
        store.wf(),
    ensures
        match r {
            Result::Ok(b) => store@.boards.contains_key(board_ident_of(slug@)) && p_board(
                store@.boards[board_ident_of(slug@)],
            ) == Option::Some(b@),
            Result::Err(LookupError::NotFound) => !store@.boards.contains_key(
                board_ident_of(slug@),
            ),
            Result::Err(LookupError::EncodingError) => store@.boards.contains_key(
                board_ident_of(slug@),
            ) && p_board(store@.boards[board_ident_of(slug@)]) is None,
        },
{
    let key = board_key(slug);
    match store.get(Table::Boards, &key) {
        Option::None => Result::Err(LookupError::NotFound),
        Option::Some(v) => match deserialize_board(v.as_str()) {
            Option::Some(b) => Result::Ok(b),
            Option::None => Result::Err(LookupError::EncodingError),
        },
    }
}

/// The views of a sequence of posts.
pub open spec fn views_of(s: Seq<Thread>) -> Seq<ThreadV> {
    Seq::new(s.len(), |i: int| s[i]@)
}

/// Newest first: timestamps never increase along the sequence.
pub open spec fn sorted_desc(s: Seq<ThreadV>) -> bool {
    forall|i: int, j: int|
        0 <= i <= j < s.len() ==> timestamp_of(#[trigger] s[i]) >= timestamp_of(#[trigger] s[j])
}

/// Some stored entry whose key matches `pat` decodes to exactly this post.
pub open spec fn entry_for(
    threads: Map<Seq<char>, Seq<char>>,
    pat: Seq<char>,
    t: ThreadV,
) -> bool {
    exists|k: Seq<char>|
        threads.contains_key(k) && glob_matches(pat, k) && p_thread(#[trigger] threads[k])
            == Option::Some(t)
}

/// The decoded value `o` occurs among the listed posts.
pub open spec fn appears_opt(sv: Seq<ThreadV>, o: Option<ThreadV>) -> bool {
    exists|i: int| 0 <= i < sv.len() && o == Option::Some(#[trigger] sv[i])
}

/// Every listed post is the decoding of some stored entry of the board.
pub open spec fn listing_sound(
    threads: Map<Seq<char>, Seq<char>>,
    pat: Seq<char>,
    sv: Seq<ThreadV>,
) -> bool {
    forall|i: int| 0 <= i < sv.len() ==> entry_for(threads, pat, #[trigger] sv[i])
}

/// Every stored entry of the board is represented among the listed posts.
pub open spec fn listing_complete(
    threads: Map<Seq<char>, Seq<char>>,
    pat: Seq<char>,
    sv: Seq<ThreadV>,
) -> bool {
    forall|k: Seq<char>|
        #[trigger] threads.contains_key(k) && glob_matches(pat, k) ==> appears_opt(
            sv,
            p_thread(threads[k]),
        )
}

/// `rows` is exactly the board's stored entries: each row is a stored
/// entry whose key matches `pat`, no key twice, and every matching key has
/// a row.
pub open spec fn rows_exact(
    threads: Map<Seq<char>, Seq<char>>,
    pat: Seq<char>,
    rows: Seq<(Seq<char>, Seq<char>)>,
) -> bool {
    (forall|j: int|
        0 <= j < rows.len() ==> threads.contains_key((#[trigger] rows[j]).0) && glob_matches(
            pat,
            rows[j].0,
        ) && threads[rows[j].0] == rows[j].1) && (forall|i: int, j: int|
        0 <= i < j < rows.len() ==> (#[trigger] rows[i]).0 != (#[trigger] rows[j]).0) && (forall|
        k: Seq<char>,
    |
        #[trigger] threads.contains_key(k) && glob_matches(pat, k) ==> exists|j: int|
            0 <= j < rows.len() && (#[trigger] rows[j]).0 == k)
}

/// Each row's value decodes to the post at the same position.
pub open spec fn rows_decode_to(rows: Seq<(Seq<char>, Seq<char>)>, dec: Seq<ThreadV>) -> bool {
    dec.len() == rows.len() && (forall|j: int|
        0 <= j < rows.len() ==> p_thread((#[trigger] rows[j]).1) == Option::Some(dec[j]))
}

/// The listing is a permutation of the decodings of exactly the board's
/// stored entries, one per matching key.
pub open spec fn listing_exact(
    threads: Map<Seq<char>, Seq<char>>,
    pat: Seq<char>,
    sv: Seq<ThreadV>,
) -> bool {
    exists|rows: Seq<(Seq<char>, Seq<char>)>, dec: Seq<ThreadV>|
        rows_exact(threads, pat, rows) && #[trigger] rows_decode_to(rows, dec) && sv.to_multiset()
            == dec.to_multiset()
}

fn thread_ts(t: &Thread) -> (r: u64)
    ensures
        r == timestamp_of(t@),
{
    match t {
        Thread::Parent(p) => p.timestamp,
        Thread::Comment { payload, .. } => payload.timestamp,
    }
}

proof fn lemma_insert_to_multiset(s: Seq<ThreadV>, i: int, x: ThreadV)
    requires
        0 <= i <= s.len(),
    ensures
        s.insert(i, x).to_multiset() == s.to_multiset().insert(x),
{
    broadcast use vstd::seq_lib::group_to_multiset_ensures;

    let ins = s.insert(i, x);
    assert(ins.remove(i) =~= s);
    assert(ins[i] == x);
    assert(ins.remove(i).to_multiset() =~= ins.to_multiset().remove(ins[i]));
    assert(ins.contains(x));
    assert(ins.to_multiset().count(x) > 0);
    assert forall|y: ThreadV| true implies ins.to_multiset().count(y) == s.to_multiset().insert(
        x,
    ).count(y) by {
        if y == x {
            assert(s.to_multiset().count(x) == ins.to_multiset().remove(x).count(x));
        } else {
            assert(s.to_multiset().count(y) == ins.to_multiset().remove(x).count(y));
        }
    }
    assert(ins.to_multiset() =~= s.to_multiset().insert(x));
}

proof fn lemma_drop_last_to_multiset(s: Seq<ThreadV>)
    requires
        s.len() > 0,
    ensures
        s.to_multiset() == s.drop_last().to_multiset().insert(s.last()),
{
    broadcast use vstd::seq_lib::group_to_multiset_ensures;

    assert(s.drop_last() =~= s.remove(s.len() - 1));
    lemma_insert_to_multiset(s.drop_last(), s.len() - 1, s.last());
    assert(s.drop_last().insert(s.len() - 1, s.last()) =~= s);
}

fn find_insert_pos(out: &Vec<Thread>, tsx: u64) -> (idx: usize)
    ensures
        idx <= out.len(),
        forall|m: int| 0 <= m < idx ==> timestamp_of(#[trigger] views_of(out@)[m]) >= tsx,
        idx < out.len() ==> timestamp_of(views_of(out@)[idx as int]) < tsx,
{
    let n = out.len();
    let mut idx: usize = 0;
    while idx < n
        invariant
            n == out.len(),
            idx <= n,
            forall|m: int| 0 <= m < idx ==> timestamp_of(#[trigger] views_of(out@)[m]) >= tsx,
        decreases n - idx,
    {
        if thread_ts(&out[idx]) < tsx {
            return idx;
        }
        idx += 1;
    }
    idx
}

/// Sorts posts by payload timestamp, newest first, keeping exactly the
/// posts it was given (as a multiset).
pub fn sort_threads_desc(v: Vec<Thread>) -> (r: Vec<Thread>)
    ensures
        sorted_desc(views_of(r@)),
        views_of(r@).to_multiset() == views_of(v@).to_multiset(),
{
    let ghost total = views_of(v@).to_multiset();
    let mut src = v;
    let mut out: Vec<Thread> = Vec::new();
    proof {
        broadcast use vstd::seq_lib::group_to_multiset_ensures;

        assert(views_of(out@).len() == 0);
        vstd::multiset::lemma_multiset_empty_len(views_of(out@).to_multiset());
        assert(views_of(out@).to_multiset().add(views_of(src@).to_multiset()) =~= total);
    }
    while src.len() > 0
        invariant
            sorted_desc(views_of(out@)),
            views_of(out@).to_multiset().add(views_of(src@).to_multiset()) == total,
        decreases src.len(),
    {
        let ghost src0 = views_of(src@);
        let x = src.pop().unwrap();
        proof {
            assert(views_of(src@) =~= src0.drop_last());
            assert(src0.last() == x@);
            lemma_drop_last_to_multiset(src0);
        }
        let tsx = thread_ts(&x);
        let idx = find_insert_pos(&out, tsx);
        let ghost out0 = views_of(out@);
        out.insert(idx, x);
        proof {
            assert(views_of(out@) =~= out0.insert(idx as int, x@));
            lemma_insert_to_multiset(out0, idx as int, x@);
            let o = views_of(out@);
            assert forall|a: int, b: int| 0 <= a <= b < o.len() implies timestamp_of(
                #[trigger] o[a],
            ) >= timestamp_of(#[trigger] o[b]) by {
                if a < idx && b < idx {
                    assert(o[a] == out0[a] && o[b] == out0[b]);
                } else if a < idx && b == idx {
                    assert(o[a] == out0[a] && o[b] == x@);
                } else if a < idx && b > idx {
                    assert(o[a] == out0[a] && o[b] == out0[b - 1]);
                } else if a == idx && b == idx {
                } else if a == idx && b > idx {
                    assert(o[a] == x@ && o[b] == out0[b - 1]);
                    assert(idx < out0.len());
                    assert(timestamp_of(out0[idx as int]) < tsx);
                } else {
                    assert(o[a] == out0[a - 1] && o[b] == out0[b - 1]);
                }
            }
            assert(views_of(out@).to_multiset().add(views_of(src@).to_multiset()) =~= total);
        }
    }
    proof {
        broadcast use vstd::seq_lib::group_to_multiset_ensures;

        assert(views_of(src@).len() == 0);
        vstd::multiset::lemma_multiset_empty_len(views_of(src@).to_multiset());
        assert(views_of(out@).to_multiset() =~= total);
    }
    out
}

fn parse_scan_values(entries: &Vec<(String, String)>) -> (r: Result<Vec<Thread>, LookupError>)
    ensures
        match r {
            Result::Ok(v) => v@.len() == entries@.len() && (forall|j: int|
                0 <= j < v@.len() ==> p_thread(#[trigger] entries@[j].1@) == Option::Some(
                    views_of(v@)[j],
                )),
            Result::Err(e) => e == LookupError::EncodingError && (exists|j: int|
                0 <= j < entries@.len() && p_thread(#[trigger] entries@[j].1@) is None),
        },
{
    let n = entries.len();
    let mut v: Vec<Thread> = Vec::new();
    let mut j: usize = 0;
    while j < n
        invariant
            n == entries.len(),
            j <= n,
            v@.len() == j,
            forall|m: int|
                0 <= m < j ==> p_thread(#[trigger] entries@[m].1@) == Option::Some(
                    views_of(v@)[m],
                ),
        decreases n - j,
    {
        match deserialize_thread(entries[j].1.as_str()) {
            Option::Some(t) => {
                v.push(t);
            },
            Option::None => {
                return Result::Err(LookupError::EncodingError);
            },
        }
        j += 1;
    }
    Result::Ok(v)
}

/// Thread listing: every post of the board, each matching store entry
/// decoded, sorted by payload timestamp with the newest first.
pub fn list_threads(store: &Store, slug: &str) -> (r: Result<Vec<Thread>, LookupError>)
    requires
        store.wf(),
    ensures
        match r {
            Result::Ok(v) => sorted_desc(views_of(v@)) && listing_sound(
                store@.threads,
                thread_scan_pattern_of(slug@),
                views_of(v@),
            ) && listing_complete(store@.threads, thread_scan_pattern_of(slug@), views_of(v@))
                && listing_exact(store@.threads, thread_scan_pattern_of(slug@), views_of(v@)),
            Result::Err(e) => e == LookupError::EncodingError && (exists|k: Seq<char>|
                store@.threads.contains_key(k) && glob_matches(thread_scan_pattern_of(slug@), k)
                    && p_thread(#[trigger] store@.threads[k]) is None),
        },
{
    let pattern = thread_scan_pattern(slug);
    let entries = store.scan_match(Table::Threads, pattern.as_str());
    let parsed = match parse_scan_values(&entries) {
        Result::Ok(v) => v,
        Result::Err(e) => {
            proof {
                let j = choose|j: int|
                    0 <= j < entries@.len() && p_thread(#[trigger] entries@[j].1@) is None;
                assert(table_map(store@, Table::Threads).contains_key(entries@[j].0@));
                assert(store@.threads[entries@[j].0@] == entries@[j].1@);
            }
            return Result::Err(e);
        },
    };
    let ghost pv = views_of(parsed@);
    let sorted = sort_threads_desc(parsed);
    proof {
        broadcast use vstd::seq_lib::group_to_multiset_ensures;

        assert forall|i: int| 0 <= i < views_of(sorted@).len() implies entry_for(
            store@.threads,
            thread_scan_pattern_of(slug@),
            #[trigger] views_of(sorted@)[i],
        ) by {
            let x = views_of(sorted@)[i];
            assert(views_of(sorted@).contains(x));
            assert(views_of(sorted@).to_multiset().count(x) > 0);
            assert(pv.to_multiset().count(x) > 0);
            assert(pv.contains(x));
            let j = choose|j: int| 0 <= j < pv.len() && pv[j] == x;
            assert(p_thread(entries@[j].1@) == Option::Some(x));
            assert(table_map(store@, Table::Threads).contains_key(entries@[j].0@));
            assert(store@.threads[entries@[j].0@] == entries@[j].1@);
            assert(p_thread(store@.threads[entries@[j].0@]) == Option::Some(x));
            assert(glob_matches(thread_scan_pattern_of(slug@), entries@[j].0@));
        }
        assert(listing_sound(store@.threads, thread_scan_pattern_of(slug@), views_of(sorted@)));
        assert forall|k: Seq<char>|
            #[trigger] store@.threads.contains_key(k) && glob_matches(
                thread_scan_pattern_of(slug@),
                k,
            ) implies appears_opt(views_of(sorted@), p_thread(store@.threads[k])) by {
            assert(table_map(store@, Table::Threads).contains_key(k));
            let j = choose|j: int| 0 <= j < entries@.len() && #[trigger] entries@[j].0@ == k;
            assert(p_thread(entries@[j].1@) == Option::Some(pv[j]));
            assert(pv.contains(pv[j]));
            assert(pv.to_multiset().count(pv[j]) > 0);
            assert(views_of(sorted@).to_multiset().count(pv[j]) > 0);
            assert(views_of(sorted@).contains(pv[j]));
            let i = choose|i: int|
                0 <= i < views_of(sorted@).len() && views_of(sorted@)[i] == pv[j];
            assert(store@.threads[k] == entries@[j].1@);
            assert(p_thread(store@.threads[k]) == Option::Some(views_of(sorted@)[i]));
        }
        assert(listing_complete(
            store@.threads,
            thread_scan_pattern_of(slug@),
            views_of(sorted@),
        ));
        let rows = pairs_view(entries@);
        assert forall|j: int|
            0 <= j < rows.len() implies store@.threads.contains_key((#[trigger] rows[j]).0)
            && glob_matches(thread_scan_pattern_of(slug@), rows[j].0) && store@.threads[rows[j].0]
            == rows[j].1 by {
            assert(rows[j] == (entries@[j].0@, entries@[j].1@));
            assert(table_map(store@, Table::Threads).contains_key(entries@[j].0@));
        }
        assert forall|i: int, j: int| 0 <= i < j < rows.len() implies (#[trigger] rows[i]).0 != (
        #[trigger] rows[j]).0 by {
            assert(rows[i].0 == entries@[i].0@ && rows[j].0 == entries@[j].0@);
        }
        assert forall|k: Seq<char>|
            #[trigger] store@.threads.contains_key(k) && glob_matches(
                thread_scan_pattern_of(slug@),
                k,
            ) implies exists|j: int| 0 <= j < rows.len() && (#[trigger] rows[j]).0 == k by {
            assert(table_map(store@, Table::Threads).contains_key(k));
            let j = choose|j: int| 0 <= j < entries@.len() && #[trigger] entries@[j].0@ == k;
            assert(rows[j].0 == k);
        }
        assert(rows_exact(store@.threads, thread_scan_pattern_of(slug@), rows));
        assert forall|j: int|
            0 <= j < rows.len() implies p_thread((#[trigger] rows[j]).1) == Option::Some(
            pv[j],
        ) by {
            assert(rows[j].1 == entries@[j].1@);
        }
        assert(rows_decode_to(rows, pv));
        assert(views_of(sorted@).to_multiset() == pv.to_multiset());
        assert(listing_exact(store@.threads, thread_scan_pattern_of(slug@), views_of(sorted@)));
    }
    Result::Ok(sorted)
}

/// Single-thread lookup: the first post of the board whose key embeds the
/// given id, decoded.
pub fn find_thread(store: &Store, slug: &str, thread_id: u64) -> (r: Result<Thread, LookupError>)
    requires
        store.wf(),
    ensures
        match r {
            Result::Ok(t) => exists|k: Seq<char>|
                store@.threads.contains_key(k) && glob_matches(
                    thread_lookup_pattern_of(slug@, thread_id),
                    k,
                ) && p_thread(#[trigger] store@.threads[k]) == Option::Some(t@),
            Result::Err(LookupError::NotFound) => forall|k: Seq<char>|
                #[trigger] store@.threads.contains_key(k) ==> !glob_matches(
                    thread_lookup_pattern_of(slug@, thread_id),
                    k,
                ),
            Result::Err(LookupError::EncodingError) => exists|k: Seq<char>|
                store@.threads.contains_key(k) && glob_matches(
                    thread_lookup_pattern_of(slug@, thread_id),
                    k,
                ) && p_thread(#[trigger] store@.threads[k]) is None,
        },
{
    let pattern = thread_lookup_pattern(slug, thread_id);
    let entries = store.scan_match(Table::Threads, pattern.as_str());
    if entries.len() == 0 {
        proof {
            assert forall|k: Seq<char>| #[trigger] store@.threads.contains_key(k) implies
                !glob_matches(thread_lookup_pattern_of(slug@, thread_id), k) by {
                if glob_matches(thread_lookup_pattern_of(slug@, thread_id), k) {
                    assert(table_map(store@, Table::Threads).contains_key(k));
                }
            }
        }
        return Result::Err(LookupError::NotFound);
    }
    match deserialize_thread(entries[0].1.as_str()) {
        Option::Some(t) => {
            proof {
                assert(table_map(store@, Table::Threads).contains_key(entries@[0].0@));
                assert(store@.threads[entries@[0].0@] == entries@[0].1@);
            }
            Result::Ok(t)
        },
        Option::None => {
            proof {
                assert(table_map(store@, Table::Threads).contains_key(entries@[0].0@));
                assert(store@.threads[entries@[0].0@] == entries@[0].1@);
            }
            Result::Err(LookupError::EncodingError)
        },
    }
}

} // verus!
