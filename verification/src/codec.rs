//! The stable JSON encoding of boards and threads.
//!
//! Entities are persisted as JSON objects with a fixed field order, so that
//! a value written by [`serialize_board`] or [`serialize_thread`] is read
//! back unchanged by the matching deserializer.  A comment is told apart
//! from a thread opener purely by the presence of the leading
//! `parent_thread` field; no explicit discriminant is stored.

use vstd::prelude::*;

use crate::boards::Board;
use crate::boards::BoardV;
use crate::thread::Thread;
use crate::thread::ThreadV;
use crate::thread::ThreadPayload;
use crate::thread::ThreadPayloadV;
use crate::text::dec_of;
use crate::text::is_dec_digit;
use crate::text::val_of_digits;
use crate::text::dval;
use crate::text::lemma_dec_of_digits;
use crate::text::lemma_dec_of_len;
use crate::text::lemma_val_of_dec;
use crate::text::str_to_chars;
use crate::text::chars_to_string;
use crate::text::u64_to_dec_chars;

verus! {

// ---------------------------------------------------------------------------
// String escaping
// ---------------------------------------------------------------------------
/// Characters that are written as a two-character escape.
pub open spec fn needs_esc(c: char) -> bool {
    c == '"' || c == '\\' || c == '\n' || c == '\r' || c == '\t'
}

/// The character following the backslash when `c` is escaped.
pub open spec fn esc_code(c: char) -> char {
    if c == '"' {
        '"'
    } else if c == '\\' {
        '\\'
    } else if c == '\n' {
        'n'
    } else if c == '\r' {
        'r'
    } else {
        't'
    }
}

/// The escape codes the parser accepts.
pub open spec fn valid_esc_code(c: char) -> bool {
    c == '"' || c == '\\' || c == 'n' || c == 'r' || c == 't'
}

/// The character denoted by the escape code `c`.
pub open spec fn unesc_code(c: char) -> char {
    if c == '"' {
        '"'
    } else if c == '\\' {
        '\\'
    } else if c == 'n' {
        '\n'
    } else if c == 'r' {
        '\r'
    } else {
        '\t'
    }
}

/// The encoding of one character inside a JSON string.
pub open spec fn esc_char(c: char) -> Seq<char> {
    if needs_esc(c) {
        seq!['\\', esc_code(c)]
    } else {
        seq![c]
    }
}

/// The encoding of the contents of a JSON string.
pub open spec fn esc_str(s: Seq<char>) -> Seq<char>
    decreases s.len(),
{
    if s.len() == 0 {
        Seq::empty()
    } else {
        esc_char(s[0]) + esc_str(s.drop_first())
    }
}

/// A JSON string: the escaped contents between double quotes.
pub open spec fn quoted(s: Seq<char>) -> Seq<char> {
    seq!['"'] + esc_str(s) + seq!['"']
}

/// An optional string field: `null` when absent.
pub open spec fn opt_str(o: Option<Seq<char>>) -> Seq<char> {
    match o {
        Option::None => "null"@,
        Option::Some(s) => quoted(s),
    }
}

proof fn lemma_esc_snoc(s: Seq<char>, c: char)
    ensures
        esc_str(s.push(c)) == esc_str(s) + esc_char(c),
    decreases s.len(),
{
    if s.len() == 0 {
        assert(s.push(c)[0] == c);
        assert(s.push(c).drop_first() =~= Seq::<char>::empty());
        assert(esc_str(Seq::<char>::empty()) == Seq::<char>::empty());
        assert(esc_str(s.push(c)) =~= esc_str(s) + esc_char(c));
    } else {
        assert(s.push(c)[0] == s[0]);
        assert(s.push(c).drop_first() =~= s.drop_first().push(c));
        lemma_esc_snoc(s.drop_first(), c);
        assert(esc_char(s[0]) + (esc_str(s.drop_first()) + esc_char(c)) =~= (esc_char(s[0])
            + esc_str(s.drop_first())) + esc_char(c));
    }
}

// ---------------------------------------------------------------------------
// Serializers (specification)
// ---------------------------------------------------------------------------
/// The JSON encoding of a board.
pub open spec fn ser_board(b: BoardV) -> Seq<char> {
    "{\"name\":"@ + quoted(b.name) + ",\"slug\":"@ + quoted(b.slug) + ",\"description\":"@
        + quoted(b.description) + "}"@
}

/// The JSON encoding of the fields shared by both post variants, without the
/// surrounding braces.
pub open spec fn ser_payload(p: ThreadPayloadV) -> Seq<char> {
    "\"id\":"@ + dec_of(p.id as nat) + ",\"nickname\":"@ + quoted(p.nickname) + ",\"title\":"@
        + quoted(p.title) + ",\"content\":"@ + quoted(p.content) + ",\"timestamp\":"@ + dec_of(
        p.timestamp as nat,
    ) + ",\"board\":"@ + quoted(p.board) + ",\"image_1\":"@ + opt_str(p.image_1) + ",\"image_2\":"@
        + opt_str(p.image_2) + ",\"image_3\":"@ + opt_str(p.image_3)
}

/// The JSON encoding of a post.  A comment carries its `parent_thread`
/// field first; a thread opener goes straight into the shared payload.
pub open spec fn ser_thread(t: ThreadV) -> Seq<char> {
    match t {
        ThreadV::Parent(p) => "{"@ + ser_payload(p) + "}"@,
        ThreadV::Comment { parent_thread, payload } => "{\"parent_thread\":"@ + dec_of(
            parent_thread as nat,
        ) + ","@ + ser_payload(payload) + "}"@,
    }
}

// ---------------------------------------------------------------------------
// Parsers (specification)
// ---------------------------------------------------------------------------
/// Consumes the exact literal `lit` at position `i`.
pub open spec fn p_lit(s: Seq<char>, i: int, lit: Seq<char>) -> Option<int> {
    if 0 <= i && i + lit.len() <= s.len() && s.subrange(i, i + lit.len()) == lit {
        Option::Some(i + lit.len())
    } else {
        Option::None
    }
}

/// Consumes the rest of a JSON string after the opening quote, up to and
/// including the closing quote, yielding the unescaped contents.
pub open spec fn p_str_body(s: Seq<char>, i: int) -> Option<(Seq<char>, int)>
    decreases s.len() - i,
{
    if i < 0 || i >= s.len() {
        Option::None
    } else if s[i] == '"' {
        Option::Some((Seq::empty(), i + 1))
    } else if s[i] == '\\' {
        if i + 1 < s.len() && valid_esc_code(s[i + 1]) {
            match p_str_body(s, i + 2) {
                Option::Some((t, j)) => Option::Some((seq![unesc_code(s[i + 1])] + t, j)),
                Option::None => Option::None,
            }
        } else {
            Option::None
        }
    } else {
        match p_str_body(s, i + 1) {
            Option::Some((t, j)) => Option::Some((seq![s[i]] + t, j)),
            Option::None => Option::None,
        }
    }
}

/// Consumes a complete JSON string starting at `i`.
pub open spec fn p_string(s: Seq<char>, i: int) -> Option<(Seq<char>, int)> {
    if 0 <= i < s.len() && s[i] == '"' {
        p_str_body(s, i + 1)
    } else {
        Option::None
    }
}

/// The end of the run of decimal digits starting at `i`.
pub open spec fn run_end(s: Seq<char>, i: int) -> int
    decreases s.len() - i,
{
    if 0 <= i < s.len() && is_dec_digit(s[i]) {
        run_end(s, i + 1)
    } else {
        i
    }
}

/// Consumes a decimal number that fits in a `u64`.
pub open spec fn p_num(s: Seq<char>, i: int) -> Option<(u64, int)> {
    if 0 <= i < s.len() && is_dec_digit(s[i]) {
        let j = run_end(s, i);
        let v = val_of_digits(s.subrange(i, j));
        if v <= u64::MAX {
            Option::Some((v as u64, j))
        } else {
            Option::None
        }
    } else {
        Option::None
    }
}

/// Consumes either `null` or a JSON string.
pub open spec fn p_opt(s: Seq<char>, i: int) -> Option<(Option<Seq<char>>, int)> {
    if i < 0 || i >= s.len() {
        Option::None
    } else if s[i] == 'n' {
        match p_lit(s, i, "null"@) {
            Option::Some(j) => Option::Some((Option::None, j)),
            Option::None => Option::None,
        }
    } else {
        match p_string(s, i) {
            Option::Some((t, j)) => Option::Some((Option::Some(t), j)),
            Option::None => Option::None,
        }
    }
}

/// Parses a whole board object.
pub open spec fn p_board(s: Seq<char>) -> Option<BoardV> {
    match p_lit(s, 0, "{\"name\":"@) {
        Option::None => Option::None,
        Option::Some(i1) => match p_string(s, i1) {
            Option::None => Option::None,
            Option::Some((name, i2)) => match p_lit(s, i2, ",\"slug\":"@) {
                Option::None => Option::None,
                Option::Some(i3) => match p_string(s, i3) {
                    Option::None => Option::None,
                    Option::Some((slug, i4)) => match p_lit(s, i4, ",\"description\":"@) {
                        Option::None => Option::None,
                        Option::Some(i5) => match p_string(s, i5) {
                            Option::None => Option::None,
                            Option::Some((description, i6)) => match p_lit(s, i6, "}"@) {
                                Option::None => Option::None,
                                Option::Some(i7) => if i7 == s.len() {
                                    Option::Some(BoardV { name, slug, description })
                                } else {
                                    Option::None
                                },
                            },
                        },
                    },
                },
            },
        },
    }
}

/// Parses the shared payload fields starting at `i`.
pub open spec fn p_payload(s: Seq<char>, i: int) -> Option<(ThreadPayloadV, int)> {
    match p_lit(s, i, "\"id\":"@) {
        Option::None => Option::None,
        Option::Some(i1) => match p_num(s, i1) {
            Option::None => Option::None,
            Option::Some((id, i2)) => match p_lit(s, i2, ",\"nickname\":"@) {
                Option::None => Option::None,
                Option::Some(i3) => match p_string(s, i3) {
                    Option::None => Option::None,
                    Option::Some((nickname, i4)) => match p_lit(s, i4, ",\"title\":"@) {
                        Option::None => Option::None,
                        Option::Some(i5) => match p_string(s, i5) {
                            Option::None => Option::None,
                            Option::Some((title, i6)) => match p_lit(s, i6, ",\"content\":"@) {
                                Option::None => Option::None,
                                Option::Some(i7) => match p_string(s, i7) {
                                    Option::None => Option::None,
                                    Option::Some((content, i8)) => match p_lit(
                                        s,
                                        i8,
                                        ",\"timestamp\":"@,
                                    ) {
                                        Option::None => Option::None,
                                        Option::Some(i9) => match p_num(s, i9) {
                                            Option::None => Option::None,
                                            Option::Some((timestamp, i10)) => match p_lit(
                                                s,
                                                i10,
                                                ",\"board\":"@,
                                            ) {
                                                Option::None => Option::None,
                                                Option::Some(i11) => match p_string(s, i11) {
                                                    Option::None => Option::None,
                                                    Option::Some((board, i12)) => match p_lit(
                                                        s,
                                                        i12,
                                                        ",\"image_1\":"@,
                                                    ) {
                                                        Option::None => Option::None,
                                                        Option::Some(i13) => match p_opt(s, i13) {
                                                            Option::None => Option::None,
                                                            Option::Some((image_1, i14)) => match p_lit(
                                                                s,
                                                                i14,
                                                                ",\"image_2\":"@,
                                                            ) {
                                                                Option::None => Option::None,
                                                                Option::Some(i15) => match p_opt(
                                                                    s,
                                                                    i15,
                                                                ) {
                                                                    Option::None => Option::None,
                                                                    Option::Some(
                                                                        (image_2, i16),
                                                                    ) => match p_lit(
                                                                        s,
                                                                        i16,
                                                                        ",\"image_3\":"@,
                                                                    ) {
                                                                        Option::None => Option::None,
                                                                        Option::Some(i17) => match p_opt(
                                                                            s,
                                                                            i17,
                                                                        ) {
                                                                            Option::None => Option::None,
                                                                            Option::Some(
                                                                                (image_3, i18),
                                                                            ) => Option::Some(
                                                                                (
                                                                                    ThreadPayloadV {
                                                                                        id,
                                                                                        nickname,
                                                                                        title,
                                                                                        content,
                                                                                        timestamp,
                                                                                        board,
                                                                                        image_1,
                                                                                        image_2,
                                                                                        image_3,
                                                                                    },
                                                                                    i18,
                                                                                ),
                                                                            ),
                                                                        },
                                                                    },
                                                                },
                                                            },
                                                        },
                                                    },
                                                },
                                            },
                                        },
                                    },
                                },
                            },
                        },
                    },
                },
            },
        },
    }
}

/// Parses a whole post object, telling the variants apart by the presence
/// of the `parent_thread` field.
pub open spec fn p_thread(s: Seq<char>) -> Option<ThreadV> {
    match p_lit(s, 0, "{\"parent_thread\":"@) {
        Option::Some(i1) => match p_num(s, i1) {
            Option::None => Option::None,
            Option::Some((parent_thread, i2)) => match p_lit(s, i2, ","@) {
                Option::None => Option::None,
                Option::Some(i3) => match p_payload(s, i3) {
                    Option::None => Option::None,
                    Option::Some((payload, i4)) => match p_lit(s, i4, "}"@) {
                        Option::None => Option::None,
                        Option::Some(i5) => if i5 == s.len() {
                            Option::Some(ThreadV::Comment { parent_thread, payload })
                        } else {
                            Option::None
                        },
                    },
                },
            },
        },
        Option::None => match p_lit(s, 0, "{"@) {
            Option::None => Option::None,
            Option::Some(i1) => match p_payload(s, i1) {
                Option::None => Option::None,
                Option::Some((payload, i2)) => match p_lit(s, i2, "}"@) {
                    Option::None => Option::None,
                    Option::Some(i3) => if i3 == s.len() {
                        Option::Some(ThreadV::Parent(payload))
                    } else {
                        Option::None
                    },
                },
            },
        },
    }
}

// ---------------------------------------------------------------------------
// Round trip: parsing a serialized entity gives the entity back
// ---------------------------------------------------------------------------
proof fn lemma_p_lit(pre: Seq<char>, lit: Seq<char>, rest: Seq<char>)
    ensures
        p_lit(pre + lit + rest, pre.len() as int, lit) == Option::Some(
            pre.len() + lit.len() as int,
        ),
{
    let s = pre + lit + rest;
    assert(s.subrange(pre.len() as int, pre.len() + lit.len() as int) =~= lit);
}

proof fn lemma_p_body(pre: Seq<char>, x: Seq<char>, rest: Seq<char>)
    ensures
        p_str_body(pre + esc_str(x) + seq!['"'] + rest, pre.len() as int) == Option::Some(
            (x, (pre.len() + esc_str(x).len() + 1) as int),
        ),
    decreases x.len(),
{
    let s = pre + esc_str(x) + seq!['"'] + rest;
    let i = pre.len() as int;
    if x.len() == 0 {
        assert(esc_str(x) == Seq::<char>::empty());
        assert(s[i] == '"');
        assert(Seq::<char>::empty() =~= x);
    } else {
        let c = x[0];
        let x2 = x.drop_first();
        assert(esc_str(x) == esc_char(c) + esc_str(x2));
        if needs_esc(c) {
            assert(esc_str(x)[0] == '\\');
            assert(esc_str(x)[1] == esc_code(c));
            assert(s[i] == '\\');
            assert(s[i + 1] == esc_code(c));
            assert(valid_esc_code(esc_code(c)));
            assert(unesc_code(esc_code(c)) == c);
            let pre2 = pre + seq!['\\', esc_code(c)];
            assert(pre2 + esc_str(x2) + seq!['"'] + rest =~= s);
            lemma_p_body(pre2, x2, rest);
            assert(seq![unesc_code(s[i + 1])] + x2 =~= x);
        } else {
            assert(esc_str(x)[0] == c);
            assert(s[i] == c);
            let pre2 = pre + seq![c];
            assert(pre2 + esc_str(x2) + seq!['"'] + rest =~= s);
            lemma_p_body(pre2, x2, rest);
            assert(seq![s[i]] + x2 =~= x);
        }
    }
}

proof fn lemma_p_string(pre: Seq<char>, x: Seq<char>, rest: Seq<char>)
    ensures
        p_string(pre + quoted(x) + rest, pre.len() as int) == Option::Some(
            (x, (pre.len() + quoted(x).len()) as int),
        ),
{
    let s = pre + quoted(x) + rest;
    let i = pre.len() as int;
    assert(quoted(x)[0] == '"');
    assert(s[i] == '"');
    let pre2 = pre + seq!['"'];
    assert(pre2 + esc_str(x) + seq!['"'] + rest =~= s);
    lemma_p_body(pre2, x, rest);
}

proof fn lemma_run_end_char(s: Seq<char>, i: int, j: int)
    requires
        0 <= i <= j <= s.len(),
        forall|k: int| i <= k < j ==> is_dec_digit(#[trigger] s[k]),
        j == s.len() || !is_dec_digit(s[j]),
    ensures
        run_end(s, i) == j,
    decreases j - i,
{
    if i < j {
        lemma_run_end_char(s, i + 1, j);
    }
}

proof fn lemma_p_num(pre: Seq<char>, n: u64, rest: Seq<char>)
    requires
        rest.len() > 0,
        !is_dec_digit(rest[0]),
    ensures
        p_num(pre + dec_of(n as nat) + rest, pre.len() as int) == Option::Some(
            (n, (pre.len() + dec_of(n as nat).len()) as int),
        ),
{
    let d = dec_of(n as nat);
    let s = pre + d + rest;
    let i = pre.len() as int;
    let j = i + d.len();
    lemma_dec_of_digits(n as nat);
    lemma_dec_of_len(n as nat);
    assert forall|k: int| i <= k < j implies is_dec_digit(#[trigger] s[k]) by {
        assert(s[k] == d[k - i]);
    }
    assert(s[j] == rest[0]);
    lemma_run_end_char(s, i, j);
    assert(s.subrange(i, j) =~= d);
    lemma_val_of_dec(n as nat);
}

proof fn lemma_p_opt(pre: Seq<char>, o: Option<Seq<char>>, rest: Seq<char>)
    ensures
        p_opt(pre + opt_str(o) + rest, pre.len() as int) == Option::Some(
            (o, (pre.len() + opt_str(o).len()) as int),
        ),
{
    let s = pre + opt_str(o) + rest;
    let i = pre.len() as int;
    match o {
        Option::None => {
            reveal_strlit("null");
            assert(s[i] == 'n');
            lemma_p_lit(pre, "null"@, rest);
        },
        Option::Some(x) => {
            assert(quoted(x)[0] == '"');
            assert(s[i] == '"');
            lemma_p_string(pre, x, rest);
        },
    }
}

proof fn seq_assoc(a: Seq<char>, b: Seq<char>, c: Seq<char>)
    ensures
        a + b + c == a + (b + c),
{
    assert(a + b + c =~= a + (b + c));
}

#[verifier::rlimit(100)]
proof fn lemma_p_payload(pre: Seq<char>, p: ThreadPayloadV, rest: Seq<char>)
    ensures
        p_payload(pre + ser_payload(p) + rest, pre.len() as int) == Option::Some(
            (p, (pre.len() + ser_payload(p).len()) as int),
        ),
{
    reveal_strlit("\"id\":");
    reveal_strlit(",\"nickname\":");
    reveal_strlit(",\"title\":");
    reveal_strlit(",\"content\":");
    reveal_strlit(",\"timestamp\":");
    reveal_strlit(",\"board\":");
    reveal_strlit(",\"image_1\":");
    reveal_strlit(",\"image_2\":");
    reveal_strlit(",\"image_3\":");
    let s0 = "\"id\":"@;
    let s1 = dec_of(p.id as nat);
    let s2 = ",\"nickname\":"@;
    let s3 = quoted(p.nickname);
    let s4 = ",\"title\":"@;
    let s5 = quoted(p.title);
    let s6 = ",\"content\":"@;
    let s7 = quoted(p.content);
    let s8 = ",\"timestamp\":"@;
    let s9 = dec_of(p.timestamp as nat);
    let s10 = ",\"board\":"@;
    let s11 = quoted(p.board);
    let s12 = ",\"image_1\":"@;
    let s13 = opt_str(p.image_1);
    let s14 = ",\"image_2\":"@;
    let s15 = opt_str(p.image_2);
    let s16 = ",\"image_3\":"@;
    let s17 = opt_str(p.image_3);
    let sp = ser_payload(p);
    let s = pre + sp + rest;
    let c0 = s0;
    let c1 = c0 + s1;
    let c2 = c1 + s2;
    let c3 = c2 + s3;
    let c4 = c3 + s4;
    let c5 = c4 + s5;
    let c6 = c5 + s6;
    let c7 = c6 + s7;
    let c8 = c7 + s8;
    let c9 = c8 + s9;
    let c10 = c9 + s10;
    let c11 = c10 + s11;
    let c12 = c11 + s12;
    let c13 = c12 + s13;
    let c14 = c13 + s14;
    let c15 = c14 + s15;
    let c16 = c15 + s16;
    assert(sp == c16 + s17);
    let t18 = rest;
    let t17 = s17 + t18;
    let t16 = s16 + t17;
    let t15 = s15 + t16;
    let t14 = s14 + t15;
    let t13 = s13 + t14;
    let t12 = s12 + t13;
    let t11 = s11 + t12;
    let t10 = s10 + t11;
    let t9 = s9 + t10;
    let t8 = s8 + t9;
    let t7 = s7 + t8;
    let t6 = s6 + t7;
    let t5 = s5 + t6;
    let t4 = s4 + t5;
    let t3 = s3 + t4;
    let t2 = s2 + t3;
    let t1 = s1 + t2;
    let t0 = s0 + t1;
    seq_assoc(c16, s17, rest);
    seq_assoc(c15, s16, t17);
    seq_assoc(c14, s15, t16);
    seq_assoc(c13, s14, t15);
    seq_assoc(c12, s13, t14);
    seq_assoc(c11, s12, t13);
    seq_assoc(c10, s11, t12);
    seq_assoc(c9, s10, t11);
    seq_assoc(c8, s9, t10);
    seq_assoc(c7, s8, t9);
    seq_assoc(c6, s7, t8);
    seq_assoc(c5, s6, t7);
    seq_assoc(c4, s5, t6);
    seq_assoc(c3, s4, t5);
    seq_assoc(c2, s3, t4);
    seq_assoc(c1, s2, t3);
    seq_assoc(c0, s1, t2);
    assert(sp + rest == t0);
    seq_assoc(pre, sp, rest);
    let a0 = pre;
    let a1 = a0 + s0;
    let a2 = a1 + s1;
    let a3 = a2 + s2;
    let a4 = a3 + s3;
    let a5 = a4 + s4;
    let a6 = a5 + s5;
    let a7 = a6 + s6;
    let a8 = a7 + s7;
    let a9 = a8 + s8;
    let a10 = a9 + s9;
    let a11 = a10 + s10;
    let a12 = a11 + s11;
    let a13 = a12 + s12;
    let a14 = a13 + s13;
    let a15 = a14 + s14;
    let a16 = a15 + s15;
    let a17 = a16 + s16;
    let a18 = a17 + s17;
    assert(s == a0 + t0);
    seq_assoc(a0, s0, t1);
    seq_assoc(a1, s1, t2);
    seq_assoc(a2, s2, t3);
    seq_assoc(a3, s3, t4);
    seq_assoc(a4, s4, t5);
    seq_assoc(a5, s5, t6);
    seq_assoc(a6, s6, t7);
    seq_assoc(a7, s7, t8);
    seq_assoc(a8, s8, t9);
    seq_assoc(a9, s9, t10);
    seq_assoc(a10, s10, t11);
    seq_assoc(a11, s11, t12);
    seq_assoc(a12, s12, t13);
    seq_assoc(a13, s13, t14);
    seq_assoc(a14, s14, t15);
    seq_assoc(a15, s15, t16);
    seq_assoc(a16, s16, t17);
    seq_assoc(a17, s17, t18);
    lemma_p_lit(a0, s0, t1);
    assert(p_lit(s, a0.len() as int, s0) == Option::Some(a1.len() as int));
    assert(t2[0] == ',');
    lemma_p_num(a1, p.id, t2);
    assert(p_num(s, a1.len() as int) == Option::Some((p.id, a2.len() as int)));
    lemma_p_lit(a2, s2, t3);
    assert(p_lit(s, a2.len() as int, s2) == Option::Some(a3.len() as int));
    lemma_p_string(a3, p.nickname, t4);
    assert(p_string(s, a3.len() as int) == Option::Some((p.nickname, a4.len() as int)));
    lemma_p_lit(a4, s4, t5);
    assert(p_lit(s, a4.len() as int, s4) == Option::Some(a5.len() as int));
    lemma_p_string(a5, p.title, t6);
    assert(p_string(s, a5.len() as int) == Option::Some((p.title, a6.len() as int)));
    lemma_p_lit(a6, s6, t7);
    assert(p_lit(s, a6.len() as int, s6) == Option::Some(a7.len() as int));
    lemma_p_string(a7, p.content, t8);
    assert(p_string(s, a7.len() as int) == Option::Some((p.content, a8.len() as int)));
    lemma_p_lit(a8, s8, t9);
    assert(p_lit(s, a8.len() as int, s8) == Option::Some(a9.len() as int));
    assert(t10[0] == ',');
    lemma_p_num(a9, p.timestamp, t10);
    assert(p_num(s, a9.len() as int) == Option::Some((p.timestamp, a10.len() as int)));
    lemma_p_lit(a10, s10, t11);
    assert(p_lit(s, a10.len() as int, s10) == Option::Some(a11.len() as int));
    lemma_p_string(a11, p.board, t12);
    assert(p_string(s, a11.len() as int) == Option::Some((p.board, a12.len() as int)));
    lemma_p_lit(a12, s12, t13);
    assert(p_lit(s, a12.len() as int, s12) == Option::Some(a13.len() as int));
    lemma_p_opt(a13, p.image_1, t14);
    assert(p_opt(s, a13.len() as int) == Option::Some((p.image_1, a14.len() as int)));
    lemma_p_lit(a14, s14, t15);
    assert(p_lit(s, a14.len() as int, s14) == Option::Some(a15.len() as int));
    lemma_p_opt(a15, p.image_2, t16);
    assert(p_opt(s, a15.len() as int) == Option::Some((p.image_2, a16.len() as int)));
    lemma_p_lit(a16, s16, t17);
    assert(p_lit(s, a16.len() as int, s16) == Option::Some(a17.len() as int));
    lemma_p_opt(a17, p.image_3, t18);
    assert(p_opt(s, a17.len() as int) == Option::Some((p.image_3, a18.len() as int)));
    assert(a18.len() == pre.len() + sp.len());
}

/// Parsing a serialized board yields the board unchanged: the codec is
/// lossless on every board value.
pub proof fn lemma_board_round_trip(b: BoardV)
    ensures
        p_board(ser_board(b)) == Option::Some(b),
{
    reveal_strlit("{\"name\":");
    reveal_strlit(",\"slug\":");
    reveal_strlit(",\"description\":");
    reveal_strlit("}");
    let l1 = "{\"name\":"@;
    let l2 = ",\"slug\":"@;
    let l3 = ",\"description\":"@;
    let l4 = "}"@;
    let s = ser_board(b);
    let t7 = Seq::<char>::empty();
    let t6 = l4 + t7;
    let t5 = quoted(b.description) + t6;
    let t4 = l3 + t5;
    let t3 = quoted(b.slug) + t4;
    let t2 = l2 + t3;
    let t1 = quoted(b.name) + t2;
    let t0 = l1 + t1;
    let a0 = Seq::<char>::empty();
    let a1 = a0 + l1;
    let a2 = a1 + quoted(b.name);
    let a3 = a2 + l2;
    let a4 = a3 + quoted(b.slug);
    let a5 = a4 + l3;
    let a6 = a5 + quoted(b.description);
    let a7 = a6 + l4;
    assert(s =~= a0 + t0);
    assert(a1 + t1 =~= a0 + t0);
    assert(a2 + t2 =~= a1 + t1);
    assert(a3 + t3 =~= a2 + t2);
    assert(a4 + t4 =~= a3 + t3);
    assert(a5 + t5 =~= a4 + t4);
    assert(a6 + t6 =~= a5 + t5);
    assert(a7 + t7 =~= a6 + t6);
    lemma_p_lit(a0, l1, t1);
    lemma_p_string(a1, b.name, t2);
    lemma_p_lit(a2, l2, t3);
    lemma_p_string(a3, b.slug, t4);
    lemma_p_lit(a4, l3, t5);
    lemma_p_string(a5, b.description, t6);
    lemma_p_lit(a6, l4, t7);
    assert(a7 =~= s);
}

/// Parsing a serialized post yields the post unchanged, for both variants:
/// the codec is lossless on every thread value, and the `parent_thread`
/// field alone decides the variant.
pub proof fn lemma_thread_round_trip(t: ThreadV)
    ensures
        p_thread(ser_thread(t)) == Option::Some(t),
{
    reveal_strlit("{\"parent_thread\":");
    reveal_strlit("{");
    reveal_strlit("}");
    reveal_strlit(",");
    reveal_strlit("\"id\":");
    let lpt = "{\"parent_thread\":"@;
    let s = ser_thread(t);
    match t {
        ThreadV::Parent(p) => {
            let l1 = "{"@;
            let l4 = "}"@;
            let t3 = Seq::<char>::empty();
            let t2 = l4 + t3;
            let t1 = ser_payload(p) + t2;
            let t0 = l1 + t1;
            let a0 = Seq::<char>::empty();
            let a1 = a0 + l1;
            let a2 = a1 + ser_payload(p);
            let a3 = a2 + l4;
            assert(s =~= a0 + t0);
            assert(a1 + t1 =~= a0 + t0);
            assert(a2 + t2 =~= a1 + t1);
            assert(a3 + t3 =~= a2 + t2);
            assert(p_lit(s, 0, lpt) is None) by {
                if 0 + lpt.len() <= s.len() && s.subrange(0, lpt.len() as int) == lpt {
                    assert(s.subrange(0, lpt.len() as int)[2] == s[2]);
                    assert(ser_payload(p) == "\"id\":"@ + dec_of(p.id as nat) + ",\"nickname\":"@
                        + quoted(p.nickname) + ",\"title\":"@ + quoted(p.title) + ",\"content\":"@
                        + quoted(p.content) + ",\"timestamp\":"@ + dec_of(p.timestamp as nat)
                        + ",\"board\":"@ + quoted(p.board) + ",\"image_1\":"@ + opt_str(p.image_1)
                        + ",\"image_2\":"@ + opt_str(p.image_2) + ",\"image_3\":"@ + opt_str(
                        p.image_3,
                    ));
                    assert(ser_payload(p)[1] == 'i');
                    assert(s[2] == ser_payload(p)[1]);
                    assert(lpt[2] == 'p');
                    assert(false);
                }
            }
            lemma_p_lit(a0, l1, t1);
            lemma_p_payload(a1, p, t2);
            lemma_p_lit(a2, l4, t3);
            assert(a3 =~= s);
        },
        ThreadV::Comment { parent_thread, payload } => {
            let l1 = lpt;
            let l2 = ","@;
            let l4 = "}"@;
            let t5 = Seq::<char>::empty();
            let t4 = l4 + t5;
            let t3 = ser_payload(payload) + t4;
            let t2 = l2 + t3;
            let t1 = dec_of(parent_thread as nat) + t2;
            let t0 = l1 + t1;
            let a0 = Seq::<char>::empty();
            let a1 = a0 + l1;
            let a2 = a1 + dec_of(parent_thread as nat);
            let a3 = a2 + l2;
            let a4 = a3 + ser_payload(payload);
            let a5 = a4 + l4;
            assert(s =~= a0 + t0);
            assert(a1 + t1 =~= a0 + t0);
            assert(a2 + t2 =~= a1 + t1);
            assert(a3 + t3 =~= a2 + t2);
            assert(a4 + t4 =~= a3 + t3);
            assert(a5 + t5 =~= a4 + t4);
            lemma_p_lit(a0, l1, t1);
            assert(t2[0] == ',');
            lemma_p_num(a1, parent_thread, t2);
            lemma_p_lit(a2, l2, t3);
            lemma_p_payload(a3, payload, t4);
            lemma_p_lit(a4, l4, t5);
            assert(a5 =~= s);
        },
    }
}

// ---------------------------------------------------------------------------
// Serializers (executable)
// ---------------------------------------------------------------------------
fn push_lit(out: &mut Vec<char>, lit: &str)
    ensures
        final(out)@ == old(out)@ + lit@,
{
    let mut l = str_to_chars(lit);
    out.append(&mut l);
}

fn needs_esc_exec(c: char) -> (r: bool)
    ensures
        r == needs_esc(c),
{
    c == '"' || c == '\\' || c == '\n' || c == '\r' || c == '\t'
}

fn esc_code_exec(c: char) -> (r: char)
    ensures
        r == esc_code(c),
{
    if c == '"' {
        '"'
    } else if c == '\\' {
        '\\'
    } else if c == '\n' {
        'n'
    } else if c == '\r' {
        'r'
    } else {
        't'
    }
}

fn push_escaped(out: &mut Vec<char>, s: &str)
    ensures
        final(out)@ == old(out)@ + esc_str(s@),
{
    let cs = str_to_chars(s);
    let n = cs.len();
    let mut k: usize = 0;
    while k < n
        invariant
            cs@ == s@,
            n == cs.len(),
            k <= n,
            out@ == old(out)@ + esc_str(s@.subrange(0, k as int)),
        decreases n - k,
    {
        let c = cs[k];
        proof {
            assert(s@.subrange(0, k + 1 as int) =~= s@.subrange(0, k as int).push(s@[k as int]));
            lemma_esc_snoc(s@.subrange(0, k as int), s@[k as int]);
        }
        if needs_esc_exec(c) {
            out.push('\\');
            out.push(esc_code_exec(c));
        } else {
            out.push(c);
        }
        proof {
            assert(out@ =~= old(out)@ + esc_str(s@.subrange(0, k + 1 as int)));
        }
        k += 1;
    }
    proof {
        assert(s@.subrange(0, n as int) =~= s@);
    }
}

fn push_quoted(out: &mut Vec<char>, s: &str)
    ensures
        final(out)@ == old(out)@ + quoted(s@),
{
    out.push('"');
    push_escaped(out, s);
    out.push('"');
    proof {
        assert(out@ =~= old(out)@ + quoted(s@));
    }
}

fn push_opt(out: &mut Vec<char>, o: &Option<String>)
    ensures
        final(out)@ == old(out)@ + opt_str(o.deep_view()),
{
    match o {
        Option::None => push_lit(out, "null"),
        Option::Some(s) => push_quoted(out, s.as_str()),
    }
}

fn push_dec(out: &mut Vec<char>, n: u64)
    ensures
        final(out)@ == old(out)@ + dec_of(n as nat),
{
    let mut d = u64_to_dec_chars(n);
    out.append(&mut d);
}

/// Writes a board in the stable JSON encoding.
pub fn serialize_board(b: &Board) -> (r: String)
    ensures
        r@ == ser_board(b@),
{
    let mut out: Vec<char> = Vec::new();
    push_lit(&mut out, "{\"name\":");
    push_quoted(&mut out, b.name.as_str());
    push_lit(&mut out, ",\"slug\":");
    push_quoted(&mut out, b.slug.as_str());
    push_lit(&mut out, ",\"description\":");
    push_quoted(&mut out, b.description.as_str());
    push_lit(&mut out, "}");
    proof {
        assert(out@ =~= ser_board(b@));
    }
    chars_to_string(&out)
}

fn push_payload(out: &mut Vec<char>, p: &ThreadPayload)
    ensures
        final(out)@ == old(out)@ + ser_payload(p@),
{
    push_lit(out, "\"id\":");
    push_dec(out, p.id);
    push_lit(out, ",\"nickname\":");
    push_quoted(out, p.nickname.as_str());
    push_lit(out, ",\"title\":");
    push_quoted(out, p.title.as_str());
    push_lit(out, ",\"content\":");
    push_quoted(out, p.content.as_str());
    push_lit(out, ",\"timestamp\":");
    push_dec(out, p.timestamp);
    push_lit(out, ",\"board\":");
    push_quoted(out, p.board.as_str());
    push_lit(out, ",\"image_1\":");
    push_opt(out, &p.image_1);
    push_lit(out, ",\"image_2\":");
    push_opt(out, &p.image_2);
    push_lit(out, ",\"image_3\":");
    push_opt(out, &p.image_3);
    proof {
        let o = old(out)@;
        let s0 = "\"id\":"@;
        let s1 = dec_of(p@.id as nat);
        let s2 = ",\"nickname\":"@;
        let s3 = quoted(p@.nickname);
        let s4 = ",\"title\":"@;
        let s5 = quoted(p@.title);
        let s6 = ",\"content\":"@;
        let s7 = quoted(p@.content);
        let s8 = ",\"timestamp\":"@;
        let s9 = dec_of(p@.timestamp as nat);
        let s10 = ",\"board\":"@;
        let s11 = quoted(p@.board);
        let s12 = ",\"image_1\":"@;
        let s13 = opt_str(p@.image_1);
        let s14 = ",\"image_2\":"@;
        let s15 = opt_str(p@.image_2);
        let s16 = ",\"image_3\":"@;
        let s17 = opt_str(p@.image_3);
        let c0 = s0;
        let c1 = c0 + s1;
        let c2 = c1 + s2;
        let c3 = c2 + s3;
        let c4 = c3 + s4;
        let c5 = c4 + s5;
        let c6 = c5 + s6;
        let c7 = c6 + s7;
        let c8 = c7 + s8;
        let c9 = c8 + s9;
        let c10 = c9 + s10;
        let c11 = c10 + s11;
        let c12 = c11 + s12;
        let c13 = c12 + s13;
        let c14 = c13 + s14;
        let c15 = c14 + s15;
        let c16 = c15 + s16;
        let c17 = c16 + s17;
        seq_assoc(o, c0, s1);
        seq_assoc(o, c1, s2);
        seq_assoc(o, c2, s3);
        seq_assoc(o, c3, s4);
        seq_assoc(o, c4, s5);
        seq_assoc(o, c5, s6);
        seq_assoc(o, c6, s7);
        seq_assoc(o, c7, s8);
        seq_assoc(o, c8, s9);
        seq_assoc(o, c9, s10);
        seq_assoc(o, c10, s11);
        seq_assoc(o, c11, s12);
        seq_assoc(o, c12, s13);
        seq_assoc(o, c13, s14);
        seq_assoc(o, c14, s15);
        seq_assoc(o, c15, s16);
        seq_assoc(o, c16, s17);
        assert(out@ == o + c17);
    }
}

/// Writes a post in the stable JSON encoding.
pub fn serialize_thread(t: &Thread) -> (r: String)
    ensures
        r@ == ser_thread(t@),
{
    let mut out: Vec<char> = Vec::new();
    match t {
        Thread::Parent(p) => {
            push_lit(&mut out, "{");
            push_payload(&mut out, p);
            push_lit(&mut out, "}");
            proof {
                assert(out@ =~= ser_thread(t@));
            }
        },
        Thread::Comment { parent_thread, payload } => {
            push_lit(&mut out, "{\"parent_thread\":");
            push_dec(&mut out, *parent_thread);
            push_lit(&mut out, ",");
            push_payload(&mut out, payload);
            push_lit(&mut out, "}");
            proof {
                assert(out@ =~= ser_thread(t@));
            }
        },
    }
    chars_to_string(&out)
}

// ---------------------------------------------------------------------------
// Parsers (executable)
// ---------------------------------------------------------------------------
fn expect_lit(v: &Vec<char>, i: usize, lit: &str) -> (r: Option<usize>)
    ensures
        match r {
            Option::Some(j) => p_lit(v@, i as int, lit@) == Option::Some(j as int) && i <= j
                <= v.len(),
            Option::None => p_lit(v@, i as int, lit@) is None,
        },
{
    let lc = str_to_chars(lit);
    let n = lc.len();
    if i > v.len() || n > v.len() - i {
        return Option::None;
    }
    let mut k: usize = 0;
    while k < n
        invariant
            lc@ == lit@,
            n == lc.len(),
            i + n <= v.len(),
            k <= n,
            forall|m: int| 0 <= m < k ==> v@[i + m] == lit@[m],
        decreases n - k,
    {
        if v[i + k] != lc[k] {
            proof {
                if v@.subrange(i as int, i + n) == lit@ {
                    assert(v@.subrange(i as int, i + n)[k as int] == v@[i + k]);
                    assert(false);
                }
            }
            return Option::None;
        }
        k += 1;
    }
    proof {
        assert(v@.subrange(i as int, i + n) =~= lit@);
    }
    Option::Some(i + n)
}

fn unesc_code_exec(c: char) -> (r: char)
    ensures
        r == unesc_code(c),
{
    if c == '"' {
        '"'
    } else if c == '\\' {
        '\\'
    } else if c == 'n' {
        '\n'
    } else if c == 'r' {
        '\r'
    } else {
        '\t'
    }
}

fn parse_body_exec(v: &Vec<char>, i: usize) -> (r: Option<(Vec<char>, usize)>)
    ensures
        match r {
            Option::Some((t, j)) => p_str_body(v@, i as int) == Option::Some((t@, j as int)) && i
                < j <= v.len(),
            Option::None => p_str_body(v@, i as int) is None,
        },
    decreases v@.len() - i,
{
    if i >= v.len() {
        return Option::None;
    }
    let c = v[i];
    if c == '"' {
        let t: Vec<char> = Vec::new();
        proof {
            assert(t@ =~= Seq::<char>::empty());
        }
        Option::Some((t, i + 1))
    } else if c == '\\' {
        if i + 1 < v.len() {
            let e = v[i + 1];
            if e == '"' || e == '\\' || e == 'n' || e == 'r' || e == 't' {
                match parse_body_exec(v, i + 2) {
                    Option::Some((mut t, j)) => {
                        let ghost t0 = t@;
                        let u = unesc_code_exec(e);
                        t.insert(0, u);
                        proof {
                            assert(t@ =~= seq![unesc_code(v@[i + 1])] + t0);
                        }
                        Option::Some((t, j))
                    },
                    Option::None => Option::None,
                }
            } else {
                Option::None
            }
        } else {
            Option::None
        }
    } else {
        match parse_body_exec(v, i + 1) {
            Option::Some((mut t, j)) => {
                let ghost t0 = t@;
                t.insert(0, c);
                proof {
                    assert(t@ =~= seq![v@[i as int]] + t0);
                }
                Option::Some((t, j))
            },
            Option::None => Option::None,
        }
    }
}

fn parse_string_exec(v: &Vec<char>, i: usize) -> (r: Option<(Vec<char>, usize)>)
    ensures
        match r {
            Option::Some((t, j)) => p_string(v@, i as int) == Option::Some((t@, j as int)) && j
                <= v.len(),
            Option::None => p_string(v@, i as int) is None,
        },
{
    if i < v.len() {
        let c = v[i];
        if c == '"' {
            return parse_body_exec(v, i + 1);
        }
    }
    Option::None
}

fn is_digit_exec(c: char) -> (r: bool)
    ensures
        r == is_dec_digit(c),
{
    let u = c as u32;
    48 <= u && u <= 57
}

fn digit_val_exec(c: char) -> (r: u64)
    requires
        is_dec_digit(c),
    ensures
        r == dval(c),
{
    ((c as u32 - 48) as u64)
}

fn parse_num_exec(v: &Vec<char>, i: usize) -> (r: Option<(u64, usize)>)
    ensures
        match r {
            Option::Some((x, j)) => p_num(v@, i as int) == Option::Some((x, j as int)) && i < j
                <= v.len(),
            Option::None => p_num(v@, i as int) is None,
        },
{
    if i >= v.len() {
        return Option::None;
    }
    if !is_digit_exec(v[i]) {
        return Option::None;
    }
    let mut j: usize = i;
    let mut acc: u128 = 0;
    let mut overflow = false;
    let max64: u128 = 18446744073709551615;
    while j < v.len() && is_digit_exec(v[j])
        invariant
            i <= j <= v.len(),
            forall|k: int| i <= k < j ==> is_dec_digit(#[trigger] v@[k]),
            run_end(v@, i as int) == run_end(v@, j as int),
            max64 == u64::MAX,
            !overflow ==> acc == val_of_digits(v@.subrange(i as int, j as int)) && acc <= max64,
            overflow ==> val_of_digits(v@.subrange(i as int, j as int)) > max64,
        decreases v.len() - j,
    {
        let c = v[j];
        let d = digit_val_exec(c);
        proof {
            assert(v@.subrange(i as int, j + 1 as int).drop_last() =~= v@.subrange(
                i as int,
                j as int,
            ));
            assert(v@.subrange(i as int, j + 1 as int).last() == v@[j as int]);
        }
        if !overflow {
            let next: u128 = acc * 10 + (d as u128);
            if next > max64 {
                overflow = true;
            } else {
                acc = next;
            }
        }
        j += 1;
    }
    proof {
        assert(run_end(v@, j as int) == j);
        assert(v@.subrange(i as int, run_end(v@, i as int)) == v@.subrange(i as int, j as int));
    }
    if overflow {
        Option::None
    } else {
        Option::Some((acc as u64, j))
    }
}

fn parse_opt_exec(v: &Vec<char>, i: usize) -> (r: Option<(Option<String>, usize)>)
    ensures
        match r {
            Option::Some((o, j)) => p_opt(v@, i as int) == Option::Some((o.deep_view(), j as int))
                && j <= v.len(),
            Option::None => p_opt(v@, i as int) is None,
        },
{
    if i >= v.len() {
        return Option::None;
    }
    if v[i] == 'n' {
        match expect_lit(v, i, "null") {
            Option::Some(j) => Option::Some((Option::None, j)),
            Option::None => Option::None,
        }
    } else {
        match parse_string_exec(v, i) {
            Option::Some((t, j)) => {
                let s = chars_to_string(&t);
                Option::Some((Option::Some(s), j))
            },
            Option::None => Option::None,
        }
    }
}

/// Reads a board back from the stable JSON encoding; `None` on any text the
/// encoding does not produce.
pub fn deserialize_board(s: &str) -> (r: Option<Board>)
    ensures
        match r {
            Option::Some(b) => p_board(s@) == Option::Some(b@),
            Option::None => p_board(s@) is None,
        },
{
    let v = str_to_chars(s);
    let i1 = match expect_lit(&v, 0, "{\"name\":") {
        Option::Some(i) => i,
        Option::None => {
            return Option::None;
        },
    };
    let (name, i2) = match parse_string_exec(&v, i1) {
        Option::Some(x) => x,
        Option::None => {
            return Option::None;
        },
    };
    let i3 = match expect_lit(&v, i2, ",\"slug\":") {
        Option::Some(i) => i,
        Option::None => {
            return Option::None;
        },
    };
    let (slug, i4) = match parse_string_exec(&v, i3) {
        Option::Some(x) => x,
        Option::None => {
            return Option::None;
        },
    };
    let i5 = match expect_lit(&v, i4, ",\"description\":") {
        Option::Some(i) => i,
        Option::None => {
            return Option::None;
        },
    };
    let (description, i6) = match parse_string_exec(&v, i5) {
        Option::Some(x) => x,
        Option::None => {
            return Option::None;
        },
    };
    let i7 = match expect_lit(&v, i6, "}") {
        Option::Some(i) => i,
        Option::None => {
            return Option::None;
        },
    };
    if i7 != v.len() {
        return Option::None;
    }
    let b = Board {
        name: chars_to_string(&name),
        slug: chars_to_string(&slug),
        description: chars_to_string(&description),
    };
    Option::Some(b)
}

#[verifier::rlimit(100)]
fn parse_payload_exec(v: &Vec<char>, i: usize) -> (r: Option<(ThreadPayload, usize)>)
    ensures
        match r {
            Option::Some((p, j)) => p_payload(v@, i as int) == Option::Some((p@, j as int)) && j
                <= v.len(),
            Option::None => p_payload(v@, i as int) is None,
        },
{
    let i1 = match expect_lit(v, i, "\"id\":") {
        Option::Some(x) => x,
        Option::None => {
            return Option::None;
        },
    };
    let (id, i2) = match parse_num_exec(v, i1) {
        Option::Some(x) => x,
        Option::None => {
            return Option::None;
        },
    };
    let i3 = match expect_lit(v, i2, ",\"nickname\":") {
        Option::Some(x) => x,
        Option::None => {
            return Option::None;
        },
    };
    let (nickname, i4) = match parse_string_exec(v, i3) {
        Option::Some(x) => x,
        Option::None => {
            return Option::None;
        },
    };
    let i5 = match expect_lit(v, i4, ",\"title\":") {
        Option::Some(x) => x,
        Option::None => {
            return Option::None;
        },
    };
    let (title, i6) = match parse_string_exec(v, i5) {
        Option::Some(x) => x,
        Option::None => {
            return Option::None;
        },
    };
    let i7 = match expect_lit(v, i6, ",\"content\":") {
        Option::Some(x) => x,
        Option::None => {
            return Option::None;
        },
    };
    let (content, i8) = match parse_string_exec(v, i7) {
        Option::Some(x) => x,
        Option::None => {
            return Option::None;
        },
    };
    let i9 = match expect_lit(v, i8, ",\"timestamp\":") {
        Option::Some(x) => x,
        Option::None => {
            return Option::None;
        },
    };
    let (timestamp, i10) = match parse_num_exec(v, i9) {
        Option::Some(x) => x,
        Option::None => {
            return Option::None;
        },
    };
    let i11 = match expect_lit(v, i10, ",\"board\":") {
        Option::Some(x) => x,
        Option::None => {
            return Option::None;
        },
    };
    let (board, i12) = match parse_string_exec(v, i11) {
        Option::Some(x) => x,
        Option::None => {
            return Option::None;
        },
    };
    let i13 = match expect_lit(v, i12, ",\"image_1\":") {
        Option::Some(x) => x,
        Option::None => {
            return Option::None;
        },
    };
    let (image_1, i14) = match parse_opt_exec(v, i13) {
        Option::Some(x) => x,
        Option::None => {
            return Option::None;
        },
    };
    let i15 = match expect_lit(v, i14, ",\"image_2\":") {
        Option::Some(x) => x,
        Option::None => {
            return Option::None;
        },
    };
    let (image_2, i16) = match parse_opt_exec(v, i15) {
        Option::Some(x) => x,
        Option::None => {
            return Option::None;
        },
    };
    let i17 = match expect_lit(v, i16, ",\"image_3\":") {
        Option::Some(x) => x,
        Option::None => {
            return Option::None;
        },
    };
    let (image_3, i18) = match parse_opt_exec(v, i17) {
        Option::Some(x) => x,
        Option::None => {
            return Option::None;
        },
    };
    let p = ThreadPayload {
        id,
        nickname: chars_to_string(&nickname),
        title: chars_to_string(&title),
        content: chars_to_string(&content),
        timestamp,
        board: chars_to_string(&board),
        image_1,
        image_2,
        image_3,
    };
    Option::Some((p, i18))
}

/// Reads a post back from the stable JSON encoding; `None` on any text the
/// encoding does not produce.
pub fn deserialize_thread(s: &str) -> (r: Option<Thread>)
    ensures
        match r {
            Option::Some(t) => p_thread(s@) == Option::Some(t@),
            Option::None => p_thread(s@) is None,
        },
{
    let v = str_to_chars(s);
    match expect_lit(&v, 0, "{\"parent_thread\":") {
        Option::Some(i1) => {
            let (parent_thread, i2) = match parse_num_exec(&v, i1) {
                Option::Some(x) => x,
                Option::None => {
                    return Option::None;
                },
            };
            let i3 = match expect_lit(&v, i2, ",") {
                Option::Some(x) => x,
                Option::None => {
                    return Option::None;
                },
            };
            let (payload, i4) = match parse_payload_exec(&v, i3) {
                Option::Some(x) => x,
                Option::None => {
                    return Option::None;
                },
            };
            let i5 = match expect_lit(&v, i4, "}") {
                Option::Some(x) => x,
                Option::None => {
                    return Option::None;
                },
            };
            if i5 != v.len() {
                return Option::None;
            }
            Option::Some(Thread::Comment { parent_thread, payload })
        },
        Option::None => {
            let i1 = match expect_lit(&v, 0, "{") {
                Option::Some(x) => x,
                Option::None => {
                    return Option::None;
                },
            };
            let (payload, i2) = match parse_payload_exec(&v, i1) {
                Option::Some(x) => x,
                Option::None => {
                    return Option::None;
                },
            };
            let i3 = match expect_lit(&v, i2, "}") {
                Option::Some(x) => x,
                Option::None => {
                    return Option::None;
                },
            };
            if i3 != v.len() {
                return Option::None;
            }
            Option::Some(Thread::Parent(payload))
        },
    }
}

} // verus!
