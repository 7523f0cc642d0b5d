//! Threads and comments: the shared post payload, the two-variant union,
//! and the content-derived identity keys they are stored under.

use vstd::prelude::*;

use crate::text::dec_of;
use crate::text::str_to_chars;
use crate::text::chars_to_string;
use crate::text::u64_to_dec_chars;

verus! {

/// The mathematical content of a [`ThreadPayload`].
#[verifier::ext_equal]
pub ghost struct ThreadPayloadV {
    pub id: u64,
    pub nickname: Seq<char>,
    pub title: Seq<char>,
    pub content: Seq<char>,
    pub timestamp: u64,
    pub board: Seq<char>,
    pub image_1: Option<Seq<char>>,
    pub image_2: Option<Seq<char>>,
    pub image_3: Option<Seq<char>>,
}

/// The fields shared by thread openers and comments.
#[derive(Debug, PartialEq)]
pub struct ThreadPayload {
    pub id: u64,
    pub nickname: String,
    pub title: String,
    pub content: String,
    pub timestamp: u64,
    pub board: String,
    pub image_1: Option<String>,
    pub image_2: Option<String>,
    pub image_3: Option<String>,
}

impl View for ThreadPayload {
    type V = ThreadPayloadV;

    open spec fn view(&self) -> ThreadPayloadV {
        ThreadPayloadV {
            id: self.id,
            nickname: self.nickname@,
            title: self.title@,
            content: self.content@,
            timestamp: self.timestamp,
            board: self.board@,
            image_1: self.image_1.deep_view(),
            image_2: self.image_2.deep_view(),
            image_3: self.image_3.deep_view(),
        }
    }
}

/// The mathematical content of a [`Thread`].
#[verifier::ext_equal]
pub ghost enum ThreadV {
    Parent(ThreadPayloadV),
    Comment { parent_thread: u64, payload: ThreadPayloadV },
}

/// A stored post: either a thread opener or a comment replying to one.
#[derive(Debug, PartialEq)]
pub enum Thread {
    Parent(ThreadPayload),
    Comment { parent_thread: u64, payload: ThreadPayload },
}

impl View for Thread {
    type V = ThreadV;

    open spec fn view(&self) -> ThreadV {
        match self {
            Thread::Parent(p) => ThreadV::Parent(p@),
            Thread::Comment { parent_thread, payload } => ThreadV::Comment {
                parent_thread: *parent_thread,
                payload: payload@,
            },
        }
    }
}

/// The timestamp of a post, whichever variant holds it.
pub open spec fn timestamp_of(t: ThreadV) -> u64 {
    match t {
        ThreadV::Parent(p) => p.timestamp,
        ThreadV::Comment { payload, .. } => payload.timestamp,
    }
}

/// The identity string of a post: board and timestamp first, so keys of one
/// board share a prefix, then the globally unique id, and for a comment the
/// id of the thread it replies to.
pub open spec fn thread_ident_of(t: ThreadV) -> Seq<char> {
    match t {
        ThreadV::Parent(p) => "thread:"@ + p.board + ":"@ + dec_of(p.timestamp as nat) + ":"@
            + dec_of(p.id as nat),
        ThreadV::Comment { parent_thread, payload: p } => "thread:"@ + p.board + ":"@ + dec_of(
            p.timestamp as nat,
        ) + ":"@ + dec_of(p.id as nat) + ":"@ + dec_of(parent_thread as nat),
    }
}

impl Thread {
    /// The store key of this post, as given by [`thread_ident_of`].
    pub fn ident(&self) -> (r: String)
        ensures
            r@ == thread_ident_of(self@),
    {
        match self {
            Thread::Parent(p) => {
                let mut v = str_to_chars("thread:");
                let mut part = str_to_chars(p.board.as_str());
                v.append(&mut part);
                let mut colon = str_to_chars(":");
                v.append(&mut colon);
                let mut ts = u64_to_dec_chars(p.timestamp);
                v.append(&mut ts);
                let mut colon2 = str_to_chars(":");
                v.append(&mut colon2);
                let mut id = u64_to_dec_chars(p.id);
                v.append(&mut id);
                chars_to_string(&v)
            },
            Thread::Comment { parent_thread, payload: p } => {
                let mut v = str_to_chars("thread:");
                let mut part = str_to_chars(p.board.as_str());
                v.append(&mut part);
                let mut colon = str_to_chars(":");
                v.append(&mut colon);
                let mut ts = u64_to_dec_chars(p.timestamp);
                v.append(&mut ts);
                let mut colon2 = str_to_chars(":");
                v.append(&mut colon2);
                let mut id = u64_to_dec_chars(p.id);
                v.append(&mut id);
                let mut colon3 = str_to_chars(":");
                v.append(&mut colon3);
                let mut pt = u64_to_dec_chars(*parent_thread);
                v.append(&mut pt);
                chars_to_string(&v)
            },
        }
    }
}

} // verus!
