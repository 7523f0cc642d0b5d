//! The write path: the full submission flow behind the post endpoints —
//! ban gate, image pipeline, counter allocation, identity derivation, and
//! the store write.

use vstd::prelude::*;

use crate::ban::ban_active;
use crate::ban::ban_after;
use crate::ban::check_banned;
use crate::ban::keccak224_of;
use crate::codec::ser_thread;
use crate::codec::serialize_thread;
use crate::images::ImageError;
use crate::images::first_error_from;
use crate::images::stored_outputs_from;
use crate::images::outputs_of;
use crate::images::valid_image_ref;
use crate::images::process_images;
use crate::store::Store;
use crate::store::Table;
use crate::store::table_map;
use crate::thread::Thread;
use crate::thread::ThreadV;
use crate::thread::ThreadPayload;
use crate::thread::ThreadPayloadV;
use crate::thread::thread_ident_of;

verus! {

/// Why a submission was rejected.
#[derive(Clone, Copy, Debug, PartialEq, Eq, Structural)]
pub enum SubmitError {
    /// The caller is banned; nothing was written.
    Forbidden,
    /// An uploaded image failed the pipeline; nothing was written.
    Image(ImageError),
}

/// An empty nickname becomes `Anonymous`.
pub open spec fn normalized_nick(n: Seq<char>) -> Seq<char> {
    if n.len() == 0 {
        "Anonymous"@
    } else {
        n
    }
}

/// Applies the nickname default of [`normalized_nick`].
pub fn normalize_nickname(n: String) -> (r: String)
    ensures
        r@ == normalized_nick(n@),
{
    if n.as_str().is_empty() {
        "Anonymous".to_owned()
    } else {
        n
    }
}

/// The payload a submission stores: the nickname defaulted, and up to three
/// image references taken in order.
pub open spec fn built_payload(
    id: u64,
    nickname: Seq<char>,
    title: Seq<char>,
    content: Seq<char>,
    timestamp: u64,
    board: Seq<char>,
    refs: Seq<Seq<char>>,
) -> ThreadPayloadV {
    ThreadPayloadV {
        id,
        nickname: normalized_nick(nickname),
        title,
        content,
        timestamp,
        board,
        image_1: if refs.len() > 0 {
            Option::Some(refs[0])
        } else {
            Option::None
        },
        image_2: if refs.len() > 1 {
            Option::Some(refs[1])
        } else {
            Option::None
        },
        image_3: if refs.len() > 2 {
            Option::Some(refs[2])
        } else {
            Option::None
        },
    }
}

/// The post a submission stores: a comment when a parent id is given, a
/// thread opener otherwise.
pub open spec fn built_thread(
    id: u64,
    nickname: Seq<char>,
    title: Seq<char>,
    content: Seq<char>,
    timestamp: u64,
    board: Seq<char>,
    refs: Seq<Seq<char>>,
    parent: Option<u64>,
) -> ThreadV {
    match parent {
        Option::None => ThreadV::Parent(
            built_payload(id, nickname, title, content, timestamp, board, refs),
        ),
        Option::Some(parent_thread) => ThreadV::Comment {
            parent_thread,
            payload: built_payload(id, nickname, title, content, timestamp, board, refs),
        },
    }
}

/// Assembles the post entity for a submission, as [`built_thread`] states.
pub fn build_thread(
    id: u64,
    nickname: String,
    title: String,
    content: String,
    timestamp: u64,
    board: String,
    image_refs: &Vec<String>,
    parent: Option<u64>,
) -> (t: Thread)
    ensures
        t@ == built_thread(
            id,
            nickname@,
            title@,
            content@,
            timestamp,
            board@,
            image_refs.deep_view(),
            parent,
        ),
{
    let ghost refs = image_refs.deep_view();
    let image_1 = if image_refs.len() > 0 {
        Some(image_refs[0].clone())
    } else {
        None
    };
    let image_2 = if image_refs.len() > 1 {
        Some(image_refs[1].clone())
    } else {
        None
    };
    let image_3 = if image_refs.len() > 2 {
        Some(image_refs[2].clone())
    } else {
        None
    };
    proof {
        if refs.len() > 0 {
            assert(refs[0] == image_refs@[0]@);
        }
        if refs.len() > 1 {
            assert(refs[1] == image_refs@[1]@);
        }
        if refs.len() > 2 {
            assert(refs[2] == image_refs@[2]@);
        }
    }
    let payload = ThreadPayload {
        id,
        nickname: normalize_nickname(nickname),
        title,
        content,
        timestamp,
        board,
        image_1,
        image_2,
        image_3,
    };
    match parent {
        Option::None => Thread::Parent(payload),
        Option::Some(parent_thread) => Thread::Comment { parent_thread, payload },
    }
}

/// Allocates the next post id, assembles the post, and writes it under its
/// content-derived identity key; everything else in the store is untouched.
pub fn store_post(
    store: &mut Store,
    board: String,
    nickname: String,
    title: String,
    content: String,
    timestamp: u64,
    image_refs: &Vec<String>,
    parent: Option<u64>,
) -> (id: u64)
    requires
        old(store).wf(),
        old(store)@.post_count < u64::MAX,
    ensures
        final(store).wf(),
        id == old(store)@.post_count + 1,
        final(store)@.post_count == id,
        ({
            let t = built_thread(
                id,
                nickname@,
                title@,
                content@,
                timestamp,
                board@,
                image_refs.deep_view(),
                parent,
            );
            final(store)@.threads == old(store)@.threads.insert(
                thread_ident_of(t),
                ser_thread(t),
            )
        }),
        final(store)@.boards == old(store)@.boards,
        final(store)@.banned == old(store)@.banned,
{
    let id = store.incr(1);
    let t = build_thread(id, nickname, title, content, timestamp, board, image_refs, parent);
    let key = t.ident();
    let value = serialize_thread(&t);
    store.put(Table::Threads, key, value);
    proof {
        assert(table_map(store@, Table::Threads) == store@.threads);
    }
    id
}

/// The identifiers under which a submission's images were stored.
pub open spec fn ids_of(files: Seq<(String, Vec<u8>)>) -> Seq<Seq<char>> {
    Seq::new(files.len(), |i: int| files[i].0@)
}

/// The whole submission flow of the post endpoints: ban gate, image
/// pipeline, counter, identity, store write.  On success it returns the new
/// post id together with the encoded images for the caller to persist, each
/// under its fresh identifier.
pub fn submit_post(
    store: &mut Store,
    ip_bytes: &Vec<u8>,
    now: u64,
    board: String,
    nickname: String,
    title: String,
    content: String,
    blobs: &Vec<Vec<u8>>,
    size_threshold: u64,
    parent: Option<u64>,
) -> (r: Result<(u64, Vec<(String, Vec<u8>)>), SubmitError>)
    requires
        old(store).wf(),
        old(store)@.post_count < u64::MAX,
    ensures
        final(store).wf(),
        (r matches Result::Err(SubmitError::Forbidden)) <==> ban_active(
            old(store)@.banned,
            keccak224_of(ip_bytes@),
            now,
        ),
        ban_active(old(store)@.banned, keccak224_of(ip_bytes@), now) ==> final(store)@
            == old(store)@,
        !ban_active(old(store)@.banned, keccak224_of(ip_bytes@), now) ==> final(store)@.banned
            == ban_after(old(store)@.banned, keccak224_of(ip_bytes@), now) && final(store)@.boards
            == old(store)@.boards,
        r matches Result::Err(SubmitError::Image(e)) ==> !ban_active(
            old(store)@.banned,
            keccak224_of(ip_bytes@),
            now,
        ) && first_error_from(blobs.deep_view(), size_threshold, 0) == Option::Some(e),
        forall|e: ImageError|
            first_error_from(blobs.deep_view(), size_threshold, 0) == Option::Some(e)
                && !ban_active(old(store)@.banned, keccak224_of(ip_bytes@), now) ==> r == Result::<
            (u64, Vec<(String, Vec<u8>)>),
            SubmitError,
        >::Err(SubmitError::Image(e)),
        !ban_active(old(store)@.banned, keccak224_of(ip_bytes@), now) && first_error_from(
            blobs.deep_view(),
            size_threshold,
            0,
        ) is None ==> r is Ok,
        r is Err ==> final(store)@.threads == old(store)@.threads && final(store)@.post_count
            == old(store)@.post_count,
        r matches Result::Ok(p) ==> !ban_active(old(store)@.banned, keccak224_of(ip_bytes@), now)
            && first_error_from(blobs.deep_view(), size_threshold, 0) is None && p.0 == old(
            store,
        )@.post_count + 1 && final(store)@.post_count == p.0 && outputs_of(p.1@)
            == stored_outputs_from(blobs.deep_view(), size_threshold, 0) && (forall|j: int|
            0 <= j < p.1@.len() ==> valid_image_ref((#[trigger] p.1@[j]).0@)) && ({
            let t = built_thread(
                p.0,
                nickname@,
                title@,
                content@,
                now,
                board@,
                ids_of(p.1@),
                parent,
            );
            final(store)@.threads == old(store)@.threads.insert(
                thread_ident_of(t),
                ser_thread(t),
            )
        }),
{
    if !check_banned(store, ip_bytes, now) {
        return Result::Err(SubmitError::Forbidden);
    }
    let files = match process_images(blobs, size_threshold) {
        Result::Ok(files) => files,
        Result::Err(e) => {
            return Result::Err(SubmitError::Image(e));
        },
    };
    let mut refs: Vec<String> = Vec::new();
    let mut i: usize = 0;
    while i < files.len()
        invariant
            i <= files.len(),
            refs@.len() == i,
            forall|m: int| 0 <= m < i ==> refs@[m]@ == files@[m].0@,
        decreases files.len() - i,
    {
        refs.push(files[i].0.clone());
        i += 1;
    }
    proof {
        assert(refs.deep_view() =~= ids_of(files@));
    }
    let id = store_post(store, board, nickname, title, content, now, &refs, parent);
    Result::Ok((id, files))
}

} // verus!
