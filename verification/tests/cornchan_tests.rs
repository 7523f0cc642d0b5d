use cornchan::ban::ban_decision;
use cornchan::ban::keccak224;
use cornchan::ban::BanDecision;
use cornchan::boards::Board;
use cornchan::boards::test_board;
use cornchan::codec::deserialize_board;
use cornchan::codec::deserialize_thread;
use cornchan::codec::serialize_board;
use cornchan::codec::serialize_thread;
use cornchan::db::Keys;
use cornchan::general_helpers::current_timestamp;
use cornchan::general_helpers::slugify;
use cornchan::glob::glob_match;
use cornchan::images::process_image_blob;
use cornchan::images::process_images;
use cornchan::images::select_quality;
use cornchan::images::EncodeQuality;
use cornchan::images::ImageError;
use cornchan::queries::find_thread;
use cornchan::queries::get_board;
use cornchan::queries::list_threads;
use cornchan::queries::sort_threads_desc;
use cornchan::queries::LookupError;
use cornchan::store::Store;
use cornchan::store::Table;
use cornchan::submit::submit_post;
use cornchan::submit::SubmitError;
use cornchan::text::u64_to_string;
use cornchan::thread::Thread;
use cornchan::thread::ThreadPayload;

fn payload(id: u64, board: &str, ts: u64) -> ThreadPayload {
    ThreadPayload {
        id,
        nickname: String::from("nick"),
        title: String::from("title"),
        content: String::from("content"),
        timestamp: ts,
        board: String::from(board),
        image_1: None,
        image_2: None,
        image_3: None,
    }
}

#[test]
fn slugify_replaces_whitespace() {
    assert_eq!(slugify(" Hello World\t"), "Hello_World");
    assert_eq!(slugify("a\r\nb"), "a__b");
    assert_eq!(slugify("  "), "");
    assert_eq!(slugify("日本 語"), "日本_語");
}

#[test]
fn slugify_trims_all_unicode_whitespace() {
    assert_eq!(slugify("\u{00A0}name\u{3000}"), "name");
    assert_eq!(slugify("a\u{00A0}b"), "a\u{00A0}b", "interior non-ASCII whitespace is kept");
}

#[test]
fn slugify_is_idempotent() {
    for s in ["  spaced out name ", "already_slugged", "\ttabs\tand\nlines\n", "", "\u{00A0}x "] {
        let once = slugify(s);
        assert_eq!(slugify(&once), once);
    }
}

#[test]
fn board_ident_is_prefixed_slug() {
    let b = Board {
        name: String::from("Random"),
        slug: String::from("r"),
        description: String::from("anything"),
    };
    assert_eq!(b.ident(), "board:r");
    assert_eq!(test_board().ident(), "board:test_board");
}

#[test]
fn thread_ident_grammar() {
    let parent = Thread::Parent(payload(7, "r", 1700000000));
    assert_eq!(parent.ident(), "thread:r:1700000000:7");
    let comment = Thread::Comment { parent_thread: 7, payload: payload(9, "r", 1700000101) };
    assert_eq!(comment.ident(), "thread:r:1700000101:9:7");
}

#[test]
fn key_names() {
    assert_eq!(Keys::Boards.key_name(), "boards");
    assert_eq!(Keys::Threads.key_name(), "threads");
    assert_eq!(Keys::BannedIps.key_name(), "banned_ips");
    assert_eq!(Keys::PostCount.key_name(), "post_count");
}

#[test]
fn decimal_formatting() {
    assert_eq!(u64_to_string(0), "0");
    assert_eq!(u64_to_string(7), "7");
    assert_eq!(u64_to_string(1700000000), "1700000000");
    assert_eq!(u64_to_string(u64::MAX), "18446744073709551615");
}

#[test]
fn board_serialized_form_is_stable() {
    let b = test_board();
    assert_eq!(
        serialize_board(&b),
        "{\"name\":\"test board\",\"slug\":\"test_board\",\"description\":\"board for testing shit\"}"
    );
}

#[test]
fn board_round_trip() {
    let b = Board {
        name: String::from("we ird \"name\"\nwith \\escapes\t"),
        slug: String::from("w"),
        description: String::from("ünïcode ok"),
    };
    let json = serialize_board(&b);
    let back = deserialize_board(&json).expect("round trip");
    assert_eq!(back, b);
}

#[test]
fn thread_round_trip_parent_three_images() {
    let t = Thread::Parent(ThreadPayload {
        id: 3,
        nickname: String::from("Anonymous"),
        title: String::from("t\"itle"),
        content: String::from("line\nline"),
        timestamp: 1700000042,
        board: String::from("r"),
        image_1: Some(String::from("abcDEF123_-abcDEF123_")),
        image_2: Some(String::from("bbcDEF123_-abcDEF123_")),
        image_3: Some(String::from("cbcDEF123_-abcDEF123_")),
    });
    let json = serialize_thread(&t);
    let back = deserialize_thread(&json).expect("round trip");
    assert_eq!(back, t);
}

#[test]
fn thread_round_trip_comment_no_images() {
    let t = Thread::Comment { parent_thread: 1, payload: payload(2, "r", 1700000043) };
    let json = serialize_thread(&t);
    let back = deserialize_thread(&json).expect("round trip");
    assert_eq!(back, t);
    assert!(json.contains("\"parent_thread\":1"));
}

#[test]
fn deserializer_rejects_other_text() {
    assert!(deserialize_thread("").is_none());
    assert!(deserialize_thread("{\"id\":1}").is_none());
    assert!(deserialize_board("nonsense").is_none());
    let t = Thread::Parent(payload(1, "r", 2));
    let json = serialize_thread(&t);
    assert!(deserialize_thread(&format!("{} ", json)).is_none());
}

#[test]
fn glob_patterns() {
    assert!(glob_match("thread:r:*", "thread:r:1700000000:1"));
    assert!(glob_match("thread:r:*:1", "thread:r:1700000000:1"));
    assert!(glob_match("thread:r:*:1", "thread:r:170:5:1"));
    assert!(!glob_match("thread:r:*", "thread:rr:1700000000:1"));
    assert!(!glob_match("thread:r:*:1", "thread:r:1700000000:12"));
    assert!(glob_match("*", ""));
    assert!(!glob_match("", "x"));
}

#[test]
fn quality_threshold_policy() {
    let threshold = 500 * 1024;
    assert_eq!(select_quality(100 * 1024, threshold), EncodeQuality::Default);
    assert_eq!(select_quality(600 * 1024, threshold), EncodeQuality::Lossy(50));
    assert_eq!(select_quality(threshold, threshold), EncodeQuality::Lossy(50));
}

#[test]
fn short_blob_is_skipped() {
    let blob = vec![0u8; 10];
    assert_eq!(process_image_blob(&blob, 200 * 1024), Ok(None));
    let blobs = vec![vec![0u8; 10], Vec::new(), vec![7u8; 63]];
    let stored = process_images(&blobs, 200 * 1024).expect("skips are not errors");
    assert!(stored.is_empty());
}

#[test]
fn unknown_magic_bytes_fail_sniff() {
    let blob = vec![0u8; 128];
    assert_eq!(process_image_blob(&blob, 200 * 1024), Err(ImageError::InvalidImageFormat));
}

#[test]
fn recognised_magic_with_garbage_fails_decode() {
    let mut blob = vec![137u8, 80, 78, 71, 13, 10, 26, 10];
    blob.extend(std::iter::repeat(0u8).take(120));
    assert_eq!(process_image_blob(&blob, 200 * 1024), Err(ImageError::ImageDecodeError));
}

#[test]
fn valid_image_is_transcoded_under_fresh_id() {
    let img = image::DynamicImage::ImageRgb8(image::RgbImage::from_pixel(
        64,
        64,
        image::Rgb([200u8, 40, 90]),
    ));
    let mut png: Vec<u8> = Vec::new();
    img.write_to(&mut std::io::Cursor::new(&mut png), image::ImageFormat::Png)
        .expect("png encode");
    assert!(png.len() >= 64);
    let (id1, data1) = process_image_blob(&png, 200 * 1024)
        .expect("pipeline")
        .expect("not skipped");
    let (id2, _) = process_image_blob(&png, 200 * 1024)
        .expect("pipeline")
        .expect("not skipped");
    assert_eq!(id1.chars().count(), 21);
    assert!(id1.chars().all(|c| c.is_ascii_alphanumeric() || c == '_' || c == '-'));
    assert_ne!(id1, id2, "identifiers are random");
    assert_eq!(&data1[0..4], b"RIFF", "output is a WebP container");
    assert_ne!(data1, png);
}

#[test]
fn ban_table_is_keyed_by_the_keccak_digest() {
    let now = 1_700_000_000u64;
    let ip = b"203.0.113.9".to_vec();
    let digest = keccak224(&ip);
    assert_eq!(digest.len(), 28, "224-bit digest");
    assert_ne!(&digest[..], &ip[..]);
    let direct = <sha3::Keccak224 as sha3::Digest>::digest(ip.as_slice());
    assert_eq!(&digest[..], &direct[..]);
    let mut store = Store::new();
    store.set_ban(digest, now + 3600);
    let r = submit_post(
        &mut store,
        &ip,
        now,
        String::from("r"),
        String::from("n"),
        String::from("t"),
        String::from("c"),
        &Vec::new(),
        500 * 1024,
        None,
    );
    assert_eq!(r, Err(SubmitError::Forbidden), "a banned address is recognised by its digest");
}

#[test]
fn stale_ban_is_lifted_and_removed() {
    let now = 1_700_000_000u64;
    let ip = b"203.0.113.9".to_vec();
    let digest = keccak224(&ip);
    let mut store = Store::new();
    store.set_ban(digest.clone(), now - 1);
    let r = submit_post(
        &mut store,
        &ip,
        now,
        String::from("r"),
        String::from("n"),
        String::from("t"),
        String::from("c"),
        &Vec::new(),
        500 * 1024,
        None,
    );
    assert!(r.is_ok(), "expired ban lets the post through");
    assert_eq!(store.get_ban(&digest), None, "stale record deleted lazily");
}

#[test]
fn active_ban_blocks_and_keeps_the_record() {
    let now = 1_700_000_000u64;
    let ip = b"203.0.113.9".to_vec();
    let digest = keccak224(&ip);
    let mut store = Store::new();
    store.set_ban(digest.clone(), now + 3600);
    let r = submit_post(
        &mut store,
        &ip,
        now,
        String::from("r"),
        String::from("n"),
        String::from("t"),
        String::from("c"),
        &Vec::new(),
        500 * 1024,
        None,
    );
    assert_eq!(r, Err(SubmitError::Forbidden));
    assert_eq!(store.get_ban(&digest), Some(now + 3600), "record intact");
}

#[test]
fn post_counter_is_contiguous_and_unique() {
    let mut store = Store::new();
    let mut ids: Vec<u64> = Vec::new();
    for _ in 0..50 {
        ids.push(store.incr(1));
    }
    for (i, id) in ids.iter().enumerate() {
        assert_eq!(*id, i as u64 + 1, "contiguous from one");
    }
    let mut deduped = ids.clone();
    deduped.dedup();
    assert_eq!(deduped, ids, "no duplicates");
}

#[test]
fn listing_is_sorted_newest_first() {
    let a = Thread::Parent(payload(1, "r", 100));
    let b = Thread::Parent(payload(2, "r", 300));
    let c = Thread::Comment { parent_thread: 1, payload: payload(3, "r", 200) };
    let sorted = sort_threads_desc(vec![a, b, c]);
    let ts: Vec<u64> = sorted
        .iter()
        .map(|t| match t {
            Thread::Parent(p) => p.timestamp,
            Thread::Comment { payload, .. } => payload.timestamp,
        })
        .collect();
    assert_eq!(ts, vec![300, 200, 100]);
}

#[test]
fn full_board_scenario() {
    let now = 1_700_000_000u64;
    let ip = b"198.51.100.7".to_vec();
    let mut store = Store::new();

    let board = Board {
        name: String::from("Random"),
        slug: String::from("r"),
        description: String::from("anything goes"),
    };
    store.put(Table::Boards, board.ident(), serialize_board(&board));
    let fetched = get_board(&store, "r").expect("board exists");
    assert_eq!(fetched, board);
    assert_eq!(get_board(&store, "missing"), Err(LookupError::NotFound));

    let (id1, files) = submit_post(
        &mut store,
        &ip,
        now,
        String::from("r"),
        String::new(),
        String::from("t"),
        String::from("c"),
        &Vec::new(),
        500 * 1024,
        None,
    )
    .expect("parent accepted");
    assert_eq!(id1, 1);
    assert!(files.is_empty());
    let key1 = String::from("thread:r:1700000000:1");
    let stored = store.get(Table::Threads, &key1).expect("stored under the identity key");
    match deserialize_thread(&stored).expect("stored JSON decodes") {
        Thread::Parent(p) => {
            assert_eq!(p.nickname, "Anonymous", "empty nickname is defaulted");
            assert_eq!(p.id, 1);
            assert_eq!(p.board, "r");
        },
        Thread::Comment { .. } => panic!("expected a thread opener"),
    }

    let (id2, _) = submit_post(
        &mut store,
        &ip,
        now + 5,
        String::from("r"),
        String::from("replier"),
        String::from("re: t"),
        String::from("reply"),
        &Vec::new(),
        500 * 1024,
        Some(1),
    )
    .expect("comment accepted");
    assert_eq!(id2, 2);
    let key2 = String::from("thread:r:1700000005:2:1");
    assert!(store.get(Table::Threads, &key2).is_some());

    let listed = list_threads(&store, "r").expect("listing decodes");
    assert_eq!(listed.len(), 2, "both records listed");

    let opener = find_thread(&store, "r", 1).expect("opener found by id");
    match opener {
        Thread::Parent(p) => assert_eq!(p.id, 1),
        Thread::Comment { .. } => panic!("expected the opener"),
    }
    assert_eq!(find_thread(&store, "r", 99), Err(LookupError::NotFound));
}

#[test]
fn store_overwrites_on_existing_key() {
    let mut store = Store::new();
    store.put(Table::Boards, String::from("board:x"), String::from("one"));
    store.put(Table::Boards, String::from("board:x"), String::from("two"));
    assert_eq!(store.get(Table::Boards, &String::from("board:x")), Some(String::from("two")));
    assert_eq!(store.get(Table::Threads, &String::from("board:x")), None);
}

#[test]
fn clock_reads_after_epoch() {
    assert!(current_timestamp() > 1_000_000_000);
}

#[test]
fn corrupt_stored_record_is_an_encoding_error() {
    let mut store = Store::new();
    store.put(Table::Boards, String::from("board:r"), String::from("not json"));
    assert_eq!(get_board(&store, "r"), Err(LookupError::EncodingError));
    store.put(
        Table::Threads,
        String::from("thread:r:5:1"),
        String::from("also not json"),
    );
    assert_eq!(list_threads(&store, "r"), Err(LookupError::EncodingError));
    assert_eq!(find_thread(&store, "r", 1), Err(LookupError::EncodingError));
}

#[test]
fn sixteen_bit_picture_cannot_be_reencoded() {
    let img = image::DynamicImage::ImageRgb16(image::ImageBuffer::from_pixel(
        64,
        64,
        image::Rgb([40000u16, 20000, 10000]),
    ));
    let mut png: Vec<u8> = Vec::new();
    img.write_to(&mut std::io::Cursor::new(&mut png), image::ImageFormat::Png)
        .expect("png encode");
    assert_eq!(process_image_blob(&png, 200 * 1024), Err(ImageError::ImageEncodeError));
}

#[test]
fn failed_image_aborts_the_submission() {
    let now = 1_700_000_000u64;
    let ip = b"198.51.100.7".to_vec();
    let mut store = Store::new();
    let blobs = vec![vec![0u8; 128]];
    let r = submit_post(
        &mut store,
        &ip,
        now,
        String::from("r"),
        String::from("n"),
        String::from("t"),
        String::from("c"),
        &blobs,
        500 * 1024,
        None,
    );
    assert_eq!(r, Err(SubmitError::Image(ImageError::InvalidImageFormat)));
    assert_eq!(store.incr(1), 1, "no id was consumed by the failed submission");
}

#[test]
fn ban_decision_three_ways() {
    assert_eq!(ban_decision(None, 10), BanDecision::Allowed);
    assert_eq!(ban_decision(Some(11), 10), BanDecision::Blocked);
    assert_eq!(ban_decision(Some(10), 10), BanDecision::AllowedStale);
    assert_eq!(ban_decision(Some(9), 10), BanDecision::AllowedStale);
}

#[test]
fn scan_returns_each_key_once() {
    let mut store = Store::new();
    store.put(Table::Boards, String::from("board:x"), String::from("one"));
    store.put(Table::Boards, String::from("board:x"), String::from("two"));
    store.put(Table::Boards, String::from("board:y"), String::from("three"));
    let hits = store.scan_match(Table::Boards, "board:*");
    assert_eq!(hits.len(), 2, "one entry per key, the overwrite wins");
    for (k, v) in &hits {
        if k == "board:x" {
            assert_eq!(v, "two");
        } else {
            assert_eq!(k, "board:y");
            assert_eq!(v, "three");
        }
    }
}

fn png_of(w: u32, h: u32, px: [u8; 3]) -> Vec<u8> {
    let img = image::DynamicImage::ImageRgb8(image::RgbImage::from_pixel(w, h, image::Rgb(px)));
    let mut png: Vec<u8> = Vec::new();
    img.write_to(&mut std::io::Cursor::new(&mut png), image::ImageFormat::Png)
        .expect("png encode");
    png
}

#[test]
fn stored_images_come_back_in_slot_order() {
    let threshold = 200 * 1024;
    let png1 = png_of(64, 64, [200, 40, 90]);
    let png2 = png_of(32, 48, [10, 220, 30]);
    let single1 = process_image_blob(&png1, threshold).unwrap().unwrap().1;
    let single2 = process_image_blob(&png2, threshold).unwrap().unwrap().1;
    assert_ne!(single1, single2);
    let blobs = vec![png1, vec![0u8; 10], png2];
    let out = process_images(&blobs, threshold).expect("both pictures accepted");
    assert_eq!(out.len(), 2);
    assert_eq!(out[0].1, single1, "first slot first, same deterministic encoding");
    assert_eq!(out[1].1, single2);
}
