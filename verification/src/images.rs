//! The image ingestion pipeline: short blobs are skipped, the rest are
//! sniffed, decoded, and re-encoded as WebP, with harder compression for
//! large uploads, then handed back under a fresh random identifier for the
//! caller to persist.

use vstd::prelude::*;

verus! {

/// Blobs shorter than this are treated as "no image supplied".
pub const MIN_IMAGE_BYTES: usize = 64;

/// Why an upload was rejected.
#[derive(Clone, Copy, Debug, PartialEq, Eq, Structural)]
pub enum ImageError {
    /// The magic-byte prefix named no supported container format.
    InvalidImageFormat,
    /// The format was recognised but the blob did not decode.
    ImageDecodeError,
    /// The decoded picture could not be re-encoded as WebP.
    ImageEncodeError,
}

/// The compression the re-encoder is asked for.
#[derive(Clone, Copy, Debug, PartialEq, Eq, Structural)]
pub enum EncodeQuality {
    /// The encoder's default setting.
    Default,
    /// Lossy encoding at the given quality, 0 to 100.
    Lossy(u8),
}

/// The quality setting as a plain value: `None` for the encoder's default,
/// `Some(q)` for lossy quality `q`.
pub open spec fn quality_level(q: EncodeQuality) -> Option<u8> {
    match q {
        EncodeQuality::Default => Option::None,
        EncodeQuality::Lossy(v) => Option::Some(v),
    }
}

/// The size/quality tradeoff: uploads at or above the threshold are
/// compressed at lossy quality 50, smaller ones keep the default setting.
pub open spec fn quality_for(size: nat, threshold: nat) -> EncodeQuality {
    if size >= threshold {
        EncodeQuality::Lossy(50)
    } else {
        EncodeQuality::Default
    }
}

/// Picks the encoder quality for an upload of `size` bytes under the given
/// threshold, as [`quality_for`] states.
pub fn select_quality(size: u64, threshold: u64) -> (q: EncodeQuality)
    ensures
        q == quality_for(size as nat, threshold as nat),
{
    if size >= threshold {
        EncodeQuality::Lossy(50)
    } else {
        EncodeQuality::Default
    }
}

#[verifier::external_type_specification]
#[verifier::external_body]
pub struct ExImageFormat(image::ImageFormat);

/// Whether `image::guess_format` recognises the magic bytes of this prefix.
pub uninterp spec fn sniff_ok(prefix: Seq<u8>) -> bool;

/// Relies on `image::guess_format`: the container format is read from the
/// magic bytes alone, a pure function of the given prefix.
#[verifier::external_body]
fn guess_format_w(prefix: &Vec<u8>) -> (r: Option<image::ImageFormat>)
    ensures
        r is Some <==> sniff_ok(prefix@),
{
    match image::guess_format(prefix.as_slice()) {
        Ok(f) => Some(f),
        Err(_) => None,
    }
}

/// Whether `image::load_from_memory` decodes this buffer.
pub uninterp spec fn decode_ok(bytes: Seq<u8>) -> bool;

/// Relies on `image::load_from_memory`: guesses the format from the buffer
/// and decodes it, a pure function of the bytes.
#[verifier::external_body]
fn decode_check_w(bytes: &Vec<u8>) -> (r: bool)
    ensures
        r == decode_ok(bytes@),
{
    image::load_from_memory(bytes.as_slice()).is_ok()
}

/// Whether the picture decoded from `bytes` re-encodes as WebP at the given
/// quality level.
pub uninterp spec fn webp_ok(bytes: Seq<u8>, quality: Option<u8>) -> bool;

/// The WebP encoding of the picture decoded from `bytes` at the given
/// quality level.
pub uninterp spec fn webp_of(bytes: Seq<u8>, quality: Option<u8>) -> Seq<u8>;

/// Relies on `image::load_from_memory` and
/// `image::codecs::webp::WebPEncoder::new_with_quality`: decoding is a pure
/// function of the buffer, and the encoder writes a deterministic function
/// of the decoded picture and the quality setting (it fails on colour types
/// the WebP codec does not carry).
#[allow(deprecated)]
#[verifier::external_body]
fn transcode_webp_w(bytes: &Vec<u8>, quality: &EncodeQuality) -> (r: Option<Vec<u8>>)
    ensures
        r is Some <==> (decode_ok(bytes@) && webp_ok(bytes@, quality_level(*quality))),
        r matches Some(data) ==> data@ == webp_of(bytes@, quality_level(*quality)),
{
    let img = match image::load_from_memory(bytes.as_slice()) {
        Ok(img) => img,
        Err(_) => return None,
    };
    let q = match quality {
        EncodeQuality::Default => image::codecs::webp::WebPQuality::default(),
        EncodeQuality::Lossy(v) => image::codecs::webp::WebPQuality::lossy(*v),
    };
    let mut buf: Vec<u8> = Vec::new();
    let encoder = image::codecs::webp::WebPEncoder::new_with_quality(&mut buf, q);
    match img.write_with_encoder(encoder) {
        Ok(()) => Some(buf),
        Err(_) => None,
    }
}

/// A character of the URL-safe identifier alphabet: `A-Z a-z 0-9 _ -`.
pub open spec fn url_safe_char(c: char) -> bool {
    (48 <= c as u32 <= 57) || (65 <= c as u32 <= 90) || (97 <= c as u32 <= 122) || c == '_' || c
        == '-'
}

/// A stored-image reference: exactly 21 URL-safe characters.
pub open spec fn valid_image_ref(s: Seq<char>) -> bool {
    s.len() == 21 && (forall|i: int| 0 <= i < s.len() ==> url_safe_char(#[trigger] s[i]))
}

/// Relies on `nanoid::format` with the default URL-safe alphabet: a random
/// identifier of exactly 21 characters drawn from `A-Za-z0-9_-`.  The value
/// itself is random; nothing relates two calls.
#[verifier::external_body]
fn nanoid_w() -> (r: String)
    ensures
        r@.len() == 21,
        forall|i: int| 0 <= i < r@.len() ==> url_safe_char(#[trigger] r@[i]),
{
    nanoid::format(nanoid::rngs::default, &nanoid::alphabet::SAFE, 21)
}

/// The blob is absent or too short to sniff: a valid empty slot.
pub open spec fn blob_skipped(b: Seq<u8>) -> bool {
    b.len() < MIN_IMAGE_BYTES
}

/// The prefix named no supported format.
pub open spec fn blob_sniff_failed(b: Seq<u8>) -> bool {
    !blob_skipped(b) && !sniff_ok(b.subrange(0, MIN_IMAGE_BYTES as int))
}

/// The format was recognised but the blob did not decode.
pub open spec fn blob_decode_failed(b: Seq<u8>) -> bool {
    !blob_skipped(b) && sniff_ok(b.subrange(0, MIN_IMAGE_BYTES as int)) && !decode_ok(b)
}

/// The quality the policy selects for this blob under the given threshold.
pub open spec fn blob_quality(b: Seq<u8>, threshold: u64) -> EncodeQuality {
    quality_for(b.len(), threshold as nat)
}

/// The blob sniffs and decodes but does not re-encode as WebP at the
/// selected quality.
pub open spec fn blob_encode_failed(b: Seq<u8>, threshold: u64) -> bool {
    !blob_skipped(b) && sniff_ok(b.subrange(0, MIN_IMAGE_BYTES as int)) && decode_ok(b) && !webp_ok(
        b,
        quality_level(blob_quality(b, threshold)),
    )
}

/// The blob passes the whole pipeline: the pipeline owes a stored image.
pub open spec fn blob_stored(b: Seq<u8>, threshold: u64) -> bool {
    !blob_skipped(b) && sniff_ok(b.subrange(0, MIN_IMAGE_BYTES as int)) && decode_ok(b) && webp_ok(
        b,
        quality_level(blob_quality(b, threshold)),
    )
}

/// The error this blob is owed, if any.
pub open spec fn blob_error(b: Seq<u8>, threshold: u64) -> Option<ImageError> {
    if blob_sniff_failed(b) {
        Option::Some(ImageError::InvalidImageFormat)
    } else if blob_decode_failed(b) {
        Option::Some(ImageError::ImageDecodeError)
    } else if blob_encode_failed(b, threshold) {
        Option::Some(ImageError::ImageEncodeError)
    } else {
        Option::None
    }
}

/// Runs one blob through the pipeline: skip, or sniff + decode + re-encode
/// at the quality the policy selects, under a fresh random identifier.  The
/// caller persists the returned bytes.
pub fn process_image_blob(bytes: &Vec<u8>, threshold: u64) -> (r: Result<
    Option<(String, Vec<u8>)>,
    ImageError,
>)
    ensures
        match r {
            Result::Ok(o) => match o {
                Option::None => blob_skipped(bytes@),
                Option::Some(p) => blob_stored(bytes@, threshold) && valid_image_ref(p.0@) && p.1@
                    == webp_of(bytes@, quality_level(blob_quality(bytes@, threshold))),
            },
            Result::Err(e) => blob_error(bytes@, threshold) == Option::Some(e),
        },
        blob_skipped(bytes@) ==> r matches Result::Ok(Option::None),
        blob_error(bytes@, threshold) matches Option::Some(e) ==> r == Result::<
            Option<(String, Vec<u8>)>,
            ImageError,
        >::Err(e),
        blob_stored(bytes@, threshold) ==> r matches Result::Ok(Option::Some(_)),
{
    let n = bytes.len();
    if n < MIN_IMAGE_BYTES {
        return Result::Ok(Option::None);
    }
    let mut prefix: Vec<u8> = Vec::new();
    let mut j: usize = 0;
    while j < MIN_IMAGE_BYTES
        invariant
            j <= MIN_IMAGE_BYTES <= bytes@.len(),
            prefix@ == bytes@.subrange(0, j as int),
        decreases MIN_IMAGE_BYTES - j,
    {
        prefix.push(bytes[j]);
        j += 1;
        proof {
            assert(prefix@ =~= bytes@.subrange(0, j as int));
        }
    }
    if guess_format_w(&prefix).is_none() {
        return Result::Err(ImageError::InvalidImageFormat);
    }
    if !decode_check_w(bytes) {
        return Result::Err(ImageError::ImageDecodeError);
    }
    let quality = select_quality(n as u64, threshold);
    let data = match transcode_webp_w(bytes, &quality) {
        Option::Some(data) => data,
        Option::None => {
            return Result::Err(ImageError::ImageEncodeError);
        },
    };
    let id = nanoid_w();
    Result::Ok(Option::Some((id, data)))
}

/// The first pipeline error among the blobs from position `k` on.
pub open spec fn first_error_from(bs: Seq<Seq<u8>>, threshold: u64, k: int) -> Option<ImageError>
    decreases bs.len() - k,
{
    if k < 0 || k >= bs.len() {
        Option::None
    } else {
        match blob_error(bs[k], threshold) {
            Option::Some(e) => Option::Some(e),
            Option::None => first_error_from(bs, threshold, k + 1),
        }
    }
}

/// The WebP encodings the pipeline owes for the blobs from position `k` on:
/// one per stored blob, in slot order, skipped slots absent.
pub open spec fn stored_outputs_from(bs: Seq<Seq<u8>>, threshold: u64, k: int) -> Seq<Seq<u8>>
    decreases bs.len() - k,
{
    if k < 0 || k >= bs.len() {
        Seq::empty()
    } else {
        (if blob_stored(bs[k], threshold) {
            seq![webp_of(bs[k], quality_level(blob_quality(bs[k], threshold)))]
        } else {
            Seq::empty()
        }) + stored_outputs_from(bs, threshold, k + 1)
    }
}

/// The encoded bytes of a pipeline result, in order.
pub open spec fn outputs_of(files: Seq<(String, Vec<u8>)>) -> Seq<Seq<u8>> {
    Seq::new(files.len(), |j: int| files[j].1@)
}

/// Runs every uploaded blob through the pipeline in order, stopping at the
/// first failure: no post stores only part of its images.  On success the
/// stored blobs come back in slot order, each encoded at the quality the
/// policy selects and under a fresh identifier.
pub fn process_images(blobs: &Vec<Vec<u8>>, threshold: u64) -> (r: Result<
    Vec<(String, Vec<u8>)>,
    ImageError,
>)
    ensures
        match r {
            Result::Ok(v) => first_error_from(blobs.deep_view(), threshold, 0) is None
                && outputs_of(v@) == stored_outputs_from(blobs.deep_view(), threshold, 0) && (
            forall|j: int| 0 <= j < v@.len() ==> valid_image_ref((#[trigger] v@[j]).0@)),
            Result::Err(e) => first_error_from(blobs.deep_view(), threshold, 0) == Option::Some(
                e,
            ),
        },
        first_error_from(blobs.deep_view(), threshold, 0) is Some ==> r is Err,
{
    let ghost bv = blobs.deep_view();
    let n = blobs.len();
    let mut out: Vec<(String, Vec<u8>)> = Vec::new();
    let mut k: usize = 0;
    proof {
        assert(outputs_of(out@) + stored_outputs_from(bv, threshold, 0) =~= stored_outputs_from(
            bv,
            threshold,
            0,
        ));
    }
    while k < n
        invariant
            n == blobs.len(),
            bv == blobs.deep_view(),
            k <= n,
            first_error_from(bv, threshold, 0) == first_error_from(bv, threshold, k as int),
            outputs_of(out@) + stored_outputs_from(bv, threshold, k as int)
                == stored_outputs_from(bv, threshold, 0),
            forall|j: int| 0 <= j < out@.len() ==> valid_image_ref((#[trigger] out@[j]).0@),
        decreases n - k,
    {
        proof {
            assert(bv[k as int] == blobs@[k as int]@);
        }
        let ghost out0 = out@;
        match process_image_blob(&blobs[k], threshold) {
            Result::Ok(Option::None) => {
                proof {
                    assert(blob_error(bv[k as int], threshold) is None);
                    assert(!blob_stored(bv[k as int], threshold));
                }
            },
            Result::Ok(Option::Some(p)) => {
                proof {
                    assert(blob_error(bv[k as int], threshold) is None);
                    assert(blob_stored(bv[k as int], threshold));
                }
                out.push(p);
                proof {
                    assert(outputs_of(out@) =~= outputs_of(out0) + seq![
                        webp_of(
                            bv[k as int],
                            quality_level(blob_quality(bv[k as int], threshold)),
                        ),
                    ]);
                    assert(outputs_of(out0) + (seq![
                        webp_of(
                            bv[k as int],
                            quality_level(blob_quality(bv[k as int], threshold)),
                        ),
                    ] + stored_outputs_from(bv, threshold, k + 1)) =~= (outputs_of(out0) + seq![
                        webp_of(
                            bv[k as int],
                            quality_level(blob_quality(bv[k as int], threshold)),
                        ),
                    ]) + stored_outputs_from(bv, threshold, k + 1));
                }
            },
            Result::Err(e) => {
                proof {
                    assert(blob_error(bv[k as int], threshold) == Option::Some(e));
                }
                return Result::Err(e);
            },
        }
        k += 1;
    }
    proof {
        assert(outputs_of(out@) + Seq::<Seq<u8>>::empty() =~= outputs_of(out@));
    }
    Result::Ok(out)
}

} // verus!
