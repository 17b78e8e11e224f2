//! Mapping a requested quality level to an encoding profile, and producing
//! PNG byte buffers from captured images.

use vstd::prelude::*;

use crate::capture::{CaptureError, RawImage};

verus! {

/// A named quality/speed trade-off used when encoding a captured image.
#[derive(Clone, Copy, PartialEq, Eq, Structural, Debug)]
pub enum CompressionLevel {
    /// Maximum quality, slowest.
    Best,
    /// Minimum quality, fastest.
    Fast,
    /// The fallback profile for any unrecognized level name.
    Baseline,
}

/// Whether `c` is the given letter, in either case.
pub open spec fn char_ci_eq(c: char, lower: char, upper: char) -> bool {
    c == lower || c == upper
}

/// Whether `s` spells "best", matched case-insensitively.
pub open spec fn is_best_name(s: Seq<char>) -> bool {
    s.len() == 4
    && char_ci_eq(s[0], 'b', 'B')
    && char_ci_eq(s[1], 'e', 'E')
    && char_ci_eq(s[2], 's', 'S')
    && char_ci_eq(s[3], 't', 'T')
}

/// Whether `s` spells "fast", matched case-insensitively.
pub open spec fn is_fast_name(s: Seq<char>) -> bool {
    s.len() == 4
    && char_ci_eq(s[0], 'f', 'F')
    && char_ci_eq(s[1], 'a', 'A')
    && char_ci_eq(s[2], 's', 'S')
    && char_ci_eq(s[3], 't', 'T')
}

/// The profile selected for a requested level name: "best" and "fast" are
/// recognized case-insensitively; any other string, the empty one included,
/// falls back to the baseline profile, never to an error.
pub open spec fn level_of_spec(s: Seq<char>) -> CompressionLevel {
    if is_best_name(s) {
        CompressionLevel::Best
    } else if is_fast_name(s) {
        CompressionLevel::Fast
    } else {
        CompressionLevel::Baseline
    }
}

/// Maps a requested quality level name to its encoding profile.
pub fn level_of(level: &str) -> (r: CompressionLevel)
    ensures
        r == level_of_spec(level@),
{
    let n = level.unicode_len();
    if n != 4 {
        return CompressionLevel::Baseline;
    }
    let c0 = level.get_char(0);
    let c1 = level.get_char(1);
    let c2 = level.get_char(2);
    let c3 = level.get_char(3);
    if (c0 == 'b' || c0 == 'B') && (c1 == 'e' || c1 == 'E') && (c2 == 's' || c2 == 'S')
        && (c3 == 't' || c3 == 'T') {
        CompressionLevel::Best
    } else if (c0 == 'f' || c0 == 'F') && (c1 == 'a' || c1 == 'A') && (c2 == 's' || c2 == 'S')
        && (c3 == 't' || c3 == 'T') {
        CompressionLevel::Fast
    } else {
        CompressionLevel::Baseline
    }
}

/// The PNG stream that the encoding backend produces for an RGBA buffer of
/// the given dimensions under the given profile. PNG encoding is a function
/// of the buffer, its dimensions and the profile alone.
pub uninterp spec fn png_of(
    width: u32,
    height: u32,
    rgba: Seq<u8>,
    level: CompressionLevel,
) -> Seq<u8>;

/// Relies on screenshots::Image::to_png, which PNG-encodes an RGBA buffer
/// of the given dimensions with the png crate's Best, Fast or Default
/// compression into an in-memory buffer. Encoding is deterministic in the
/// buffer, the dimensions and the chosen compression, and its only failure
/// paths are a zero width, a zero height, and a buffer that does not hold
/// exactly width * height four-byte pixels: on everything else the encoder
/// succeeds. The expected buffer size is computed in usize arithmetic, so
/// `4 * width * height` must fit in it.
#[verifier::external_body]
fn png_encode(width: u32, height: u32, rgba: &Vec<u8>, level: CompressionLevel) -> (r: Option<
    Vec<u8>,
>)
    requires
        4 * (width as int) * (height as int) <= usize::MAX,
    ensures
        r is Some <==> (width > 0 && height > 0 && rgba@.len() == 4 * (width as int) * (height as int)),
        r is Some ==> r->0@ == png_of(width, height, rgba@, level),
{
    let compression = match level {
        CompressionLevel::Best => screenshots::Compression::Best,
        CompressionLevel::Fast => screenshots::Compression::Fast,
        CompressionLevel::Baseline => screenshots::Compression::Default,
    };
    let image = screenshots::Image::new(width, height, rgba.clone());
    image.to_png(compression).ok()
}

/// Whether an image is a well-formed RGBA buffer: nonzero dimensions and
/// exactly four bytes per pixel. Encoding succeeds on exactly these images,
/// whatever the requested level.
pub open spec fn encodable(img: RawImage) -> bool {
    img.width > 0 && img.height > 0
        && img.rgba@.len() == 4 * (img.width as int) * (img.height as int)
}

/// Encodes one captured image as PNG under the requested level name. The
/// source image is not modified. Succeeds on exactly the well-formed RGBA
/// buffers, for every level name; a malformed buffer is reported as
/// `EncodeFailed`.
pub fn encode(image: &RawImage, level: &str) -> (r: Result<Vec<u8>, CaptureError>)
    ensures
        r is Ok <==> encodable(*image),
        r is Ok ==> r->Ok_0@ == png_of(
            image.width,
            image.height,
            image.rgba@,
            level_of_spec(level@),
        ),
        r is Err ==> r->Err_0 == CaptureError::EncodeFailed,
{
    let n = image.rgba.len();
    let w128 = image.width as u128;
    let h128 = image.height as u128;
    assert(w128 * h128 < 0x1_0000_0000_0000_0000) by (nonlinear_arith)
        requires
            w128 < 0x1_0000_0000,
            h128 < 0x1_0000_0000,
    ;
    let pixel_bytes = 4u128 * (w128 * h128);
    assert(4 * ((image.width as int) * (image.height as int))
        == 4 * (image.width as int) * (image.height as int)) by (nonlinear_arith);
    if pixel_bytes > usize::MAX as u128 {
        // The buffer cannot hold that many bytes, so the image is malformed.
        assert(n <= usize::MAX);
        return Err(CaptureError::EncodeFailed);
    }
    let profile = level_of(level);
    match png_encode(image.width, image.height, &image.rgba, profile) {
        Some(bytes) => Ok(bytes),
        None => Err(CaptureError::EncodeFailed),
    }
}

/// The encoding outcome for one captured display.
pub struct EncodedResult {
    pub display_id: u32,
    pub bytes: Option<Vec<u8>>,
}

/// Encodes every captured image in capture order, one result per image.
/// Every well-formed image's slot holds its encoding -- and only those: a
/// malformed buffer is recorded as a failure in its slot and does not stop
/// the remaining images from being encoded.
pub fn encode_all(images: Vec<(u32, RawImage)>, level: &str) -> (r: Vec<EncodedResult>)
    ensures
        r@.len() == images@.len(),
        forall|i: int| 0 <= i < r@.len() ==> (#[trigger] r@[i]).display_id == images@[i].0,
        forall|i: int| 0 <= i < r@.len() ==> ((#[trigger] r@[i]).bytes is Some
            <==> encodable(images@[i].1)),
        forall|i: int| 0 <= i < r@.len() ==> ((#[trigger] r@[i]).bytes matches Some(b)
            ==> b@ == png_of(
                images@[i].1.width,
                images@[i].1.height,
                images@[i].1.rgba@,
                level_of_spec(level@),
            )),
{
    let ghost all = images@;
    let total = images.len();
    let mut rest = images;
    let mut out: Vec<EncodedResult> = Vec::new();
    let mut k: usize = 0;
    while rest.len() > 0
        invariant
            all.len() == total,
            0 <= k <= all.len(),
            rest@ == all.subrange(k as int, all.len() as int),
            out@.len() == k,
            forall|i: int| 0 <= i < k ==> (#[trigger] out@[i]).display_id == all[i].0,
            forall|i: int| 0 <= i < k ==> ((#[trigger] out@[i]).bytes is Some
                <==> encodable(all[i].1)),
            forall|i: int| 0 <= i < k ==> ((#[trigger] out@[i]).bytes matches Some(b)
                ==> b@ == png_of(all[i].1.width, all[i].1.height, all[i].1.rgba@, level_of_spec(level@))),
        decreases rest.len(),
    {
        assert(k < all.len()) by {
            assert(rest@.len() == all.len() - k);
        }
        let (id, img) = rest.remove(0);
        assert((id, img) == all[k as int]);
        let bytes = match encode(&img, level) {
            Ok(b) => Some(b),
            Err(_) => None,
        };
        out.push(EncodedResult { display_id: id, bytes });
        proof {
            assert(rest@ =~= all.subrange(k + 1 as int, all.len() as int));
        }
        k += 1;
    }
    out
}

/// The successfully encoded buffers among a run's encoding results, with
/// their display ids, in capture order.
pub open spec fn encoded_of(rs: Seq<EncodedResult>) -> Seq<(u32, Seq<u8>)>
    decreases rs.len(),
{
    if rs.len() == 0 {
        Seq::empty()
    } else {
        let init = encoded_of(rs.drop_last());
        match rs.last().bytes {
            Some(b) => init.push((rs.last().display_id, b@)),
            None => init,
        }
    }
}

/// The ids of the displays whose image failed to encode, in capture order.
pub open spec fn encode_failed_of(rs: Seq<EncodedResult>) -> Seq<u32>
    decreases rs.len(),
{
    if rs.len() == 0 {
        Seq::empty()
    } else {
        let init = encode_failed_of(rs.drop_last());
        match rs.last().bytes {
            Some(_) => init,
            None => init.push(rs.last().display_id),
        }
    }
}

/// A run's partial encoding result: the encoded buffers that succeeded and
/// a manifest of the display ids that failed.
pub struct EncodeReport {
    pub outputs: Vec<(u32, Vec<u8>)>,
    pub failed: Vec<u32>,
}

/// Splits per-display encoding results into the encoded buffers and a
/// manifest of the displays whose encoding failed, so that one failure does
/// not abort the rest of the request.
pub fn partition_encoded(results: Vec<EncodedResult>) -> (r: EncodeReport)
    ensures
        r.outputs@.map_values(|p: (u32, Vec<u8>)| (p.0, p.1@)) == encoded_of(results@),
        r.failed@ == encode_failed_of(results@),
{
    let ghost all = results@;
    let total = results.len();
    let mut rest = results;
    let mut outputs: Vec<(u32, Vec<u8>)> = Vec::new();
    let mut failed: Vec<u32> = Vec::new();
    let mut k: usize = 0;
    while rest.len() > 0
        invariant
            all.len() == total,
            0 <= k <= all.len(),
            rest@ == all.subrange(k as int, all.len() as int),
            outputs@.map_values(|p: (u32, Vec<u8>)| (p.0, p.1@))
                == encoded_of(all.subrange(0, k as int)),
            failed@ == encode_failed_of(all.subrange(0, k as int)),
        decreases rest.len(),
    {
        assert(k < all.len()) by {
            assert(rest@.len() == all.len() - k);
        }
        let o = rest.remove(0);
        assert(o == all[k as int]);
        let ghost f = |p: (u32, Vec<u8>)| (p.0, p.1@);
        match o.bytes {
            Some(b) => {
                let ghost prev = outputs@;
                outputs.push((o.display_id, b));
                proof {
                    assert(outputs@.map_values(f) =~= prev.map_values(f).push(
                        (all[k as int].display_id, all[k as int].bytes->0@),
                    ));
                }
            },
            None => failed.push(o.display_id),
        }
        proof {
            let sub = all.subrange(0, k + 1 as int);
            assert(sub.drop_last() =~= all.subrange(0, k as int));
            assert(sub.last() == all[k as int]);
            assert(rest@ =~= all.subrange(k + 1 as int, all.len() as int));
        }
        k += 1;
    }
    proof {
        assert(all.subrange(0, k as int) =~= all);
    }
    EncodeReport { outputs, failed }
}

} // verus!
