//! Fingerprint extraction: from a decoded image to its 64-bit perceptual
//! fingerprint, and the decision whether the bytes of an upload are handed
//! to the decoders at all.
//!
//! The hash is computed by the `img_hash` crate. What it computes is not
//! proved here: it is named, and the contracts of this module say how the
//! fingerprint is made of the named result. Decoding is not done here: the
//! caller decodes and hands over what came of it.

use crate::error::Error;
use crate::fingerprint::{be_value, from_be_bytes};
use crate::heads::{directory_fits, fits_screen, frame_fits, gif_head, gif_head_of};
use crate::heads::ico_directory_fits;
use vstd::prelude::*;

verus! {

/// A decoded image reduced to one byte of luminance per pixel, row by row.
#[derive(Debug, Clone, PartialEq, Eq)]
pub struct LumaGrid {
    pub width: u32,
    pub height: u32,
    pub pixels: Vec<u8>,
}

/// Bytes that are no image in a supported format.
#[derive(Debug, Clone, Copy, PartialEq, Eq, Structural)]
pub struct Undecodable;

/// The eight bytes of the gradient hash of a luminance grid.
pub uninterp spec fn gradient_hash(width: u32, height: u32, pixels: Seq<u8>) -> Seq<u8>;

/// Four bytes read as one big-endian number.
pub open spec fn be_u32(b: Seq<u8>) -> u32
    recommends
        b.len() == 4,
{
    ((b[0] as int) * 0x100_0000 + (b[1] as int) * 0x1_0000 + (b[2] as int) * 0x100
        + b[3] as int) as u32
}

/// The width and height in the head of a farbfeld image: the word
/// `farbfeld`, then each as four big-endian bytes. `None` for other bytes.
pub open spec fn farbfeld_dimensions(bytes: Seq<u8>) -> Option<(u32, u32)> {
    if bytes.len() >= 16 && bytes.subrange(0, 8) == "farbfeld"@.map_values(|c: char| c as u8) {
        Some((be_u32(bytes.subrange(8, 12)), be_u32(bytes.subrange(12, 16))))
    } else {
        None
    }
}

/// The width and height that the bytes announce: those in a farbfeld
/// head, or else those that the decoders found in the head, if any.
pub open spec fn stated_dimensions(bytes: Seq<u8>, probed: Option<(u32, u32)>) -> Option<
    (u32, u32),
> {
    match farbfeld_dimensions(bytes) {
        Some(d) => Some(d),
        None => probed,
    }
}

/// Whether an image of this width and height is decoded: it has a pixel,
/// and at eight bytes to the pixel, the most any format takes, its size in
/// bytes is a 32-bit number, which is what the decoders compute sizes in.
pub open spec fn decodable_size(width: u32, height: u32) -> bool {
    width > 0 && height > 0 && width * height * 8 <= u32::MAX
}

/// Whether the bytes announce no size, or one that is decoded.
pub open spec fn admits_size(bytes: Seq<u8>, probed: Option<(u32, u32)>) -> bool {
    match stated_dimensions(bytes, probed) {
        Some((width, height)) => decodable_size(width, height),
        None => true,
    }
}

/// Whether the bytes are no GIF file, or one whose first frame can be
/// drawn.
pub open spec fn admits_frame(bytes: Seq<u8>) -> bool {
    match gif_head_of(bytes) {
        Some(head) => frame_fits(head),
        None => true,
    }
}

/// Whether decoding is attempted on the bytes: not where they announce a
/// size that is not decoded, a first frame that cannot be drawn, or an
/// entry of an icon that overruns.
pub open spec fn admits_decoding(bytes: Seq<u8>, probed: Option<(u32, u32)>) -> bool {
    admits_size(bytes, probed) && admits_frame(bytes) && directory_fits(bytes)
}

/// Whether a grid of these measures can be hashed: it has at least one
/// pixel, and a byte for every pixel.
pub open spec fn hashable(width: u32, height: u32, pixels: Seq<u8>) -> bool {
    width > 0 && height > 0 && pixels.len() >= width * height
}

/// The fingerprint of a luminance grid: its gradient hash read as one
/// big-endian number. A grid that cannot be hashed has none.
pub open spec fn grid_fingerprint(width: u32, height: u32, pixels: Seq<u8>) -> Result<
    u64,
    Error,
> {
    if hashable(width, height, pixels) {
        Ok(be_value(gradient_hash(width, height, pixels)) as u64)
    } else {
        Err(Error::Decode)
    }
}

/// The fingerprint of an upload, from what decoding it gave.
pub open spec fn fingerprint_of(decoded: Result<LumaGrid, Undecodable>) -> Result<u64, Error> {
    match decoded {
        Ok(grid) => grid_fingerprint(grid.width, grid.height, grid.pixels@),
        Err(_) => Err(Error::Decode),
    }
}

/// Calls `img_hash::Hasher::hash_image` on the grid, with a hasher made by
/// `img_hash::HasherConfig` for 8 by 8 bits, the gradient algorithm and a
/// discrete cosine transform before it. The contract claims that the hash
/// depends on the grid alone; that it has eight bytes is its type.
#[verifier::external_body]
fn hash_luma(grid: LumaGrid) -> (hash: [u8; 8])
    requires
        hashable(grid.width, grid.height, grid.pixels@),
    ensures
        hash@ == gradient_hash(grid.width, grid.height, grid.pixels@),
{
    let hasher = img_hash::HasherConfig::with_bytes_type::<[u8; 8]>()
        .hash_alg(img_hash::HashAlg::Gradient)
        .hash_size(8, 8)
        .preproc_dct()
        .to_hasher();
    let gray = image::GrayImage::from_raw(grid.width, grid.height, grid.pixels).unwrap();
    let mut hash = [0u8; 8];
    hash.copy_from_slice(hasher.hash_image(&gray).as_bytes());
    hash
}

/// Computes the fingerprint of a decoded image.
pub fn fingerprint_of_grid(grid: LumaGrid) -> (r: Result<u64, Error>)
    ensures
        r == grid_fingerprint(grid.width, grid.height, grid.pixels@),
{
    assert((grid.width as u64) * (grid.height as u64) <= 0xffff_ffff * 0xffff_ffff)
        by (nonlinear_arith)
        requires
            grid.width <= 0xffff_ffff,
            grid.height <= 0xffff_ffff,
    ;
    let cells: u64 = (grid.width as u64) * (grid.height as u64);
    if grid.width == 0 || grid.height == 0 || (grid.pixels.len() as u64) < cells {
        Err(Error::Decode)
    } else {
        let hash = hash_luma(grid);
        Ok(from_be_bytes(&hash))
    }
}

/// Reads four bytes at `at` as one big-endian number.
fn read_be_u32(bytes: &[u8], at: usize) -> (n: u32)
    requires
        at + 4 <= bytes.len(),
    ensures
        n == be_u32(bytes@.subrange(at as int, at + 4)),
{
    let b0: u32 = bytes[at] as u32;
    let b1: u32 = bytes[at + 1] as u32;
    let b2: u32 = bytes[at + 2] as u32;
    let b3: u32 = bytes[at + 3] as u32;
    b0 * 0x100_0000 + b1 * 0x1_0000 + b2 * 0x100 + b3
}

/// Reads the width and height in the head of a farbfeld image.
pub fn farbfeld_size(bytes: &[u8]) -> (r: Option<(u32, u32)>)
    ensures
        r == farbfeld_dimensions(bytes@),
{
    proof {
        reveal_strlit("farbfeld");
    }
    let ghost word = "farbfeld"@.map_values(|c: char| c as u8);
    if bytes.len() >= 16 && bytes[0] == 0x66 && bytes[1] == 0x61 && bytes[2] == 0x72 && bytes[3]
        == 0x62 && bytes[4] == 0x66 && bytes[5] == 0x65 && bytes[6] == 0x6c && bytes[7] == 0x64 {
        assert(bytes@.subrange(0, 8) =~= word);
        Some((read_be_u32(bytes, 8), read_be_u32(bytes, 12)))
    } else {
        assert(bytes.len() >= 16 ==> bytes@.subrange(0, 8) != word) by {
            if bytes.len() >= 16 && bytes@.subrange(0, 8) == word {
                assert(forall|i: int| 0 <= i < 8 ==> bytes@.subrange(0, 8)[i] == word[i]);
                assert(bytes@.subrange(0, 8)[0] == bytes[0]);
                assert(bytes@.subrange(0, 8)[1] == bytes[1]);
                assert(bytes@.subrange(0, 8)[2] == bytes[2]);
                assert(bytes@.subrange(0, 8)[3] == bytes[3]);
                assert(bytes@.subrange(0, 8)[4] == bytes[4]);
                assert(bytes@.subrange(0, 8)[5] == bytes[5]);
                assert(bytes@.subrange(0, 8)[6] == bytes[6]);
                assert(bytes@.subrange(0, 8)[7] == bytes[7]);
            }
        }
        None
    }
}

/// Whether an image of this width and height is decoded.
pub fn can_decode(width: u32, height: u32) -> (r: bool)
    ensures
        r == decodable_size(width, height),
{
    assert((width as u64) * (height as u64) <= 0xffff_ffff * 0xffff_ffff) by (nonlinear_arith)
        requires
            width <= 0xffff_ffff,
            height <= 0xffff_ffff,
    ;
    let cells: u64 = (width as u64) * (height as u64);
    width > 0 && height > 0 && cells <= 0x1fff_ffff
}

/// Decides whether decoding is attempted on the bytes of an upload, from
/// the bytes and from the width and height that the decoders found in
/// their head, if they found any.
pub fn may_decode(bytes: &[u8], probed: Option<(u32, u32)>) -> (r: bool)
    ensures
        r == admits_decoding(bytes@, probed),
{
    let stated = match farbfeld_size(bytes) {
        Some(d) => Some(d),
        None => probed,
    };
    let size_admitted = match stated {
        Some((width, height)) => can_decode(width, height),
        None => true,
    };
    let frame_admitted = match gif_head(bytes) {
        Some(head) => fits_screen(&head),
        None => true,
    };
    size_admitted && frame_admitted && ico_directory_fits(bytes)
}

/// Computes the fingerprint of an upload from what decoding it gave. Bytes
/// that did not decode are refused, and so is an image without pixels.
pub fn extract(decoded: Result<LumaGrid, Undecodable>) -> (r: Result<u64, Error>)
    ensures
        r == fingerprint_of(decoded),
        decoded.is_err() ==> r == Err::<u64, Error>(Error::Decode),
{
    match decoded {
        Ok(grid) => fingerprint_of_grid(grid),
        Err(_) => Err(Error::Decode),
    }
}

/// The fingerprint is a function of the pixels: two grids of the same
/// measures and the same pixels have the same fingerprint, or are refused
/// alike, whenever they are presented.
pub proof fn lemma_extract_deterministic(first: LumaGrid, second: LumaGrid)
    requires
        first.width == second.width,
        first.height == second.height,
        first.pixels@ =~= second.pixels@,
    ensures
        fingerprint_of(Ok(first)) == fingerprint_of(Ok(second)),
{
}

} // verus!
