//! The heads of GIF and ICO files, read far enough to tell the files that
//! their decoders cannot take: a GIF whose first frame is larger than the
//! screen it is drawn on, and an ICO with an entry that ends beyond the
//! four gigabytes that its directory can address.

use vstd::prelude::*;

verus! {

/// The screen of a GIF file and the place and size of its first frame.
#[derive(Debug, Clone, Copy, PartialEq, Eq, Structural)]
pub struct GifHead {
    pub screen_width: u16,
    pub screen_height: u16,
    pub left: u16,
    pub top: u16,
    pub width: u16,
    pub height: u16,
}

/// Two bytes at `at` read as one little-endian number.
pub open spec fn le_u16(bytes: Seq<u8>, at: int) -> u16 {
    (bytes[at] as int + 256 * (bytes[at + 1] as int)) as u16
}

/// Four bytes at `at` read as one little-endian number.
pub open spec fn le_u32(bytes: Seq<u8>, at: int) -> u32 {
    (bytes[at] as int + 0x100 * (bytes[at + 1] as int) + 0x1_0000 * (bytes[at + 2] as int)
        + 0x100_0000 * (bytes[at + 3] as int)) as u32
}

/// Whether the bytes open as a GIF file does: `GIF87a` or `GIF89a`.
pub open spec fn is_gif(bytes: Seq<u8>) -> bool {
    bytes.len() >= 6 && bytes[0] == 0x47 && bytes[1] == 0x49 && bytes[2] == 0x46 && bytes[3]
        == 0x38 && (bytes[4] == 0x37 || bytes[4] == 0x39) && bytes[5] == 0x61
}

/// The length in bytes of the colour table that the flags of a GIF screen
/// announce: none, or three bytes for each of 2 to 256 colours.
pub open spec fn color_table_len(flags: u8) -> int {
    if flags < 128 {
        0
    } else if flags % 8 == 0 {
        6
    } else if flags % 8 == 1 {
        12
    } else if flags % 8 == 2 {
        24
    } else if flags % 8 == 3 {
        48
    } else if flags % 8 == 4 {
        96
    } else if flags % 8 == 5 {
        192
    } else if flags % 8 == 6 {
        384
    } else {
        768
    }
}

/// The place of the first image descriptor at or after `at`. Between
/// blocks (`in_blocks` false) an extension, which opens with `0x21` and a
/// label, is passed over; within an extension (`in_blocks` true) each
/// sub-block is passed over by its length, and one of length zero ends it.
pub open spec fn first_descriptor(bytes: Seq<u8>, at: int, in_blocks: bool) -> Option<int>
    decreases bytes.len() - at,
{
    if at < 0 || at >= bytes.len() {
        None
    } else if in_blocks {
        if bytes[at] == 0 {
            first_descriptor(bytes, at + 1, false)
        } else if at + 1 + bytes[at] < bytes.len() {
            first_descriptor(bytes, at + 1 + bytes[at], true)
        } else {
            None
        }
    } else if bytes[at] == 0x2c {
        if at + 10 <= bytes.len() {
            Some(at)
        } else {
            None
        }
    } else if bytes[at] == 0x21 && at + 2 < bytes.len() {
        first_descriptor(bytes, at + 2, true)
    } else {
        None
    }
}

/// The screen and the first frame of a GIF file; `None` for bytes that are
/// no GIF file or end before the descriptor of a first frame.
pub open spec fn gif_head_of(bytes: Seq<u8>) -> Option<GifHead> {
    if is_gif(bytes) && bytes.len() >= 13 {
        match first_descriptor(bytes, 13 + color_table_len(bytes[10]), false) {
            Some(at) => Some(
                GifHead {
                    screen_width: le_u16(bytes, 6),
                    screen_height: le_u16(bytes, 8),
                    left: le_u16(bytes, at + 1),
                    top: le_u16(bytes, at + 3),
                    width: le_u16(bytes, at + 5),
                    height: le_u16(bytes, at + 7),
                },
            ),
            None => None,
        }
    } else {
        None
    }
}

/// Whether the first frame of a GIF file can be drawn: a frame at the
/// origin that is not the size of the screen is written straight onto the
/// screen, so it must have no more pixels than the screen has.
pub open spec fn frame_fits(head: GifHead) -> bool {
    head.left == 0 && head.top == 0 && (head.width != head.screen_width || head.height
        != head.screen_height) ==> head.width * head.height <= head.screen_width
        * head.screen_height
}

/// Whether the bytes open as an ICO file does.
pub open spec fn is_ico(bytes: Seq<u8>) -> bool {
    bytes.len() >= 6 && bytes[0] == 0 && bytes[1] == 0 && bytes[2] == 1 && bytes[3] == 0
}

/// Whether entry `i` of the directory of an ICO file lies within the bytes
/// and names an image that ends beyond what 32 bits can address.
pub open spec fn entry_overruns(bytes: Seq<u8>, i: int) -> bool {
    6 + 16 * (i + 1) <= bytes.len() && le_u32(bytes, 6 + 16 * i + 8) + le_u32(
        bytes,
        6 + 16 * i + 12,
    ) > u32::MAX
}

/// Whether no entry of the directory of an ICO file overruns. Bytes that
/// are no ICO file have no directory.
pub open spec fn directory_fits(bytes: Seq<u8>) -> bool {
    is_ico(bytes) ==> forall|i: int| 0 <= i < le_u16(bytes, 4) ==> !entry_overruns(bytes, i)
}

/// Reads two bytes at `at` as one little-endian number.
fn read_le_u16(bytes: &[u8], at: usize) -> (n: u16)
    requires
        at + 2 <= bytes.len(),
    ensures
        n == le_u16(bytes@, at as int),
{
    let low: u16 = bytes[at] as u16;
    let high: u16 = bytes[at + 1] as u16;
    low + 256 * high
}

/// Reads four bytes at `at` as one little-endian number.
fn read_le_u32(bytes: &[u8], at: usize) -> (n: u32)
    requires
        at + 4 <= bytes.len(),
    ensures
        n == le_u32(bytes@, at as int),
{
    let b0: u32 = bytes[at] as u32;
    let b1: u32 = bytes[at + 1] as u32;
    let b2: u32 = bytes[at + 2] as u32;
    let b3: u32 = bytes[at + 3] as u32;
    b0 + 0x100 * b1 + 0x1_0000 * b2 + 0x100_0000 * b3
}

fn table_len(flags: u8) -> (n: usize)
    ensures
        n == color_table_len(flags),
        n <= 768,
{
    if flags < 128 {
        0
    } else if flags % 8 == 0 {
        6
    } else if flags % 8 == 1 {
        12
    } else if flags % 8 == 2 {
        24
    } else if flags % 8 == 3 {
        48
    } else if flags % 8 == 4 {
        96
    } else if flags % 8 == 5 {
        192
    } else if flags % 8 == 6 {
        384
    } else {
        768
    }
}

/// Reads the screen and the first frame of a GIF file.
pub fn gif_head(bytes: &[u8]) -> (r: Option<GifHead>)
    ensures
        r == gif_head_of(bytes@),
{
    let len = bytes.len();
    if !(len >= 13 && bytes[0] == 0x47 && bytes[1] == 0x49 && bytes[2] == 0x46 && bytes[3] == 0x38
        && (bytes[4] == 0x37 || bytes[4] == 0x39) && bytes[5] == 0x61) {
        return None;
    }
    let table = table_len(bytes[10]);
    if table >= len - 13 {
        return None;
    }
    let ghost start = 13 + table as int;
    let mut at: usize = 13 + table;
    let mut in_blocks = false;
    while at < len
        invariant
            len == bytes.len(),
            len >= 13,
            is_gif(bytes@),
            start == 13 + color_table_len(bytes@[10]),
            at <= len,
            first_descriptor(bytes@, at as int, in_blocks) == first_descriptor(
                bytes@,
                start,
                false,
            ),
        decreases len - at,
    {
        let b = bytes[at];
        let rest = len - at;
        if in_blocks {
            if b == 0 {
                at = at + 1;
                in_blocks = false;
            } else if 1 + (b as usize) >= rest {
                return None;
            } else {
                at = at + 1 + (b as usize);
            }
        } else if b == 0x2c {
            if rest < 10 {
                return None;
            }
            return Some(
                GifHead {
                    screen_width: read_le_u16(bytes, 6),
                    screen_height: read_le_u16(bytes, 8),
                    left: read_le_u16(bytes, at + 1),
                    top: read_le_u16(bytes, at + 3),
                    width: read_le_u16(bytes, at + 5),
                    height: read_le_u16(bytes, at + 7),
                },
            );
        } else if b == 0x21 {
            if rest <= 2 {
                return None;
            }
            at = at + 2;
            in_blocks = true;
        } else {
            return None;
        }
    }
    None
}

/// Whether the first frame of a GIF file can be drawn.
pub fn fits_screen(head: &GifHead) -> (r: bool)
    ensures
        r == frame_fits(*head),
{
    if head.left == 0 && head.top == 0 && (head.width != head.screen_width || head.height
        != head.screen_height) {
        assert((head.width as u32) * (head.height as u32) <= 0xffff * 0xffff) by (nonlinear_arith)
            requires
                head.width <= 0xffff,
                head.height <= 0xffff,
        ;
        assert((head.screen_width as u32) * (head.screen_height as u32) <= 0xffff * 0xffff)
            by (nonlinear_arith)
            requires
                head.screen_width <= 0xffff,
                head.screen_height <= 0xffff,
        ;
        (head.width as u32) * (head.height as u32) <= (head.screen_width as u32) * (
        head.screen_height as u32)
    } else {
        true
    }
}

/// Whether no entry of the directory of an ICO file overruns.
pub fn ico_directory_fits(bytes: &[u8]) -> (r: bool)
    ensures
        r == directory_fits(bytes@),
{
    let len = bytes.len();
    if !(len >= 6 && bytes[0] == 0 && bytes[1] == 0 && bytes[2] == 1 && bytes[3] == 0) {
        return true;
    }
    let count = read_le_u16(bytes, 4);
    let mut i: u16 = 0;
    while i < count
        invariant
            len == bytes.len(),
            len >= 6,
            is_ico(bytes@),
            i <= count,
            count == le_u16(bytes@, 4),
            forall|j: int| 0 <= j < i ==> !entry_overruns(bytes@, j),
        decreases count - i,
    {
        let entry: usize = 6 + 16 * (i as usize);
        if len - 6 < 16 * (i as usize) + 16 {
            // The directory ends here: no later entry lies within the bytes.
            assert forall|j: int| 0 <= j < count implies !entry_overruns(bytes@, j) by {
                if j >= i {
                    assert(6 + 16 * (j + 1) > bytes@.len());
                }
            }
            return true;
        }
        let length = read_le_u32(bytes, entry + 8);
        let offset = read_le_u32(bytes, entry + 12);
        if (length as u64) + (offset as u64) > 0xffff_ffff {
            assert(entry_overruns(bytes@, i as int));
            return false;
        }
        i = i + 1;
    }
    true
}

} // verus!
