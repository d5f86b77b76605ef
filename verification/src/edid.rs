//! The identification block of a display, as far as its serial number needs it.
//!
//! The block is decoded by the `edid_rs` crate. This module states where in the
//! block the serial number lies, and keeps from the decoder the blocks on which
//! its arithmetic would leave the range of its integers.

use vstd::prelude::*;

verus! {

/// The offset of the first of the four descriptor slots.
pub const DESCRIPTORS_START: usize = 54;

/// The number of descriptor slots that the decoder reads.
pub const DESCRIPTOR_SLOTS: u8 = 4;

/// The offset of the serial number, four bytes with the lowest first.
pub const SERIAL_OFFSET: usize = 12;

/// Why a block yields no serial number.
#[derive(Clone, Copy, Debug, PartialEq, Eq, Structural)]
pub enum DecodeError {
    /// A detailed timing in the block has a blanking interval shorter than its
    /// sync pulse and front porch together.
    TimingOutOfRange,
    /// The decoder refused the block.
    Malformed,
}

/// The block begins with the eight bytes `00 FF FF FF FF FF FF 00`.
pub open spec fn has_signature(block: Seq<u8>) -> bool {
    &&& block.len() >= 8
    &&& block[0] == 0x00
    &&& block[1] == 0xff
    &&& block[2] == 0xff
    &&& block[3] == 0xff
    &&& block[4] == 0xff
    &&& block[5] == 0xff
    &&& block[6] == 0xff
    &&& block[7] == 0x00
}

/// The number in the serial number field.
pub open spec fn serial_field(block: Seq<u8>) -> int
    recommends
        block.len() >= 16,
{
    block[12] + 0x100 * block[13] + 0x1_0000 * block[14] + 0x100_0000 * block[15]
}

/// The descriptor at `at` is a detailed timing: its pixel clock, two bytes, and
/// the low byte of its horizontal active size are not zero.
pub open spec fn is_timing(block: Seq<u8>, at: int) -> bool {
    (block[at] != 0 || block[at + 1] != 0) && block[at + 2] != 0
}

/// Horizontal blanking of the timing at `at`, in pixels: twelve bits.
pub open spec fn horizontal_blanking(block: Seq<u8>, at: int) -> int {
    block[at + 3] + 0x100 * (block[at + 4] % 0x10)
}

/// Vertical blanking of the timing at `at`, in lines: twelve bits.
pub open spec fn vertical_blanking(block: Seq<u8>, at: int) -> int {
    block[at + 6] + 0x100 * (block[at + 7] % 0x10)
}

/// Horizontal front porch of the timing at `at`: ten bits.
pub open spec fn horizontal_front_porch(block: Seq<u8>, at: int) -> int {
    block[at + 8] + 0x100 * (block[at + 11] / 0x40)
}

/// Horizontal sync pulse width of the timing at `at`: ten bits.
pub open spec fn horizontal_sync_width(block: Seq<u8>, at: int) -> int {
    block[at + 9] + 0x100 * ((block[at + 11] / 0x10) % 4)
}

/// Vertical front porch of the timing at `at`: six bits.
pub open spec fn vertical_front_porch(block: Seq<u8>, at: int) -> int {
    block[at + 10] / 0x10 + 0x10 * ((block[at + 11] / 4) % 4)
}

/// Vertical sync pulse width of the timing at `at`: six bits.
pub open spec fn vertical_sync_width(block: Seq<u8>, at: int) -> int {
    block[at + 10] % 0x10 + 0x10 * (block[at + 11] % 4)
}

/// In both directions the blanking interval of the timing at `at` holds its
/// sync pulse and its front porch, so that a back porch is left.
pub open spec fn timing_in_range(block: Seq<u8>, at: int) -> bool {
    &&& horizontal_blanking(block, at) >= horizontal_sync_width(block, at)
        + horizontal_front_porch(block, at)
    &&& vertical_blanking(block, at) >= vertical_sync_width(block, at) + vertical_front_porch(
        block,
        at,
    )
}

/// The number of bytes that the decoder takes for the descriptor at `at`.
///
/// A descriptor fills eighteen bytes, with two exceptions in the way the
/// decoder reads: of a descriptor with the tag `0x10` it takes the five bytes
/// of the head only, and of a list of white points (tag `0xFB`) whose first
/// index is set and whose second is zero it takes five bytes more.
pub open spec fn descriptor_len(block: Seq<u8>, at: int) -> int {
    if is_timing(block, at) {
        18
    } else if block[at + 3] == 0x10 {
        5
    } else if block[at + 3] == 0xfb && block[at + 5] != 0 && block[at + 10] == 0 {
        23
    } else {
        18
    }
}

/// Every detailed timing among the next `slots` descriptors, the first of
/// them at `at`, is in range. A descriptor of which fewer than twelve bytes are
/// left ends the walk: the fields of a timing lie in its first twelve bytes.
pub open spec fn timings_in_range_from(block: Seq<u8>, at: int, slots: nat) -> bool
    decreases slots,
{
    if slots == 0 || at + 12 > block.len() {
        true
    } else {
        &&& is_timing(block, at) ==> timing_in_range(block, at)
        &&& timings_in_range_from(block, at + descriptor_len(block, at), (slots - 1) as nat)
    }
}

/// Every detailed timing that the decoder comes to in `block` is in range.
pub open spec fn timings_in_range(block: Seq<u8>) -> bool {
    timings_in_range_from(block, DESCRIPTORS_START as int, DESCRIPTOR_SLOTS as nat)
}

/// Whether the descriptor at `at` is a detailed timing.
fn timing_at(block: &Vec<u8>, at: usize) -> (b: bool)
    requires
        at + 12 <= block.len(),
    ensures
        b == is_timing(block@, at as int),
{
    (block[at] != 0 || block[at + 1] != 0) && block[at + 2] != 0
}

/// Whether the timing at `at` leaves a back porch in both directions.
fn timing_fits(block: &Vec<u8>, at: usize) -> (b: bool)
    requires
        at + 12 <= block.len(),
    ensures
        b == timing_in_range(block@, at as int),
{
    let high: u16 = block[at + 11] as u16;
    let sync: u16 = block[at + 10] as u16;
    let h_blank: u16 = block[at + 3] as u16 + 0x100 * (block[at + 4] as u16 % 0x10);
    let v_blank: u16 = block[at + 6] as u16 + 0x100 * (block[at + 7] as u16 % 0x10);
    let h_porch: u16 = block[at + 8] as u16 + 0x100 * (high / 0x40);
    let h_sync: u16 = block[at + 9] as u16 + 0x100 * ((high / 0x10) % 4);
    let v_porch: u16 = sync / 0x10 + 0x10 * ((high / 4) % 4);
    let v_sync: u16 = sync % 0x10 + 0x10 * (high % 4);
    h_blank >= h_sync + h_porch && v_blank >= v_sync + v_porch
}

/// The number of bytes that the decoder takes for the descriptor at `at`.
fn descriptor_stride(block: &Vec<u8>, at: usize) -> (n: usize)
    requires
        at + 12 <= block.len(),
    ensures
        n == descriptor_len(block@, at as int),
        n == 5 || n == 18 || n == 23,
{
    if timing_at(block, at) {
        18
    } else if block[at + 3] == 0x10 {
        5
    } else if block[at + 3] == 0xfb && block[at + 5] != 0 && block[at + 10] == 0 {
        23
    } else {
        18
    }
}

/// Whether every detailed timing that the decoder comes to in `block` is in
/// range.
pub fn timings_fit(block: &Vec<u8>) -> (ok: bool)
    ensures
        ok == timings_in_range(block@),
{
    let mut at: usize = DESCRIPTORS_START;
    let mut slots: u8 = DESCRIPTOR_SLOTS;
    while slots > 0
        invariant
            slots <= 4,
            at <= 54 + 23 * (4 - slots),
            timings_in_range(block@) == timings_in_range_from(block@, at as int, slots as nat),
        decreases slots,
    {
        if block.len() < 12 || at > block.len() - 12 {
            return true;
        }
        if timing_at(block, at) && !timing_fits(block, at) {
            return false;
        }
        at = at + descriptor_stride(block, at);
        slots = slots - 1;
    }
    true
}

/// What `edid_rs::parse` makes of a block: the serial number in the product
/// information that it returns, or `None` where it returns an error.
pub uninterp spec fn parsed_serial(block: Seq<u8>) -> Option<u32>;

/// Calls `edid_rs::parse` on a cursor over a copy of `block`.
///
/// Trusted, not proved. The parser reads the block front to back and returns
/// the same for the same bytes. It accepts only a block that begins with the
/// signature, and takes the serial number from the four bytes at offset 12,
/// lowest first. It subtracts sync width and front porch from the blanking
/// interval of each detailed timing that it comes to, unchecked; `requires`
/// keeps from it the blocks on which that would leave the range of `u16`.
#[verifier::external_body]
fn parse_serial(block: &Vec<u8>) -> (r: Option<u32>)
    requires
        timings_in_range(block@),
    ensures
        r == parsed_serial(block@),
        r matches Some(serial) ==> has_signature(block@) && block@.len() >= 16 && serial
            == serial_field(block@),
{
    match edid_rs::parse(&mut std::io::Cursor::new(block.clone())) {
        Ok(edid) => Some(edid.product.serial_number),
        Err(_) => None,
    }
}

/// The serial number that a parse yields, or the error that stands for its
/// refusal.
pub fn serial_of_parse(parsed: Option<u32>) -> (r: Result<u32, DecodeError>)
    ensures
        r == match parsed {
            Some(serial) => Ok::<u32, DecodeError>(serial),
            None => Err::<u32, DecodeError>(DecodeError::Malformed),
        },
{
    match parsed {
        Some(serial) => Ok(serial),
        None => Err(DecodeError::Malformed),
    }
}

/// What decoding `block` gives.
pub open spec fn decode_serial_spec(block: Seq<u8>) -> Result<u32, DecodeError> {
    if !timings_in_range(block) {
        Err(DecodeError::TimingOutOfRange)
    } else {
        match parsed_serial(block) {
            Some(serial) => Ok(serial),
            None => Err(DecodeError::Malformed),
        }
    }
}

/// The serial number in an identification block.
///
/// A block with a detailed timing out of range is refused before the decoder
/// sees it; any other block is decoded. A serial number that comes back is the
/// number in the serial number field of a block that begins with the signature.
pub fn decode_serial(block: &Vec<u8>) -> (r: Result<u32, DecodeError>)
    ensures
        r == decode_serial_spec(block@),
        r matches Ok(serial) ==> has_signature(block@) && block@.len() >= 16 && serial
            == serial_field(block@),
{
    if !timings_fit(block) {
        return Err(DecodeError::TimingOutOfRange);
    }
    serial_of_parse(parse_serial(block))
}

} // verus!
