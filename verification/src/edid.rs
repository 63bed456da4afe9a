//! What an EDID says of a monitor: whether it is sound, the largest timing it
//! declares, and the interface it was sent over.

use crate::connection::SinkInterface;
use crate::domain::{MonitorResolution, ResolutionSource};
use vstd::prelude::*;
use vstd::slice::slice_subrange;

verus! {

pub const EDID_BLOCK_SIZE: usize = 128;

/// The eight bytes every EDID starts with.
pub open spec fn header() -> Seq<u8> {
    seq![0x00u8, 0xff, 0xff, 0xff, 0xff, 0xff, 0xff, 0x00]
}

/// The sum of the bytes.
pub open spec fn byte_sum(bytes: Seq<u8>) -> int
    decreases bytes.len(),
{
    if bytes.len() == 0 {
        0
    } else {
        byte_sum(bytes.drop_last()) + bytes.last()
    }
}

/// The block of number `k`, counting from 0.
pub open spec fn block(edid: Seq<u8>, k: int) -> Seq<u8> {
    edid.subrange(k * 128, k * 128 + 128)
}

/// How many whole blocks there are.
pub open spec fn block_count(edid: Seq<u8>) -> int {
    edid.len() as int / 128
}

/// Whether the bytes are a sound EDID: the header, every block that it claims
/// to have, and each of those blocks summing to zero modulo 256.
pub open spec fn sound(edid: Seq<u8>) -> bool {
    &&& edid.len() >= 128
    &&& edid.take(8) == header()
    &&& (edid[126] + 1) * 128 <= edid.len()
    &&& forall|k: int| 0 <= k <= edid[126] ==> byte_sum(#[trigger] block(edid, k)) % 256 == 0
}

/// The sum of 128 bytes, modulo 256.
fn checksum(edid: &[u8], start: usize) -> (sum: u8)
    requires
        start + 128 <= edid@.len(),
    ensures
        sum as int == byte_sum(edid@.subrange(start as int, start + 128)) % 256,
{
    let length: usize = edid.len();
    let mut sum: u8 = 0;
    let mut i: usize = 0;
    while i < 128
        invariant
            i <= 128,
            length == edid@.len(),
            start + 128 <= length,
            sum as int == byte_sum(edid@.subrange(start as int, start + i)) % 256,
        decreases 128 - i,
    {
        proof {
            let longer = edid@.subrange(start as int, start + i + 1);
            assert(longer.drop_last() =~= edid@.subrange(start as int, start + i));
            assert(byte_sum(longer) == byte_sum(longer.drop_last()) + edid@[start + i]);
        }
        sum = sum.wrapping_add(edid[start + i]);
        i += 1;
    }
    sum
}

/// Whether the bytes are a sound EDID.
pub fn is_valid(edid: &[u8]) -> (valid: bool)
    ensures
        valid == sound(edid@),
{
    if edid.len() < EDID_BLOCK_SIZE {
        return false;
    }
    let starts_right = edid[0] == 0x00 && edid[1] == 0xff && edid[2] == 0xff && edid[3] == 0xff
        && edid[4] == 0xff && edid[5] == 0xff && edid[6] == 0xff && edid[7] == 0x00;
    proof {
        let start = edid@.take(8);
        if starts_right {
            assert(start =~= header());
        } else if start == header() {
            assert(start[0] == 0x00 && start[1] == 0xff && start[2] == 0xff && start[3] == 0xff
                && start[4] == 0xff && start[5] == 0xff && start[6] == 0xff && start[7] == 0x00);
        }
    }
    if !starts_right {
        return false;
    }
    let blocks: usize = edid[126] as usize + 1;
    if blocks * EDID_BLOCK_SIZE > edid.len() {
        return false;
    }
    let mut k: usize = 0;
    while k < blocks
        invariant
            k <= blocks,
            edid@.len() >= 128,
            blocks == edid@[126] + 1,
            blocks * 128 <= edid@.len(),
            forall|j: int| 0 <= j < k ==> byte_sum(#[trigger] block(edid@, j)) % 256 == 0,
        decreases blocks - k,
    {
        if checksum(edid, k * EDID_BLOCK_SIZE) != 0 {
            assert(byte_sum(block(edid@, k as int)) % 256 != 0);
            return false;
        }
        k += 1;
    }
    true
}

/// The active size that an 18-byte timing descriptor declares. A descriptor
/// whose first two bytes are zero is no timing, and neither is one without an
/// extent.
pub open spec fn timing_size(timing: Seq<u8>) -> Option<MonitorResolution> {
    let width = timing[2] + 256 * (timing[4] as int / 16);
    let height = timing[5] + 256 * (timing[7] as int / 16);
    if (timing[0] == 0 && timing[1] == 0) || width == 0 || height == 0 {
        None
    } else {
        Some(MonitorResolution { width: width as u32, height: height as u32 })
    }
}

/// The size declared at `offset` of a block, where a whole descriptor stands
/// there.
pub open spec fn size_at(block: Seq<u8>, offset: int) -> Option<MonitorResolution> {
    if offset + 18 <= block.len() {
        timing_size(block.subrange(offset, offset + 18))
    } else {
        None
    }
}

/// Whether `a` is larger than `b`: by area, then by width.
pub open spec fn larger(a: MonitorResolution, b: MonitorResolution) -> bool {
    let area_a = a.width as int * a.height as int;
    let area_b = b.width as int * b.height as int;
    area_a > area_b || (area_a == area_b && a.width > b.width)
}

/// The larger of what was found so far and one more candidate; what was found
/// first stays on a tie.
pub open spec fn keep_larger(
    best: Option<MonitorResolution>,
    candidate: Option<MonitorResolution>,
) -> Option<MonitorResolution> {
    match (best, candidate) {
        (_, None) => best,
        (None, Some(_)) => candidate,
        (Some(b), Some(c)) => if larger(c, b) {
            candidate
        } else {
            best
        },
    }
}

/// The largest of `best` and the sizes declared from `offset` on, every 18
/// bytes, below byte 127 of the block.
pub open spec fn largest_from(
    block: Seq<u8>,
    offset: int,
    best: Option<MonitorResolution>,
) -> Option<MonitorResolution>
    decreases 145 - offset,
{
    if offset >= 127 {
        best
    } else {
        largest_from(block, offset + 18, keep_larger(best, size_at(block, offset)))
    }
}

/// The largest of `best` and the sizes that an extension block declares. Only
/// CTA-861 extensions declare any, from the byte that their third byte names.
pub open spec fn largest_in_extension(
    block: Seq<u8>,
    best: Option<MonitorResolution>,
) -> Option<MonitorResolution> {
    if block[0] == 2 && 4 <= block[2] <= 109 {
        largest_from(block, block[2] as int, best)
    } else {
        best
    }
}

/// The largest size among the four base descriptors.
pub open spec fn largest_in_base(edid: Seq<u8>) -> Option<MonitorResolution> {
    keep_larger(
        keep_larger(
            keep_larger(keep_larger(None, size_at(edid, 54)), size_at(edid, 72)),
            size_at(edid, 90),
        ),
        size_at(edid, 108),
    )
}

/// The largest size among the base descriptors and the extensions before the
/// block of number `blocks`.
pub open spec fn largest_in_blocks(edid: Seq<u8>, blocks: int) -> Option<MonitorResolution>
    decreases blocks,
{
    if blocks <= 1 {
        largest_in_base(edid)
    } else {
        largest_in_extension(block(edid, blocks - 1), largest_in_blocks(edid, blocks - 1))
    }
}

/// The largest size that an EDID declares.
pub open spec fn largest_size(edid: Seq<u8>) -> Option<MonitorResolution> {
    largest_in_blocks(edid, block_count(edid))
}

/// Whether `best` is at least as large as `size`.
pub open spec fn covers(best: Option<MonitorResolution>, size: Option<MonitorResolution>) -> bool {
    match (best, size) {
        (_, None) => true,
        (None, Some(_)) => false,
        (Some(b), Some(s)) => !larger(s, b),
    }
}

/// Being no smaller carries over.
proof fn lemma_covers_is_transitive(
    a: Option<MonitorResolution>,
    b: Option<MonitorResolution>,
    c: Option<MonitorResolution>,
)
    requires
        covers(a, b),
        covers(b, c),
    ensures
        covers(a, c),
{
}

proof fn lemma_largest_from_covers(
    block: Seq<u8>,
    offset: int,
    best: Option<MonitorResolution>,
    at: int,
)
    requires
        offset <= at < 127,
        (at - offset) % 18 == 0,
    ensures
        covers(largest_from(block, offset, best), best),
        covers(largest_from(block, offset, best), size_at(block, at)),
    decreases 145 - offset,
{
    let next = keep_larger(best, size_at(block, offset));
    if offset + 18 < 127 {
        let later = if at >= offset + 18 {
            at
        } else {
            offset + 18
        };
        assert((later - (offset + 18)) % 18 == 0);
        lemma_largest_from_covers(block, offset + 18, next, later);
    }
    let whole = largest_from(block, offset, best);
    assert(whole == largest_from(block, offset + 18, next));
    assert(covers(next, best) && covers(next, size_at(block, offset)));
    if offset + 18 >= 127 {
        assert(largest_from(block, offset + 18, next) == next);
    }
    lemma_covers_is_transitive(whole, next, best);
    if at == offset {
        lemma_covers_is_transitive(whole, next, size_at(block, offset));
    }
}

proof fn lemma_later_blocks_cover(edid: Seq<u8>, fewer: int, blocks: int)
    requires
        1 <= fewer <= blocks,
    ensures
        covers(largest_in_blocks(edid, blocks), largest_in_blocks(edid, fewer)),
    decreases blocks,
{
    if fewer < blocks {
        lemma_later_blocks_cover(edid, fewer, blocks - 1);
        let b = block(edid, blocks - 1);
        let best = largest_in_blocks(edid, blocks - 1);
        if b[0] == 2 && 4 <= b[2] <= 109 {
            lemma_largest_from_covers(b, b[2] as int, best, b[2] as int);
        }
        lemma_covers_is_transitive(
            largest_in_blocks(edid, blocks),
            best,
            largest_in_blocks(edid, fewer),
        );
    }
}

/// No base descriptor declares a size larger than the reported one.
pub proof fn no_base_timing_is_larger(edid: Seq<u8>, offset: int)
    requires
        edid.len() >= 128,
        offset == 54 || offset == 72 || offset == 90 || offset == 108,
    ensures
        covers(largest_size(edid), size_at(edid, offset)),
{
    lemma_later_blocks_cover(edid, 1, block_count(edid));
    lemma_covers_is_transitive(largest_size(edid), largest_in_base(edid), size_at(edid, offset));
}

/// No timing of a CTA-861 extension is larger than the reported one.
pub proof fn no_extension_timing_is_larger(edid: Seq<u8>, k: int, at: int)
    requires
        edid.len() >= 128,
        1 <= k < block_count(edid),
        block(edid, k)[0] == 2,
        4 <= block(edid, k)[2] <= 109,
        block(edid, k)[2] <= at < 127,
        (at - block(edid, k)[2]) % 18 == 0,
    ensures
        covers(largest_size(edid), size_at(block(edid, k), at)),
{
    let b = block(edid, k);
    lemma_largest_from_covers(b, b[2] as int, largest_in_blocks(edid, k), at);
    lemma_later_blocks_cover(edid, k + 1, block_count(edid));
    lemma_covers_is_transitive(
        largest_size(edid),
        largest_in_blocks(edid, k + 1),
        size_at(b, at),
    );
}

/// Takes the timing at `offset` into account for the largest size so far.
fn consider_detailed_timing(block: &[u8], offset: usize, maximum: &mut Option<MonitorResolution>)
    requires
        offset + 18 <= usize::MAX,
    ensures
        *final(maximum) == keep_larger(*old(maximum), size_at(block@, offset as int)),
{
    if offset + 18 > block.len() {
        return ;
    }
    let timing = slice_subrange(block, offset, offset + 18);
    if timing[0] == 0 && timing[1] == 0 {
        return ;
    }
    let (low_w, high_w, low_h, high_h) = (timing[2], timing[4], timing[5], timing[7]);
    let width: u32 = low_w as u32 | (((high_w & 0xf0) as u32) << 4);
    let height: u32 = low_h as u32 | (((high_h & 0xf0) as u32) << 4);
    assert(width == low_w as u32 + 256 * (high_w as u32 / 16)) by (bit_vector)
        requires
            width == low_w as u32 | (((high_w & 0xf0) as u32) << 4),
    ;
    assert(height == low_h as u32 + 256 * (high_h as u32 / 16)) by (bit_vector)
        requires
            height == low_h as u32 | (((high_h & 0xf0) as u32) << 4),
    ;
    if width == 0 || height == 0 {
        return ;
    }
    let candidate = MonitorResolution::new(width, height);
    match *maximum {
        None => {
            *maximum = Some(candidate);
        },
        Some(current) => {
            assert(width as int * height as int <= u64::MAX && current.width as int
                * current.height as int <= u64::MAX) by (nonlinear_arith)
                requires
                    width <= u32::MAX,
                    height <= u32::MAX,
                    current.width <= u32::MAX,
                    current.height <= u32::MAX,
            ;
            let area: u64 = width as u64 * height as u64;
            let best: u64 = current.width as u64 * current.height as u64;
            if area > best || (area == best && width > current.width) {
                *maximum = Some(candidate);
            }
        },
    }
}

/// The largest size that an EDID declares.
fn max_resolution(edid: &[u8]) -> (largest: Option<MonitorResolution>)
    requires
        edid@.len() >= 128,
    ensures
        largest == largest_size(edid@),
{
    let mut maximum: Option<MonitorResolution> = None;
    consider_detailed_timing(edid, 54, &mut maximum);
    consider_detailed_timing(edid, 72, &mut maximum);
    consider_detailed_timing(edid, 90, &mut maximum);
    consider_detailed_timing(edid, 108, &mut maximum);
    let blocks: usize = edid.len() / EDID_BLOCK_SIZE;
    let mut k: usize = 1;
    while k < blocks
        invariant
            1 <= k <= blocks,
            edid@.len() <= usize::MAX,
            blocks == edid@.len() as int / 128,
            maximum == largest_in_blocks(edid@, k as int),
        decreases blocks - k,
    {
        assert(k * 128 + 128 <= edid@.len());
        let extension = slice_subrange(edid, k * EDID_BLOCK_SIZE, k * EDID_BLOCK_SIZE + 128);
        assert(extension@ == block(edid@, k as int));
        let first: usize = extension[2] as usize;
        if extension[0] == 0x02 && 4 <= first && first <= 109 {
            let ghost before = maximum;
            let mut offset: usize = first;
            while offset < 127
                invariant
                    offset < 127 + 18,
                    extension@.len() == 128,
                    largest_from(extension@, first as int, before) == largest_from(
                        extension@,
                        offset as int,
                        maximum,
                    ),
                decreases 127 + 18 - offset,
            {
                consider_detailed_timing(extension, offset, &mut maximum);
                offset += 18;
            }
        }
        k += 1;
    }
    maximum
}

/// The resolution to report for a monitor: the largest that a sound EDID
/// declares, else the display mode of the platform.
pub open spec fn preferred(
    edid: Option<Seq<u8>>,
    mode: Option<MonitorResolution>,
) -> (Option<MonitorResolution>, Option<ResolutionSource>) {
    match edid {
        Some(bytes) if sound(bytes) && largest_size(bytes) is Some => (
            largest_size(bytes),
            Some(ResolutionSource::Edid),
        ),
        _ => (
            mode,
            match mode {
                Some(_) => Some(ResolutionSource::CoreGraphicsDisplayMode),
                None => None,
            },
        ),
    }
}

/// The bytes of an optional EDID.
pub open spec fn bytes_of(edid: Option<&[u8]>) -> Option<Seq<u8>> {
    match edid {
        Some(bytes) => Some(bytes@),
        None => None,
    }
}

/// The resolution to report for a monitor, and where it was read.
pub fn preferred_resolution(
    edid: Option<&[u8]>,
    core_graphics_mode: Option<MonitorResolution>,
) -> (result: (Option<MonitorResolution>, Option<ResolutionSource>))
    ensures
        result == preferred(bytes_of(edid), core_graphics_mode),
{
    if let Some(bytes) = edid {
        if is_valid(bytes) {
            if let Some(resolution) = max_resolution(bytes) {
                return (Some(resolution), Some(ResolutionSource::Edid));
            }
        }
    }
    match core_graphics_mode {
        Some(_) => (core_graphics_mode, Some(ResolutionSource::CoreGraphicsDisplayMode)),
        None => (None, None),
    }
}

/// Whether the payload of a vendor-specific data block begins with the OUI of
/// HDMI Licensing or of the HDMI Forum.
pub open spec fn has_hdmi_oui(payload: Seq<u8>) -> bool {
    payload.len() >= 3 && (payload.take(3) == seq![0x03u8, 0x0c, 0x00] || payload.take(3)
        == seq![0xd8u8, 0x5d, 0xc4])
}

/// Whether one of the data blocks from `offset` up to `end` is a
/// vendor-specific block of HDMI. Each data block holds in its first byte its
/// kind (the upper three bits) and the length of what follows.
pub open spec fn hdmi_block_from(extension: Seq<u8>, offset: int, end: int) -> bool
    decreases end + 32 - offset,
{
    if offset >= end {
        false
    } else {
        let kind = extension[offset] as int / 32;
        let length = extension[offset] as int % 32;
        let whole = offset + 1 + length <= extension.len();
        ||| kind == 3 && whole && has_hdmi_oui(
            extension.subrange(offset + 1, offset + 1 + length),
        )
        ||| hdmi_block_from(extension, offset + 1 + length, end)
    }
}

/// Where the data blocks of a CTA-861 extension end: at the byte that its third
/// byte names, within the block.
pub open spec fn data_blocks_end(extension: Seq<u8>) -> int {
    if extension[2] < 4 {
        4
    } else if extension[2] > 127 {
        127
    } else {
        extension[2] as int
    }
}

/// Whether an extension block is a CTA-861 block with a data block of HDMI.
pub open spec fn names_hdmi(extension: Seq<u8>) -> bool {
    extension[0] == 2 && hdmi_block_from(extension, 4, data_blocks_end(extension))
}

/// Whether some CTA-861 extension carries a data block of HDMI.
pub open spec fn hdmi_declared(edid: Seq<u8>) -> bool {
    exists|k: int| 1 <= k < block_count(edid) && names_hdmi(#[trigger] block(edid, k))
}

/// The interface that a sound EDID declares. Revision 4 added an explicit
/// interface field; earlier revisions left those bits reserved.
pub open spec fn declared_interface(edid: Seq<u8>) -> SinkInterface {
    let digital = edid[20] >= 0x80;
    let field = if edid[19] >= 4 {
        edid[20] as int % 16
    } else {
        0
    };
    if !digital {
        SinkInterface::Vga
    } else if field == 5 {
        SinkInterface::DisplayPort
    } else if hdmi_declared(edid) || field == 2 || field == 3 {
        SinkInterface::Hdmi
    } else if field == 1 {
        SinkInterface::Dvi
    } else {
        SinkInterface::UnknownDigital
    }
}

/// The input interface the monitor declares in this EDID. `None` when the
/// EDID is structurally invalid.
pub open spec fn interface_of(edid: Seq<u8>) -> Option<SinkInterface> {
    if sound(edid) {
        Some(declared_interface(edid))
    } else {
        None
    }
}

/// The input interface the monitor declares in this EDID. `None` when the
/// EDID is structurally invalid.
pub fn sink_interface(edid: &[u8]) -> (interface: Option<SinkInterface>)
    ensures
        interface == interface_of(edid@),
{
    if !is_valid(edid) {
        return None;
    }
    let video_input: u8 = edid[20];
    assert((video_input & 0x80 == 0) == (video_input < 0x80)) by (bit_vector);
    assert(video_input & 0x0f == video_input % 16) by (bit_vector);
    if video_input & 0x80 == 0 {
        return Some(SinkInterface::Vga);
    }
    let declared: u8 = if edid[19] >= 4 {
        video_input & 0x0f
    } else {
        0
    };
    if declared == 5 {
        return Some(SinkInterface::DisplayPort);
    }
    if declares_hdmi_vendor_block(edid) {
        return Some(SinkInterface::Hdmi);
    }
    Some(
        match declared {
            1 => SinkInterface::Dvi,
            2 | 3 => SinkInterface::Hdmi,
            _ => SinkInterface::UnknownDigital,
        },
    )
}

/// Whether the three bytes at `at` are an OUI of HDMI.
fn is_hdmi_oui(payload: &[u8]) -> (yes: bool)
    ensures
        yes == has_hdmi_oui(payload@),
{
    if payload.len() < 3 {
        return false;
    }
    let licensing = payload[0] == 0x03 && payload[1] == 0x0c && payload[2] == 0x00;
    let forum = payload[0] == 0xd8 && payload[1] == 0x5d && payload[2] == 0xc4;
    proof {
        let start = payload@.take(3);
        if licensing {
            assert(start =~= seq![0x03u8, 0x0c, 0x00]);
        }
        if forum {
            assert(start =~= seq![0xd8u8, 0x5d, 0xc4]);
        }
        if start == seq![0x03u8, 0x0c, 0x00] || start == seq![0xd8u8, 0x5d, 0xc4] {
            assert(start[0] == payload@[0] && start[1] == payload@[1] && start[2] == payload@[2]);
        }
    }
    licensing || forum
}

/// Whether a CTA-861 extension carries a data block of HDMI.
fn extension_names_hdmi(extension: &[u8]) -> (yes: bool)
    requires
        extension@.len() == 128,
    ensures
        yes == names_hdmi(extension@),
{
    if extension[0] != 0x02 {
        return false;
    }
    let end: usize = if extension[2] < 4 {
        4
    } else if extension[2] > 127 {
        127
    } else {
        extension[2] as usize
    };
    let mut offset: usize = 4;
    while offset < end
        invariant
            extension@.len() == 128,
            extension@[0] == 2,
            4 <= end <= 127,
            end == data_blocks_end(extension@),
            offset < 127 + 33,
            hdmi_block_from(extension@, 4, end as int) == hdmi_block_from(
                extension@,
                offset as int,
                end as int,
            ),
        ensures
            !hdmi_block_from(extension@, 4, end as int),
        decreases 127 + 33 - offset,
    {
        let head: u8 = extension[offset];
        assert(head & 0x1f == head % 32) by (bit_vector);
        assert(head >> 5 == head / 32) by (bit_vector);
        let length: usize = (head & 0x1f) as usize;
        if head >> 5 == 3 && offset + 1 + length <= extension.len() && is_hdmi_oui(
            slice_subrange(extension, offset + 1, offset + 1 + length),
        ) {
            return true;
        }
        offset += 1 + length;
    }
    false
}

/// Whether any CTA-861 extension carries an HDMI Licensing or HDMI Forum
/// vendor-specific data block; only HDMI sinks have those.
fn declares_hdmi_vendor_block(edid: &[u8]) -> (yes: bool)
    requires
        edid@.len() >= 128,
    ensures
        yes == hdmi_declared(edid@),
{
    let blocks: usize = edid.len() / EDID_BLOCK_SIZE;
    let mut k: usize = 1;
    while k < blocks
        invariant
            1 <= k <= blocks,
            edid@.len() <= usize::MAX,
            blocks == block_count(edid@),
            forall|j: int| 1 <= j < k ==> !names_hdmi(#[trigger] block(edid@, j)),
        decreases blocks - k,
    {
        assert(k * 128 + 128 <= edid@.len());
        let extension = slice_subrange(edid, k * EDID_BLOCK_SIZE, k * EDID_BLOCK_SIZE + 128);
        assert(extension@ == block(edid@, k as int));
        if extension_names_hdmi(extension) {
            return true;
        }
        k += 1;
    }
    false
}

} // verus!
