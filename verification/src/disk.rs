//! Disk address packets for the BIOS EXTENDED READ interrupt (`int 0x13`, `ah = 0x42`).

use vstd::prelude::*;

verus! {

/// The largest number of blocks that one EXTENDED READ packet may ask for.
pub const MAX_PACKET_BLOCKS: u16 = 0x7F;

/// The size in bytes of a disk address packet, as the BIOS expects it in its first byte.
pub const PACKET_SIZE: u8 = 16;

/// The fields of a disk address packet, in the order in which they are laid out in memory.
#[derive(Clone, Copy, Debug, PartialEq, Eq, Structural)]
pub struct PacketFields {
    pub size: u8,
    pub reserved: u8,
    pub num_blocks: u16,
    pub offset: u16,
    pub segment: u16,
    pub block_address: u64,
}

/// Used in a BIOS interrupt (EXTENDED READ) to read from a disk into memory.
#[derive(Clone, Copy, Debug)]
pub struct DiskAddressPacket {
    size: u8,
    reserved: u8,
    num_blocks: u16,
    offset: u16,
    segment: u16,
    block_address: u64,
}

impl View for DiskAddressPacket {
    type V = PacketFields;

    closed spec fn view(&self) -> PacketFields {
        PacketFields {
            size: self.size,
            reserved: self.reserved,
            num_blocks: self.num_blocks,
            offset: self.offset,
            segment: self.segment,
            block_address: self.block_address,
        }
    }
}

impl DiskAddressPacket {
    /// Create a packet. At most 0x7F blocks can be read at once, so `None` is returned when
    /// `num_blocks` is greater than such.
    pub fn new(num_blocks: u16, offset: u16, segment: u16, block_address: u32) -> (r: Option<
        DiskAddressPacket,
    >)
        ensures
            r is Some <==> num_blocks <= MAX_PACKET_BLOCKS,
            r matches Some(p) ==> p@ == (PacketFields {
                size: PACKET_SIZE,
                reserved: 0,
                num_blocks,
                offset,
                segment,
                block_address: block_address as u64,
            }),
    {
        if num_blocks > MAX_PACKET_BLOCKS {
            None
        } else {
            Some(
                DiskAddressPacket {
                    size: PACKET_SIZE,
                    reserved: 0,
                    num_blocks,
                    offset,
                    segment,
                    block_address: block_address as u64,
                },
            )
        }
    }
}

/// Byte `k` (counting from the least significant) of `x`.
pub open spec fn le_byte(x: u64, k: nat) -> u8 {
    ((x >> (8 * k)) & 0xff) as u8
}

/// The little-endian bytes of the `width` low bytes of `x`.
pub open spec fn le_bytes(x: u64, width: nat) -> Seq<u8> {
    Seq::new(width, |k: int| le_byte(x, k as nat))
}

/// The memory image of a packet with the given fields, as the BIOS reads it.
pub open spec fn packet_image(f: PacketFields) -> Seq<u8> {
    seq![f.size, f.reserved] + le_bytes(f.num_blocks as u64, 2) + le_bytes(f.offset as u64, 2)
        + le_bytes(f.segment as u64, 2) + le_bytes(f.block_address, 8)
}

/// The value of the bytes read least significant first.
pub open spec fn le_value(bytes: Seq<u8>) -> int
    decreases bytes.len(),
{
    if bytes.len() == 0 {
        0
    } else {
        bytes[0] + 256 * le_value(bytes.drop_first())
    }
}

proof fn lemma_le_value_2(x: u64)
    requires
        x < 0x1_0000,
    ensures
        le_value(le_bytes(x, 2)) == x,
{
    let b0 = (x >> 0u64) & 0xff;
    let b1 = (x >> 8u64) & 0xff;
    assert(b0 + 256 * b1 == x && b0 < 256 && b1 < 256) by (bit_vector)
        requires
            x < 0x1_0000,
            b0 == (x >> 0u64) & 0xff,
            b1 == (x >> 8u64) & 0xff,
    ;
    let s = le_bytes(x, 2);
    assert(s =~= seq![b0 as u8, b1 as u8]);
    reveal_with_fuel(le_value, 3);
    assert(seq![b0 as u8, b1 as u8].drop_first() =~= seq![b1 as u8]);
    assert(seq![b1 as u8].drop_first() =~= Seq::<u8>::empty());
}

proof fn lemma_le_value_8(x: u64)
    ensures
        le_value(le_bytes(x, 8)) == x,
{
    let b0 = (x >> 0u64) & 0xff;
    let b1 = (x >> 8u64) & 0xff;
    let b2 = (x >> 16u64) & 0xff;
    let b3 = (x >> 24u64) & 0xff;
    let b4 = (x >> 32u64) & 0xff;
    let b5 = (x >> 40u64) & 0xff;
    let b6 = (x >> 48u64) & 0xff;
    let b7 = (x >> 56u64) & 0xff;
    assert(b0 + 256 * (b1 + 256 * (b2 + 256 * (b3 + 256 * (b4 + 256 * (b5 + 256 * (b6 + 256
        * b7)))))) == x) by (bit_vector)
        requires
            b0 == (x >> 0u64) & 0xff,
            b1 == (x >> 8u64) & 0xff,
            b2 == (x >> 16u64) & 0xff,
            b3 == (x >> 24u64) & 0xff,
            b4 == (x >> 32u64) & 0xff,
            b5 == (x >> 40u64) & 0xff,
            b6 == (x >> 48u64) & 0xff,
            b7 == (x >> 56u64) & 0xff,
    ;
    assert(b0 < 256 && b1 < 256 && b2 < 256 && b3 < 256 && b4 < 256 && b5 < 256 && b6 < 256
        && b7 < 256) by (bit_vector)
        requires
            b0 == (x >> 0u64) & 0xff,
            b1 == (x >> 8u64) & 0xff,
            b2 == (x >> 16u64) & 0xff,
            b3 == (x >> 24u64) & 0xff,
            b4 == (x >> 32u64) & 0xff,
            b5 == (x >> 40u64) & 0xff,
            b6 == (x >> 48u64) & 0xff,
            b7 == (x >> 56u64) & 0xff,
    ;
    let s = le_bytes(x, 8);
    let t = seq![b0 as u8, b1 as u8, b2 as u8, b3 as u8, b4 as u8, b5 as u8, b6 as u8, b7 as u8];
    assert(s =~= t);
    let t1 = t.drop_first();
    let t2 = t1.drop_first();
    let t3 = t2.drop_first();
    let t4 = t3.drop_first();
    let t5 = t4.drop_first();
    let t6 = t5.drop_first();
    let t7 = t6.drop_first();
    let t8 = t7.drop_first();
    assert(t8 =~= Seq::<u8>::empty());
    assert(le_value(t8) == 0);
    assert(t7 =~= seq![b7 as u8]);
    assert(le_value(t7) == b7);
    assert(le_value(t6) == b6 + 256 * b7);
    assert(le_value(t5) == b5 + 256 * (b6 + 256 * b7));
    assert(le_value(t4) == b4 + 256 * (b5 + 256 * (b6 + 256 * b7)));
    assert(le_value(t3) == b3 + 256 * (b4 + 256 * (b5 + 256 * (b6 + 256 * b7))));
    assert(le_value(t2) == b2 + 256 * (b3 + 256 * (b4 + 256 * (b5 + 256 * (b6 + 256 * b7)))));
    assert(le_value(t1) == b1 + 256 * (b2 + 256 * (b3 + 256 * (b4 + 256 * (b5 + 256 * (b6 + 256
        * b7))))));
}

/// The packet's memory image reads back as its fields: the size and the reserved byte, then
/// the block count, the offset and the segment as 16-bit little-endian numbers, then the
/// block address as a 64-bit little-endian number.
pub proof fn lemma_packet_image_fields(f: PacketFields)
    ensures
        packet_image(f).len() == PACKET_SIZE,
        packet_image(f)[0] == f.size,
        packet_image(f)[1] == f.reserved,
        le_value(packet_image(f).subrange(2, 4)) == f.num_blocks,
        le_value(packet_image(f).subrange(4, 6)) == f.offset,
        le_value(packet_image(f).subrange(6, 8)) == f.segment,
        le_value(packet_image(f).subrange(8, 16)) == f.block_address,
{
    lemma_le_value_2(f.num_blocks as u64);
    lemma_le_value_2(f.offset as u64);
    lemma_le_value_2(f.segment as u64);
    lemma_le_value_8(f.block_address);
    let img = packet_image(f);
    assert(img.subrange(2, 4) =~= le_bytes(f.num_blocks as u64, 2));
    assert(img.subrange(4, 6) =~= le_bytes(f.offset as u64, 2));
    assert(img.subrange(6, 8) =~= le_bytes(f.segment as u64, 2));
    assert(img.subrange(8, 16) =~= le_bytes(f.block_address, 8));
}

fn push_le_bytes(out: &mut Vec<u8>, x: u64, width: u64)
    requires
        width <= 8,
    ensures
        final(out)@ == old(out)@ + le_bytes(x, width as nat),
{
    let ghost start = out@;
    let mut k: u64 = 0;
    while k < width
        invariant
            k <= width <= 8,
            out@ == start + le_bytes(x, k as nat),
        decreases width - k,
    {
        let b = ((x >> (8 * k)) & 0xff) as u8;
        out.push(b);
        k = k + 1;
        assert(out@ =~= start + le_bytes(x, k as nat));
    }
}

impl DiskAddressPacket {
    /// The 16-byte memory image of this packet: the bytes whose address the EXTENDED READ
    /// interrupt receives in `si`.
    pub fn to_bytes(&self) -> (r: Vec<u8>)
        ensures
            r@ == packet_image(self@),
            r@.len() == PACKET_SIZE,
            r@[0] == self@.size,
            r@[1] == self@.reserved,
            le_value(r@.subrange(2, 4)) == self@.num_blocks,
            le_value(r@.subrange(4, 6)) == self@.offset,
            le_value(r@.subrange(6, 8)) == self@.segment,
            le_value(r@.subrange(8, 16)) == self@.block_address,
    {
        proof {
            lemma_packet_image_fields(self@);
        }
        let mut out: Vec<u8> = Vec::new();
        out.push(self.size);
        out.push(self.reserved);
        push_le_bytes(&mut out, self.num_blocks as u64, 2);
        push_le_bytes(&mut out, self.offset as u64, 2);
        push_le_bytes(&mut out, self.segment as u64, 2);
        push_le_bytes(&mut out, self.block_address, 8);
        assert(out@ =~= packet_image(self@));
        out
    }
}

} // verus!
