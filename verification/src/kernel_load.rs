//! Planning how the kernel is read from disk: the kernel's sectors are read in packets of at
//! most 0x7F blocks into a buffer below 1 MiB, and each packet's worth is then copied to its
//! place at the kernel's load address.

use vstd::prelude::*;
use crate::disk::{DiskAddressPacket, PacketFields, MAX_PACKET_BLOCKS, PACKET_SIZE};
use crate::mem_routines::copied;

verus! {

/// The size in bytes of one disk block.
pub const BLOCK_SIZE: u32 = 512;

/// Split a linear address into the real-mode `(segment, offset)` pair that names it. The
/// segment keeps only the 16 bits that a segment register holds.
pub fn real_mode_address(addr: u32) -> (r: (u16, u16))
    ensures
        r.1 == addr % 16,
        r.0 == (addr / 16) % 0x10000,
{
    let offset = (addr & 0xf) as u16;
    let segment = (addr >> 4) as u16;
    assert(offset == addr % 16) by (bit_vector)
        requires
            offset == (addr & 0xf) as u16,
    ;
    assert(segment == (addr / 16) % 0x10000) by (bit_vector)
        requires
            segment == (addr >> 4) as u16,
    ;
    (segment, offset)
}

/// A real-mode `(segment, offset)` pair names the address `segment * 16 + offset`; below
/// 1 MiB that is the address it was made from.
pub proof fn lemma_real_mode_address_roundtrip(addr: u32, segment: u16, offset: u16)
    requires
        addr < 0x10_0000,
        offset == addr % 16,
        segment == (addr / 16) % 0x10000,
    ensures
        segment * 16 + offset == addr,
{
}

/// The number of sectors that the read loop reads for a kernel of `kernel_sectors` sectors: the
/// count is taken as a signed 32-bit number, so a count of 2^31 or more reads nothing.
pub open spec fn sectors_to_read(kernel_sectors: u32) -> int {
    if kernel_sectors <= 0x7fff_ffff {
        kernel_sectors as int
    } else {
        0
    }
}

/// The number of blocks in the packet that reads from a run of `left` remaining sectors.
pub open spec fn packet_blocks(left: int) -> int {
    if left < MAX_PACKET_BLOCKS {
        left
    } else {
        MAX_PACKET_BLOCKS as int
    }
}

/// The reads, as `(blocks, first block, destination address)` triples, that load `left`
/// sectors starting at disk block `block` to the address `addr`.
pub open spec fn read_plan(left: int, addr: int, block: int) -> Seq<(int, int, int)>
    decreases left,
{
    if left <= 0 {
        seq![]
    } else {
        let n = packet_blocks(left);
        seq![(n, block, addr)] + read_plan(left - n, addr + BLOCK_SIZE * n, block + n)
    }
}

/// The reads of a plan cover the requested sectors exactly, in order and without gaps: the
/// first read starts at the first block and at the load address, every read asks for between
/// 1 and 0x7F blocks (all but the last for exactly 0x7F), each read starts where the previous
/// one ended on disk and in memory, and the last one ends at the last requested sector.
pub proof fn lemma_read_plan_covers(left: int, addr: int, block: int)
    requires
        left > 0,
    ensures
        read_plan(left, addr, block).len() == (left + MAX_PACKET_BLOCKS - 1) / (
        MAX_PACKET_BLOCKS as int),
        read_plan(left, addr, block)[0].1 == block,
        read_plan(left, addr, block)[0].2 == addr,
        forall|i: int|
            0 <= i < read_plan(left, addr, block).len() ==> 0 < (#[trigger] read_plan(
                left,
                addr,
                block,
            )[i]).0 <= MAX_PACKET_BLOCKS,
        forall|i: int|
            0 <= i < read_plan(left, addr, block).len() - 1 ==> (#[trigger] read_plan(
                left,
                addr,
                block,
            )[i]).0 == MAX_PACKET_BLOCKS,
        forall|i: int|
            #![trigger read_plan(left, addr, block)[i]]
            0 <= i < read_plan(left, addr, block).len() - 1 ==> {
                &&& read_plan(left, addr, block)[i + 1].1 == read_plan(left, addr, block)[i].1
                    + read_plan(left, addr, block)[i].0
                &&& read_plan(left, addr, block)[i + 1].2 == read_plan(left, addr, block)[i].2
                    + BLOCK_SIZE * read_plan(left, addr, block)[i].0
            },
        read_plan(left, addr, block).last().1 + read_plan(left, addr, block).last().0 == block
            + left,
        read_plan(left, addr, block).last().2 + BLOCK_SIZE * read_plan(left, addr, block).last().0
            == addr + BLOCK_SIZE * left,
    decreases left,
{
    let n = packet_blocks(left);
    let p = read_plan(left, addr, block);
    let rest = read_plan(left - n, addr + BLOCK_SIZE * n, block + n);
    lemma_read_plan_unfold(left, addr, block);
    if left - n > 0 {
        lemma_read_plan_covers(left - n, addr + BLOCK_SIZE * n, block + n);
        assert(p.last() == rest.last());
        assert forall|i: int| 0 <= i < p.len() - 1 implies {
            &&& p[i + 1].1 == (#[trigger] p[i]).1 + p[i].0
            &&& p[i + 1].2 == p[i].2 + BLOCK_SIZE * p[i].0
        } by {
            if i > 0 {
                assert(p[i] == rest[i - 1]);
                assert(p[i + 1] == rest[i]);
            }
        }
        assert forall|i: int| 0 <= i < p.len() implies 0 < (#[trigger] p[i]).0
            <= MAX_PACKET_BLOCKS by {
            if i > 0 {
                assert(p[i] == rest[i - 1]);
            }
        }
        assert forall|i: int| 0 <= i < p.len() - 1 implies (#[trigger] p[i]).0
            == MAX_PACKET_BLOCKS by {
            if i > 0 {
                assert(p[i] == rest[i - 1]);
            }
        }
    } else {
        assert(rest.len() == 0);
    }
}

/// The number of blocks that the reads of `plan` ask for, together.
pub open spec fn plan_blocks(plan: Seq<(int, int, int)>) -> int
    decreases plan.len(),
{
    if plan.len() == 0 {
        0
    } else {
        plan[0].0 + plan_blocks(plan.drop_first())
    }
}

proof fn lemma_read_plan_blocks(left: int, addr: int, block: int)
    ensures
        plan_blocks(read_plan(left, addr, block)) == if left > 0 {
            left
        } else {
            0
        },
    decreases left,
{
    if left > 0 {
        let n = packet_blocks(left);
        lemma_read_plan_unfold(left, addr, block);
        let rest = read_plan(left - n, addr + BLOCK_SIZE * n, block + n);
        assert(read_plan(left, addr, block).drop_first() =~= rest);
        lemma_read_plan_blocks(left - n, addr + BLOCK_SIZE * n, block + n);
    }
}

/// Every sector of the kernel is read: for a kernel of `kernel_sectors` sectors (below 2^31,
/// since the count is taken as a signed 32-bit number), the reads ask for exactly
/// `kernel_sectors` blocks together; for a larger count, which is negative as a signed number,
/// they ask for none.
pub proof fn lemma_reads_every_sector(kernel_sectors: u32, addr: int, block: int)
    ensures
        plan_blocks(read_plan(sectors_to_read(kernel_sectors), addr, block)) == if kernel_sectors
            <= 0x7fff_ffff {
            kernel_sectors as int
        } else {
            0
        },
{
    lemma_read_plan_blocks(sectors_to_read(kernel_sectors), addr, block);
}

/// One step of loading the kernel: read `packet` into the buffer, then copy `byte_count` bytes
/// from the buffer to `dest_addr`.
pub struct ReadChunk {
    pub packet: DiskAddressPacket,
    pub dest_addr: u32,
    pub byte_count: u32,
}

/// `c` carries out the planned read `p` through the buffer at `buf_addr`.
pub open spec fn chunk_matches(c: ReadChunk, p: (int, int, int), buf_addr: u32) -> bool {
    &&& c.packet@ == PacketFields {
        size: PACKET_SIZE,
        reserved: 0,
        num_blocks: p.0 as u16,
        offset: (buf_addr % 16) as u16,
        segment: ((buf_addr / 16) % 0x10000) as u16,
        block_address: p.1 as u64,
    }
    &&& c.dest_addr == p.2
    &&& c.byte_count == BLOCK_SIZE * p.0
}

proof fn lemma_read_plan_unfold(left: int, addr: int, block: int)
    requires
        left > 0,
    ensures
        read_plan(left, addr, block).len() == 1 + read_plan(
            left - packet_blocks(left),
            addr + BLOCK_SIZE * packet_blocks(left),
            block + packet_blocks(left),
        ).len(),
        read_plan(left, addr, block)[0] == (packet_blocks(left), block, addr),
        forall|j: int|
            0 <= j < read_plan(
                left - packet_blocks(left),
                addr + BLOCK_SIZE * packet_blocks(left),
                block + packet_blocks(left),
            ).len() ==> #[trigger] read_plan(
                left - packet_blocks(left),
                addr + BLOCK_SIZE * packet_blocks(left),
                block + packet_blocks(left),
            )[j] == read_plan(left, addr, block)[j + 1],
{
}

/// The read loop's running address and block number stay within 32 bits: whether `read_kernel`
/// may be called with these arguments.
pub open spec fn read_in_range(kernel_sectors: u32, kernel_addr: u32, kernel_block: u32) -> bool {
    sectors_to_read(kernel_sectors) > 0 ==> {
        &&& kernel_addr + BLOCK_SIZE * sectors_to_read(kernel_sectors) <= u32::MAX
        &&& kernel_block + sectors_to_read(kernel_sectors) <= u32::MAX
    }
}

/// Whether loading a kernel of `kernel_sectors` sectors from block `kernel_block` to
/// `kernel_addr` keeps the running address and block number within 32 bits.
pub fn sectors_in_range(kernel_sectors: u32, kernel_addr: u32, kernel_block: u32) -> (r: bool)
    ensures
        r == read_in_range(kernel_sectors, kernel_addr, kernel_block),
{
    if kernel_sectors > 0x7fff_ffff || kernel_sectors == 0 {
        true
    } else {
        let end_addr = kernel_addr as u64 + 512 * kernel_sectors as u64;
        let end_block = kernel_block as u64 + kernel_sectors as u64;
        end_addr <= 0xffff_ffff && end_block <= 0xffff_ffff
    }
}

/// The number of blocks that the packets of `chunks` ask for, together.
pub open spec fn chunk_blocks(chunks: Seq<ReadChunk>) -> int
    decreases chunks.len(),
{
    if chunks.len() == 0 {
        0
    } else {
        chunk_blocks(chunks.drop_last()) + chunks.last().packet@.num_blocks
    }
}

/// Plan the loading of a kernel of `kernel_sectors` sectors that starts at disk block
/// `kernel_block` to the address `kernel_addr`, through the disk buffer at `buf_addr`.
pub fn read_kernel(kernel_sectors: u32, kernel_addr: u32, kernel_block: u32, buf_addr: u32) -> (r:
    Vec<ReadChunk>)
    requires
        read_in_range(kernel_sectors, kernel_addr, kernel_block),
    ensures
        r@.len() == read_plan(
            sectors_to_read(kernel_sectors),
            kernel_addr as int,
            kernel_block as int,
        ).len(),
        forall|i: int|
            0 <= i < r@.len() ==> chunk_matches(
                #[trigger] r@[i],
                read_plan(sectors_to_read(kernel_sectors), kernel_addr as int, kernel_block as int)[i],
                buf_addr,
            ),
        chunk_blocks(r@) == if kernel_sectors <= 0x7fff_ffff {
            kernel_sectors as int
        } else {
            0
        },
{
    let ghost total = sectors_to_read(kernel_sectors);
    let ghost plan = read_plan(total, kernel_addr as int, kernel_block as int);
    let mut sectors_left = kernel_sectors as i32;
    assert(sectors_left == kernel_sectors || sectors_left < 0) by (bit_vector)
        requires
            sectors_left == kernel_sectors as i32,
    ;
    assert(kernel_sectors <= 0x7fff_ffff ==> sectors_left == kernel_sectors) by (bit_vector)
        requires
            sectors_left == kernel_sectors as i32,
    ;
    let mut cur_addr = kernel_addr;
    let mut cur_block = kernel_block;
    let (segment, offset) = real_mode_address(buf_addr);
    let mut chunks: Vec<ReadChunk> = Vec::new();
    while sectors_left > 0
        invariant
            total > 0 ==> kernel_addr + BLOCK_SIZE * total <= u32::MAX,
            total > 0 ==> kernel_block + total <= u32::MAX,
            plan == read_plan(total, kernel_addr as int, kernel_block as int),
            offset == buf_addr % 16,
            segment == (buf_addr / 16) % 0x10000,
            sectors_left > 0 ==> total > 0,
            chunk_blocks(chunks@) + (if sectors_left > 0 {
                sectors_left as int
            } else {
                0
            }) == if kernel_sectors <= 0x7fff_ffff {
                kernel_sectors as int
            } else {
                0
            },
            sectors_left > 0 ==> cur_addr + BLOCK_SIZE * sectors_left == kernel_addr + BLOCK_SIZE
                * total,
            sectors_left > 0 ==> cur_block + sectors_left == kernel_block + total,
            chunks@.len() + read_plan(sectors_left as int, cur_addr as int, cur_block as int).len()
                == plan.len(),
            forall|i: int|
                0 <= i < chunks@.len() ==> chunk_matches(#[trigger] chunks@[i], plan[i], buf_addr),
            forall|j: int|
                0 <= j < read_plan(sectors_left as int, cur_addr as int, cur_block as int).len()
                    ==> #[trigger] read_plan(
                    sectors_left as int,
                    cur_addr as int,
                    cur_block as int,
                )[j] == plan[chunks@.len() + j],
        decreases sectors_left,
    {
        // We can load at most 0x7f sectors per packet.
        let blocks_read: u32 = if sectors_left < 0x7f {
            sectors_left as u32
        } else {
            0x7f
        };
        proof {
            lemma_read_plan_unfold(sectors_left as int, cur_addr as int, cur_block as int);
        }
        let packet = DiskAddressPacket::new(blocks_read as u16, offset, segment, cur_block);
        let packet = match packet {
            Some(p) => p,
            None => {
                assert(false);
                return chunks;
            },
        };
        let chunk = ReadChunk { packet, dest_addr: cur_addr, byte_count: blocks_read * BLOCK_SIZE };
        let ghost old_len = chunks@.len();
        let ghost old_chunks = chunks@;
        chunks.push(chunk);
        assert(chunks@.drop_last() =~= old_chunks);
        assert(chunks@.last().packet@.num_blocks == blocks_read);
        assert(chunk_matches(chunks@[old_len as int], plan[old_len as int], buf_addr));
        sectors_left = sectors_left - blocks_read as i32;
        cur_addr = cur_addr + blocks_read * BLOCK_SIZE;
        cur_block = cur_block + blocks_read;
    }
    chunks
}

/// `mem` with the `n` bytes at `dest` replaced by the `n` bytes of `data` from `from` on.
pub open spec fn transferred(mem: Seq<u8>, data: Seq<u8>, dest: int, from: int, n: int) -> Seq<u8> {
    Seq::new(
        mem.len(),
        |i: int|
            if dest <= i < dest + n {
                data[from + (i - dest)]
            } else {
                mem[i]
            },
    )
}

/// Memory after carrying out the reads of `plan` through the buffer at `buf`: for each read,
/// the BIOS fills the buffer with its blocks of `disk`, and then the buffer's bytes are copied
/// to the read's destination.
pub open spec fn run_plan(mem: Seq<u8>, disk: Seq<u8>, buf: int, plan: Seq<(int, int, int)>) -> Seq<
    u8,
>
    decreases plan.len(),
{
    if plan.len() == 0 {
        mem
    } else {
        let (n, block, dest) = plan[0];
        let filled = transferred(mem, disk, buf, BLOCK_SIZE * block, BLOCK_SIZE * n);
        run_plan(copied(filled, dest, buf, BLOCK_SIZE * n), disk, buf, plan.drop_first())
    }
}

/// The `left` sectors of the disk from block `block` on stand at `addr` in `m`.
pub open spec fn kernel_in_place(m: Seq<u8>, disk: Seq<u8>, addr: int, block: int, left: int) -> bool {
    forall|k: int|
        0 <= k < BLOCK_SIZE * left ==> #[trigger] m[addr + k] == disk[BLOCK_SIZE * block + k]
}

/// `m` agrees with `mem` outside the ranges `[a, a + n)` and `[b, b + p)`.
pub open spec fn same_outside(m: Seq<u8>, mem: Seq<u8>, a: int, n: int, b: int, p: int) -> bool {
    &&& m.len() == mem.len()
    &&& forall|x: int|
        0 <= x < mem.len() && !(a <= x < a + n) && !(b <= x < b + p) ==> #[trigger] m[x]
            == mem[x]
}

/// The size in bytes of the disk buffer's part that one read uses at most.
pub open spec fn buffer_span() -> int {
    BLOCK_SIZE * MAX_PACKET_BLOCKS
}

/// Carrying out the plan loads the kernel: when the buffer lies apart from the kernel's place
/// in memory, then after every read has filled the buffer with its blocks and the buffer has
/// been copied to the read's destination, the `left` sectors from disk block `block` on stand
/// at `addr`, and no byte outside the kernel's place and the buffer has changed.
pub proof fn lemma_plan_loads_kernel(
    mem: Seq<u8>,
    disk: Seq<u8>,
    buf: int,
    left: int,
    addr: int,
    block: int,
)
    requires
        0 <= buf,
        buf + buffer_span() <= mem.len(),
        0 <= addr,
        0 <= left,
        addr + BLOCK_SIZE * left <= mem.len(),
        0 <= block,
        BLOCK_SIZE * (block + left) <= disk.len(),
        buf + buffer_span() <= addr || addr + BLOCK_SIZE * left <= buf,
    ensures
        kernel_in_place(run_plan(mem, disk, buf, read_plan(left, addr, block)), disk, addr, block, left),
        same_outside(
            run_plan(mem, disk, buf, read_plan(left, addr, block)),
            mem,
            addr,
            BLOCK_SIZE * left,
            buf,
            buffer_span(),
        ),
    decreases left,
{
    let plan = read_plan(left, addr, block);
    let result = run_plan(mem, disk, buf, plan);
    if left <= 0 {
        assert(plan.len() == 0);
    } else {
        let n = packet_blocks(left);
        lemma_read_plan_unfold(left, addr, block);
        let rest = read_plan(left - n, addr + BLOCK_SIZE * n, block + n);
        assert(plan.drop_first() =~= rest);
        let filled = transferred(mem, disk, buf, BLOCK_SIZE * block, BLOCK_SIZE * n);
        let m2 = copied(filled, addr, buf, BLOCK_SIZE * n);
        assert(result == run_plan(m2, disk, buf, rest));
        lemma_plan_loads_kernel(m2, disk, buf, left - n, addr + BLOCK_SIZE * n, block + n);
        assert forall|k: int| 0 <= k < BLOCK_SIZE * left implies #[trigger] result[addr + k]
            == disk[BLOCK_SIZE * block + k] by {
            if k < BLOCK_SIZE * n {
                assert(m2[addr + k] == filled[buf + k]);
                assert(result[addr + k] == m2[addr + k]);
            } else {
                let k2 = k - BLOCK_SIZE * n;
                assert(result[(addr + BLOCK_SIZE * n) + k2] == disk[BLOCK_SIZE * (block + n) + k2]);
                assert(addr + k == (addr + BLOCK_SIZE * n) + k2);
            }
        }
        assert forall|x: int|
            0 <= x < mem.len() && !(addr <= x < addr + BLOCK_SIZE * left) && !(buf <= x < buf
                + buffer_span()) implies #[trigger] result[x] == mem[x] by {
            assert(result[x] == m2[x]);
        }
    }
}

} // verus!
