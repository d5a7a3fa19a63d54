use bootloader::hex::{hex_digits, hex_dump};
use bootloader::kernel_load::read_kernel;
use bootloader::mem_routines::memcpy;

#[test]
fn hex_digits_pad_with_zeros() {
    assert_eq!(hex_digits(0x7C00, 8), b"00007c00".to_vec());
    assert_eq!(hex_digits(u32::MAX, 8), b"ffffffff".to_vec());
    assert_eq!(hex_digits(0, 8), b"00000000".to_vec());
    assert_eq!(hex_digits(0xAB, 2), b"ab".to_vec());
    assert_eq!(hex_digits(5, 2), b"05".to_vec());
    assert_eq!(hex_digits(5, 0), Vec::<u8>::new());
}

#[test]
fn hex_digits_match_std_formatting() {
    for x in [0u32, 1, 9, 10, 15, 16, 255, 0x1234_5678, 0xDEAD_BEEF] {
        assert_eq!(hex_digits(x, 8), format!("{:08x}", x).into_bytes());
    }
}

#[test]
fn hex_dump_of_bytes() {
    assert_eq!(hex_dump(&[0x00, 0x0f, 0xa0, 0xff]), b"00 0f a0 ff ".to_vec());
    assert_eq!(hex_dump(&[]), Vec::<u8>::new());
}

/// Carry out a read plan on a memory image: fill the buffer with each read's blocks of the
/// disk, then copy the buffer to the read's destination.
fn simulate(mem: &mut Vec<u8>, disk: &[u8], sectors: u32, addr: u32, block: u32, buf: u32) {
    for chunk in read_kernel(sectors, addr, block, buf) {
        let bytes = chunk.packet.to_bytes();
        let first = u64::from_le_bytes(bytes[8..16].try_into().unwrap()) as usize;
        let n = chunk.byte_count as usize;
        mem[buf as usize..buf as usize + n].copy_from_slice(&disk[first * 512..first * 512 + n]);
        memcpy(mem, chunk.dest_addr as usize, buf as usize, n);
    }
}

#[test]
fn plan_loads_kernel_in_simulation() {
    let disk: Vec<u8> = (0..600 * 512).map(|i| (i * 7 % 251) as u8).collect();
    let buf = 0x100;
    let addr = 0x100 + 127 * 512;
    let mut mem = vec![0xEEu8; addr as usize + 300 * 512 + 64];
    simulate(&mut mem, &disk, 300, addr, 17, buf);
    let start = addr as usize;
    assert_eq!(&mem[start..start + 300 * 512], &disk[17 * 512..317 * 512]);
    assert!(mem[..buf as usize].iter().all(|&b| b == 0xEE));
    assert!(mem[start + 300 * 512..].iter().all(|&b| b == 0xEE));
}
