use bootloader::disk::DiskAddressPacket;
use bootloader::kernel_load::{read_kernel, real_mode_address, sectors_in_range};

#[test]
fn packet_accepts_up_to_0x7f_blocks() {
    assert!(DiskAddressPacket::new(0x7F, 0x10, 0x20, 7).is_some());
    assert!(DiskAddressPacket::new(0, 0, 0, 0).is_some());
}

#[test]
fn packet_refuses_more_than_0x7f_blocks() {
    assert!(DiskAddressPacket::new(0x80, 0, 0, 0).is_none());
    assert!(DiskAddressPacket::new(u16::MAX, 0, 0, 0).is_none());
}

#[test]
fn packet_image_is_little_endian() {
    let p = DiskAddressPacket::new(0x7F, 0x1234, 0xABCD, 0x0102_0304).unwrap();
    assert_eq!(
        p.to_bytes(),
        vec![16, 0, 0x7F, 0, 0x34, 0x12, 0xCD, 0xAB, 0x04, 0x03, 0x02, 0x01, 0, 0, 0, 0]
    );
}

#[test]
fn real_mode_address_splits_linear_address() {
    assert_eq!(real_mode_address(0x7E05), (0x7E0, 0x5));
    let (segment, offset) = real_mode_address(0xF_FFFF);
    assert_eq!(segment as u32 * 16 + offset as u32, 0xF_FFFF);
    // Above 1 MiB the segment keeps only its 16 low bits.
    assert_eq!(real_mode_address(0x10_0010), (0x0001, 0x0));
}

#[test]
fn kernel_read_is_split_into_packets_of_0x7f() {
    let chunks = read_kernel(300, 0x10_0000, 5, 0x8000);
    assert_eq!(chunks.len(), 3);
    let blocks: Vec<u32> = chunks.iter().map(|c| c.byte_count / 512).collect();
    assert_eq!(blocks, vec![127, 127, 46]);
    assert_eq!(chunks[0].dest_addr, 0x10_0000);
    assert_eq!(chunks[1].dest_addr, 0x10_0000 + 127 * 512);
    assert_eq!(chunks[2].dest_addr, 0x10_0000 + 254 * 512);
    let bytes: Vec<Vec<u8>> = chunks.iter().map(|c| c.packet.to_bytes()).collect();
    // Packet for the third read: 46 blocks at 0x0800:0x0000, starting at block 5 + 254.
    assert_eq!(bytes[2], vec![16, 0, 46, 0, 0, 0, 0x00, 0x08, 3, 1, 0, 0, 0, 0, 0, 0]);
    assert_eq!(bytes[0][8], 5);
    assert_eq!(bytes[1][8], 132);
}

#[test]
fn kernel_read_of_exactly_one_packet() {
    let chunks = read_kernel(127, 0x2000, 0, 0x1234);
    assert_eq!(chunks.len(), 1);
    assert_eq!(chunks[0].byte_count, 127 * 512);
    let b = chunks[0].packet.to_bytes();
    assert_eq!(&b[4..8], &[0x04, 0x00, 0x23, 0x01]);
}

#[test]
fn kernel_read_of_nothing() {
    assert!(read_kernel(0, 0x2000, 0, 0x1234).is_empty());
    // A count of 2^31 or more is negative as a signed number, so nothing is read.
    assert!(read_kernel(0x8000_0000, 0x2000, 0, 0x1234).is_empty());
    assert!(read_kernel(u32::MAX, 0, 0, 0).is_empty());
}

#[test]
fn loading_must_stay_within_32_bits() {
    assert!(sectors_in_range(300, 0x10_0000, 5));
    assert!(sectors_in_range(0, u32::MAX, u32::MAX));
    assert!(sectors_in_range(0x8000_0000, u32::MAX, u32::MAX));
    // The last address reached is 0xFFFF_FE00 + 512 = 2^32.
    assert!(!sectors_in_range(1, 0xFFFF_FE00, 0));
    assert!(sectors_in_range(1, 0xFFFF_FDFF, 0));
    assert!(!sectors_in_range(2, 0, u32::MAX - 1));
    assert!(sectors_in_range(1, 0, u32::MAX - 1));
}
