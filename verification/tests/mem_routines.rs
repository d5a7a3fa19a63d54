use bootloader::mem_routines::{bcmp, memcmp, memcpy, memmove, memset, strlen};

#[test]
fn memcpy_copies_disjoint_ranges() {
    let mut mem = vec![1, 2, 3, 4, 5, 6, 7, 8];
    assert_eq!(memcpy(&mut mem, 4, 0, 3), 4);
    assert_eq!(mem, vec![1, 2, 3, 4, 1, 2, 3, 8]);
}

#[test]
fn memcpy_of_nothing_changes_nothing() {
    let mut mem = vec![9, 8, 7];
    assert_eq!(memcpy(&mut mem, 1, 1, 0), 1);
    assert_eq!(mem, vec![9, 8, 7]);
}

#[test]
fn memmove_overlapping_forward() {
    let mut mem = vec![1, 2, 3, 4, 5, 6];
    assert_eq!(memmove(&mut mem, 0, 2, 4), 0);
    assert_eq!(mem, vec![3, 4, 5, 6, 5, 6]);
}

#[test]
fn memmove_overlapping_backward() {
    let mut mem = vec![1, 2, 3, 4, 5, 6];
    assert_eq!(memmove(&mut mem, 2, 0, 4), 2);
    assert_eq!(mem, vec![1, 2, 1, 2, 3, 4]);
}

#[test]
fn memmove_onto_itself() {
    let mut mem = vec![1, 2, 3];
    memmove(&mut mem, 0, 0, 3);
    assert_eq!(mem, vec![1, 2, 3]);
}

#[test]
fn memset_uses_the_low_byte() {
    let mut mem = vec![0; 6];
    assert_eq!(memset(&mut mem, 1, 0x1_41, 3), 1);
    assert_eq!(mem, vec![0, 0x41, 0x41, 0x41, 0, 0]);
    memset(&mut mem, 0, -1, 1);
    assert_eq!(mem[0], 0xFF);
}

#[test]
fn memcmp_orders_by_first_difference() {
    let mem = vec![1, 2, 3, 1, 2, 9, 1, 2, 3];
    assert_eq!(memcmp(&mem, 0, 6, 3), 0);
    assert_eq!(memcmp(&mem, 0, 3, 3), 3 - 9);
    assert_eq!(memcmp(&mem, 3, 0, 3), 9 - 3);
    assert_eq!(memcmp(&mem, 0, 3, 2), 0);
    assert_eq!(memcmp(&mem, 0, 3, 0), 0);
}

#[test]
fn memcmp_compares_bytes_as_unsigned() {
    let mem = vec![0xFF, 0x01];
    assert_eq!(memcmp(&mem, 0, 1, 1), 254);
    assert_eq!(memcmp(&mem, 1, 0, 1), -254);
}

#[test]
fn bcmp_agrees_with_memcmp() {
    let mem = vec![5, 6, 5, 7];
    assert_eq!(bcmp(&mem, 0, 2, 2), memcmp(&mem, 0, 2, 2));
    assert_ne!(bcmp(&mem, 0, 2, 2), 0);
    assert_eq!(bcmp(&mem, 0, 2, 1), 0);
}

#[test]
fn strlen_counts_up_to_the_zero() {
    let mem = b"hello\0world\0".to_vec();
    assert_eq!(strlen(&mem, 0), 5);
    assert_eq!(strlen(&mem, 6), 5);
    assert_eq!(strlen(&mem, 5), 0);
}
