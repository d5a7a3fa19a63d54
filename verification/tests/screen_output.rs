use bootloader::bios::BiosCaller;
use bootloader::charset::character_table;
use bootloader::decimal::print_num;
use bootloader::print::BiosWriter;
use bootloader::teletype::teletype_bytes;
use bootloader::typestate::RealMode;
use bootloader::vga::start_screen;

#[test]
fn newline_gets_a_carriage_return() {
    assert_eq!(teletype_bytes(b"Hello, world!\n"), b"Hello, world!\r\n".to_vec());
    assert_eq!(teletype_bytes(b"\n\n"), b"\r\n\r\n".to_vec());
    assert_eq!(teletype_bytes(b""), Vec::<u8>::new());
    assert_eq!(teletype_bytes(b"no break"), b"no break".to_vec());
}

#[test]
fn writing_in_pieces_equals_writing_at_once() {
    let mut pieces = teletype_bytes(b"ab\n");
    pieces.extend(teletype_bytes(b"c\nd"));
    assert_eq!(pieces, teletype_bytes(b"ab\nc\nd"));
}

#[test]
fn both_writers_translate_newlines() {
    let real = RealMode::begin(0);
    let caller: &BiosCaller = &real;
    assert_eq!(caller.writer().write_str(b"x\ny"), b"x\r\ny".to_vec());
    assert_eq!(BiosWriter.write_str(b"x\ny"), b"x\r\ny".to_vec());
}

#[test]
fn print_num_prints_decimal() {
    assert_eq!(print_num(0), b"0".to_vec());
    assert_eq!(print_num(7), b"7".to_vec());
    assert_eq!(print_num(10), b"10".to_vec());
    assert_eq!(print_num(99), b"99".to_vec());
    assert_eq!(print_num(100), b"100".to_vec());
    assert_eq!(print_num(205), b"205".to_vec());
    assert_eq!(print_num(255), b"255".to_vec());
}

#[test]
fn character_table_lists_every_byte_but_line_breaks() {
    let table = character_table();
    assert!(table.starts_with(&[b'0', b':', 0, 0, 0, b'1', b':', 0, 1, 0]));
    assert!(table.ends_with(&[b'2', b'5', b'5', b':', 0, 255, 0]));
    assert!(!table.contains(&b'\n'));
    assert!(!table.contains(&b'\r'));
    // 254 entries of 4 bytes after the numeral; numerals: 10 one-digit, 90 two-digit,
    // 156 three-digit, less the two skipped two-digit ones (10 and 13).
    assert_eq!(table.len(), 254 * 4 + 10 + 88 * 2 + 156 * 3);
    let nine: &[u8] = &[b'9', b':', 0, 9, 0, b'1', b'1', b':', 0, 11, 0];
    assert!(table.windows(nine.len()).any(|w| w == nine));
}

#[test]
fn start_screen_prints_the_address() {
    let screen = start_screen(0x0000_7C1A);
    assert_eq!(screen.len(), 2000);
    let digits: Vec<u8> = screen[..16].iter().map(|c| (c & 0xFF) as u8).collect();
    assert_eq!(digits, b"0000000000007<1:".to_vec());
    assert!(screen[..16].iter().all(|c| c >> 8 == 0x07));
    assert!(screen[16..].iter().all(|&c| c == 0x0020));
}

#[test]
fn start_screen_digits_read_back_as_the_address() {
    for ip in [0u32, 1, 0xDEAD_BEEF, u32::MAX] {
        let screen = start_screen(ip);
        let value = screen[..16]
            .iter()
            .fold(0u64, |acc, c| acc * 16 + ((c & 0xFF) as u64 - b'0' as u64));
        assert_eq!(value, ip as u64);
    }
}
