//! The screen that the test kernel leaves in the VGA text buffer: the buffer cleared to
//! blanks, then the return address of its probe printed in the top-left corner as 16 base-16
//! digits, most significant first. Digit values 10 to 15 show as the characters that follow
//! `'9'` in ASCII (`:` to `?`).

use vstd::prelude::*;
use crate::hex::pow16;

verus! {

/// The number of cells of the 80 x 25 text screen.
pub const SCREEN_CELLS: usize = 2000;

/// The number of digits printed.
pub const IP_DIGITS: usize = 16;

/// A blank cell: a space with attribute 0.
pub const BLANK_CELL: u16 = 0x0020;

/// The attribute of the printed digits (light grey on black), in the high byte of a cell.
pub const DIGIT_ATTRIBUTE: u16 = 0x0700;

/// `ip` with its `j` lowest base-16 digits shifted out.
pub open spec fn shifted(ip: nat, j: nat) -> nat
    decreases j,
{
    if j == 0 {
        ip
    } else {
        shifted(ip, (j - 1) as nat) / 16
    }
}

/// Base-16 digit `j` of `ip`, counting from the least significant.
pub open spec fn hex_digit(ip: nat, j: nat) -> nat {
    shifted(ip, j) % 16
}

/// The cell that shows the digit value `d`.
pub open spec fn digit_cell(d: nat) -> int {
    DIGIT_ATTRIBUTE + 48 + d
}

/// The screen that the kernel leaves when its return address is `ip`.
pub open spec fn start_screen_spec(ip: u32) -> Seq<u16> {
    Seq::new(
        SCREEN_CELLS as nat,
        |x: int|
            if x < IP_DIGITS {
                digit_cell(hex_digit(ip as nat, (IP_DIGITS - 1 - x) as nat)) as u16
            } else {
                BLANK_CELL
            },
    )
}

/// The cells of the text screen after the kernel clears it and prints `ip`.
pub fn start_screen(ip: u32) -> (r: Vec<u16>)
    ensures
        r@ == start_screen_spec(ip),
        r@.len() == SCREEN_CELLS,
        forall|x: int|
            0 <= x < IP_DIGITS ==> #[trigger] r@[x] / 256 == 7 && 48 <= r@[x] % 256 < 64,
        forall|x: int| IP_DIGITS <= x < SCREEN_CELLS ==> #[trigger] r@[x] == BLANK_CELL,
        cells_value(r@, IP_DIGITS as nat) == ip,
{
    proof {
        lemma_start_screen_shows_ip(ip);
    }
    let mut screen: Vec<u16> = Vec::new();
    let mut i: usize = 0;
    while i < SCREEN_CELLS
        invariant
            i <= SCREEN_CELLS,
            screen@.len() == i,
            forall|x: int| 0 <= x < i ==> #[trigger] screen@[x] == BLANK_CELL,
        decreases SCREEN_CELLS - i,
    {
        screen.push(BLANK_CELL);
        i = i + 1;
    }
    let mut rest = ip;
    let mut step: usize = 0;
    while step < IP_DIGITS
        invariant
            step <= IP_DIGITS,
            screen@.len() == SCREEN_CELLS,
            rest == shifted(ip as nat, step as nat),
            forall|x: int|
                IP_DIGITS - step <= x < IP_DIGITS ==> #[trigger] screen@[x] == digit_cell(
                    hex_digit(ip as nat, (IP_DIGITS - 1 - x) as nat),
                ) as u16,
            forall|x: int| IP_DIGITS <= x < SCREEN_CELLS ==> #[trigger] screen@[x] == BLANK_CELL,
        decreases IP_DIGITS - step,
    {
        let k = rest % 16;
        rest = rest / 16;
        let cell = 0x07u16 << 8u16 | (k as u8 + 48u8) as u16;
        assert(cell == DIGIT_ATTRIBUTE + 48 + k) by (bit_vector)
            requires
                k < 16,
                cell == 0x07u16 << 8u16 | (k as u8 + 48u8) as u16,
        ;
        screen.set(IP_DIGITS - 1 - step, cell);
        step = step + 1;
    }
    assert(screen@ =~= start_screen_spec(ip));
    screen
}

/// The number that the `k` lowest base-16 digits of `ip` denote.
pub open spec fn hex_value(ip: nat, k: nat) -> nat
    decreases k,
{
    if k == 0 {
        0
    } else {
        hex_value(ip, (k - 1) as nat) + hex_digit(ip, (k - 1) as nat) * pow16((k - 1) as nat)
    }
}

proof fn lemma_hex_split(ip: nat, k: nat)
    ensures
        hex_value(ip, k) + pow16(k) * shifted(ip, k) == ip,
    decreases k,
{
    if k > 0 {
        let j = (k - 1) as nat;
        lemma_hex_split(ip, j);
        let s = shifted(ip, j);
        let p = pow16(j);
        assert(s == 16 * shifted(ip, k) + hex_digit(ip, j));
        assert(pow16(k) == 16 * p);
        assert(hex_value(ip, k) == hex_value(ip, j) + hex_digit(ip, j) * p);
        assert(p * s == hex_digit(ip, j) * p + (16 * p) * shifted(ip, k)) by (nonlinear_arith)
            requires
                s == 16 * shifted(ip, k) + hex_digit(ip, j),
        ;
        assert(pow16(k) * shifted(ip, k) == (16 * p) * shifted(ip, k));
    } else {
        assert(pow16(0) == 1);
        assert(shifted(ip, 0) == ip);
        assert(1 * ip == ip);
    }
}

/// The 16 printed digits spell the return address exactly: the digits read in base 16 denote
/// `ip`, and the eight leading ones, beyond the 32 bits of an address, are zero.
pub proof fn lemma_screen_spells_ip(ip: u32)
    ensures
        hex_value(ip as nat, IP_DIGITS as nat) == ip,
        forall|j: nat| 8 <= j < IP_DIGITS ==> #[trigger] hex_digit(ip as nat, j) == 0,
{
    lemma_shifted_past_address(ip);
    assert forall|j: nat| 8 <= j implies #[trigger] shifted(ip as nat, j) == 0 by {
        lemma_shifted_zero(ip as nat, j);
    }
    lemma_hex_split(ip as nat, IP_DIGITS as nat);
    let z = shifted(ip as nat, IP_DIGITS as nat);
    assert(z == 0);
    assert(pow16(IP_DIGITS as nat) * z == 0) by (nonlinear_arith)
        requires
            z == 0,
    ;
}

/// A 32-bit address has no base-16 digits beyond the eighth.
proof fn lemma_shifted_past_address(ip: u32)
    ensures
        shifted(ip as nat, 8) == 0,
{
    lemma_hex_split(ip as nat, 8);
    assert(pow16(8) == 0x1_0000_0000) by {
        reveal_with_fuel(pow16, 9);
    }
    assert(shifted(ip as nat, 8) == 0) by (nonlinear_arith)
        requires
            hex_value(ip as nat, 8) + 0x1_0000_0000 * shifted(ip as nat, 8) == ip,
            ip < 0x1_0000_0000,
    ;
}

proof fn lemma_shifted_zero(ip: nat, j: nat)
    requires
        8 <= j,
        shifted(ip, 8) == 0,
    ensures
        shifted(ip, j) == 0,
    decreases j,
{
    if j > 8 {
        lemma_shifted_zero(ip, (j - 1) as nat);
    }
}

/// The number that the first `k` cells of `screen` spell, reading the character of each cell
/// as the base-16 digit `character - '0'`, most significant first.
pub open spec fn cells_value(screen: Seq<u16>, k: nat) -> int
    decreases k,
{
    if k == 0 {
        0
    } else {
        cells_value(screen, (k - 1) as nat) * 16 + (screen[k - 1] % 256 - 48)
    }
}

/// What the kernel leaves on the screen: the 16 top-left cells have attribute 7 and characters
/// from `'0'` on whose digit values, read in base 16, give back `ip`; every other cell of the
/// 80 x 25 screen is blank.
pub proof fn lemma_start_screen_shows_ip(ip: u32)
    ensures
        start_screen_spec(ip).len() == SCREEN_CELLS,
        forall|x: int|
            0 <= x < IP_DIGITS ==> #[trigger] start_screen_spec(ip)[x] / 256 == 7 && 48
                <= start_screen_spec(ip)[x] % 256 < 64,
        forall|x: int|
            IP_DIGITS <= x < SCREEN_CELLS ==> #[trigger] start_screen_spec(ip)[x] == BLANK_CELL,
        cells_value(start_screen_spec(ip), IP_DIGITS as nat) == ip,
{
    let s = start_screen_spec(ip);
    lemma_screen_spells_ip(ip);
    assert forall|x: int| 0 <= x < IP_DIGITS implies #[trigger] s[x] / 256 == 7 && 48 <= s[x]
        % 256 < 64 by {
        let d = hex_digit(ip as nat, (IP_DIGITS - 1 - x) as nat);
        assert(d < 16);
        assert(s[x] == 0x0700 + 48 + d);
    }
    lemma_cells_value(ip, IP_DIGITS as nat);
    assert(shifted(ip as nat, 0) == ip);
}

proof fn lemma_cells_value(ip: u32, k: nat)
    requires
        k <= IP_DIGITS,
    ensures
        cells_value(start_screen_spec(ip), k) == shifted(ip as nat, (IP_DIGITS - k) as nat),
    decreases k,
{
    let s = start_screen_spec(ip);
    if k == 0 {
        lemma_shifted_past_address(ip);
        lemma_shifted_zero(ip as nat, IP_DIGITS as nat);
    } else {
        lemma_cells_value(ip, (k - 1) as nat);
        let j = (IP_DIGITS - k) as nat;
        let d = hex_digit(ip as nat, j);
        assert(s[k - 1] == 0x0700 + 48 + d);
        assert(s[k - 1] % 256 - 48 == d);
        assert(shifted(ip as nat, (j + 1) as nat) == shifted(ip as nat, j) / 16);
    }
}

} // verus!
