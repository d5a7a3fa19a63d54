//! The character table that the 32-bit MBR bootloader prints: every byte value with its
//! decimal number, so that the font of the BIOS can be inspected.

use vstd::prelude::*;
use crate::decimal::{decimal_digits, is_digit, lemma_decimal_digits, numeral_value, print_num};
use crate::teletype::{CARRIAGE_RETURN, LINE_FEED};

verus! {

/// The colon that separates a number from its character, `b':'`.
pub const COLON: u8 = 58;

/// The bytes printed for the byte value `i`: its decimal number, a colon, and the character
/// itself between two zero bytes. Line feed and carriage return are skipped, since printing
/// them would move the cursor.
pub open spec fn table_entry(i: u8) -> Seq<u8> {
    if i == LINE_FEED || i == CARRIAGE_RETURN {
        seq![]
    } else {
        decimal_digits(i) + seq![COLON, 0, i, 0]
    }
}

/// The entries for the byte values below `k`, in increasing order.
pub open spec fn table_upto(k: nat) -> Seq<u8>
    decreases k,
{
    if k == 0 {
        seq![]
    } else {
        table_upto((k - 1) as nat) + table_entry((k - 1) as u8)
    }
}

/// The bytes printed to list all of the characters, in order.
pub fn character_table() -> (r: Vec<u8>)
    ensures
        r@ == table_upto(256),
{
    let mut out: Vec<u8> = Vec::new();
    let mut i: u16 = 0;
    while i <= 255
        invariant
            i <= 256,
            out@ == table_upto(i as nat),
        decreases 256 - i,
    {
        let c = i as u8;
        let ghost before = out@;
        if c != LINE_FEED && c != CARRIAGE_RETURN {
            let digits = print_num(c);
            let mut k: usize = 0;
            while k < digits.len()
                invariant
                    k <= digits@.len(),
                    out@ == before + digits@.subrange(0, k as int),
                decreases digits@.len() - k,
            {
                out.push(digits[k]);
                k = k + 1;
                assert(out@ =~= before + digits@.subrange(0, k as int));
            }
            assert(digits@.subrange(0, digits@.len() as int) =~= digits@);
            out.push(COLON);
            out.push(0);
            out.push(c);
            out.push(0);
        }
        assert(out@ =~= before + table_entry(c));
        i = i + 1;
    }
    out
}

/// The table holds no line feed and no carriage return, so it prints on the screen without
/// moving the cursor to another line.
pub proof fn lemma_table_has_no_line_breaks(k: nat)
    ensures
        forall|j: int|
            0 <= j < table_upto(k).len() ==> #[trigger] table_upto(k)[j] != LINE_FEED
                && table_upto(k)[j] != CARRIAGE_RETURN,
    decreases k,
{
    if k > 0 {
        lemma_table_has_no_line_breaks((k - 1) as nat);
        let prev = table_upto((k - 1) as nat);
        let e = table_entry((k - 1) as u8);
        let i = (k - 1) as u8;
        assert forall|j: int| 0 <= j < e.len() implies #[trigger] e[j] != LINE_FEED && e[j]
            != CARRIAGE_RETURN by {
            let d = decimal_digits(i);
            if j < d.len() {
                assert(48 <= d[j] <= 57);
            }
        }
        assert forall|j: int|
            0 <= j < table_upto(k).len() implies #[trigger] table_upto(k)[j] != LINE_FEED
                && table_upto(k)[j] != CARRIAGE_RETURN by {
            if j < prev.len() {
                assert(table_upto(k)[j] == prev[j]);
            } else {
                assert(table_upto(k)[j] == e[j - prev.len()]);
            }
        }
    }
}

proof fn lemma_table_prefix(k: nat, m: nat)
    requires
        k <= m,
    ensures
        table_upto(k).len() <= table_upto(m).len(),
        table_upto(m).subrange(0, table_upto(k).len() as int) == table_upto(k),
    decreases m,
{
    if k < m {
        lemma_table_prefix(k, (m - 1) as nat);
        let p = table_upto((m - 1) as nat);
        assert(table_upto(m).subrange(0, table_upto(k).len() as int) =~= p.subrange(
            0,
            table_upto(k).len() as int,
        ));
    } else {
        assert(table_upto(m).subrange(0, table_upto(k).len() as int) =~= table_upto(k));
    }
}

/// At offset `o` of `t` stands a decimal numeral of `len` (one to three) digits that denotes
/// `c`, then a colon, a zero byte, `c` and another zero byte.
pub open spec fn listed_at(t: Seq<u8>, o: int, len: int, c: u8) -> bool {
    &&& 0 <= o
    &&& 1 <= len <= 3
    &&& o + len + 4 <= t.len()
    &&& forall|j: int| o <= j < o + len ==> is_digit(#[trigger] t[j])
    &&& numeral_value(t.subrange(o, o + len)) == c
    &&& t[o + len] == COLON
    &&& t[o + len + 1] == 0
    &&& t[o + len + 2] == c
    &&& t[o + len + 3] == 0
}

/// Every character other than line feed and carriage return is listed: somewhere in the table
/// stands a decimal numeral of one to three digits that denotes the character's value,
/// followed by a colon, a zero byte, the character itself and another zero byte.
pub proof fn lemma_table_lists_every_character(c: u8)
    requires
        c != LINE_FEED,
        c != CARRIAGE_RETURN,
    ensures
        exists|o: int, len: int| #[trigger] listed_at(table_upto(256), o, len, c),
{
    let t = table_upto(256);
    let k = (c + 1) as nat;
    lemma_table_prefix(k, 256);
    let before = table_upto(c as nat);
    let d = decimal_digits(c);
    lemma_decimal_digits(c);
    let o = before.len() as int;
    let len = d.len() as int;
    assert(table_upto(k) == before + table_entry(c));
    assert(table_entry(c) == d + seq![COLON, 0, c, 0]);
    let pre = table_upto(k);
    assert(pre.len() == o + len + 4);
    assert forall|j: int| o <= j < o + len implies is_digit(#[trigger] t[j]) by {
        assert(t[j] == pre[j]);
        assert(pre[j] == d[j - o]);
    }
    assert(t.subrange(o, o + len) =~= d) by {
        assert forall|j: int| 0 <= j < len implies t.subrange(o, o + len)[j] == d[j] by {
            assert(t[o + j] == pre[o + j]);
        }
    }
    assert(t[o + len] == pre[o + len]);
    assert(t[o + len + 1] == pre[o + len + 1]);
    assert(t[o + len + 2] == pre[o + len + 2]);
    assert(t[o + len + 3] == pre[o + len + 3]);
    assert(listed_at(t, o, len, c));
}

} // verus!
