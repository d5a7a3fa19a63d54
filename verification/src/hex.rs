//! Lowercase, zero-padded base-16 numerals, as the bootloader prints the partition layout
//! (`{:08x}`) and the first bytes of the loaded kernel (`{:02x}` each, followed by a space).

use vstd::prelude::*;

verus! {

/// The ASCII space, `b' '`.
pub const SPACE: u8 = 32;

/// The lowercase ASCII character of the base-16 digit `d`.
pub open spec fn hex_char(d: nat) -> u8 {
    if d < 10 {
        (48 + d) as u8
    } else {
        (87 + d) as u8
    }
}

/// The value of the base-16 digit character `c`, for `0`-`9` and `a`-`f`.
pub open spec fn hex_char_value(c: u8) -> int {
    if c <= 57 {
        c - 48
    } else {
        c - 87
    }
}

/// The `width` lowest base-16 digits of `x`, most significant first.
pub open spec fn hex_numeral(x: nat, width: nat) -> Seq<u8>
    decreases width,
{
    if width == 0 {
        seq![]
    } else {
        hex_numeral(x / 16, (width - 1) as nat).push(hex_char(x % 16))
    }
}

/// The number that a base-16 numeral denotes.
pub open spec fn hex_numeral_value(s: Seq<u8>) -> int
    decreases s.len(),
{
    if s.len() == 0 {
        0
    } else {
        hex_numeral_value(s.drop_last()) * 16 + hex_char_value(s.last())
    }
}

/// `16` to the power `k`.
pub open spec fn pow16(k: nat) -> nat
    decreases k,
{
    if k == 0 {
        1
    } else {
        16 * pow16((k - 1) as nat)
    }
}

/// The numeral denotes `x`, as long as `x` has no more than `width` digits; its characters
/// are digits and lowercase letters.
pub proof fn lemma_hex_numeral_value(x: nat, width: nat)
    requires
        x < pow16(width),
    ensures
        hex_numeral(x, width).len() == width,
        hex_numeral_value(hex_numeral(x, width)) == x,
        forall|i: int|
            0 <= i < width ==> {
                let c = #[trigger] hex_numeral(x, width)[i];
                (48 <= c <= 57) || (97 <= c <= 102)
            },
    decreases width,
{
    if width > 0 {
        let w = (width - 1) as nat;
        assert(x / 16 < pow16(w)) by (nonlinear_arith)
            requires
                x < 16 * pow16(w),
        ;
        lemma_hex_numeral_value(x / 16, w);
        let s = hex_numeral(x, width);
        assert(s.drop_last() =~= hex_numeral(x / 16, w));
        assert forall|i: int| 0 <= i < width implies {
            let c = #[trigger] hex_numeral(x, width)[i];
            (48 <= c <= 57) || (97 <= c <= 102)
        } by {
            if i < w {
                assert(s[i] == hex_numeral(x / 16, w)[i]);
            }
        }
    } else {
        assert(x == 0);
    }
}

/// The lowercase base-16 numeral of `x`, padded with zeros to `width` digits: `{:08x}` for a
/// `u32` with width 8, `{:02x}` for a byte with width 2.
pub fn hex_digits(x: u32, width: usize) -> (r: Vec<u8>)
    requires
        width <= 8,
    ensures
        r@ == hex_numeral(x as nat, width as nat),
        r@.len() == width,
        x < pow16(width as nat) ==> hex_numeral_value(r@) == x,
        x < pow16(width as nat) ==> forall|i: int| 0 <= i < width ==> is_hex_char(#[trigger] r@[i]),
{
    proof {
        if x < pow16(width as nat) {
            lemma_hex_numeral_value(x as nat, width as nat);
        }
    }
    let mut digits: Vec<u8> = Vec::new();
    let mut rest = x;
    let mut i: usize = 0;
    assert(pow16(0) == 1);
    assert(x as nat / 1 == x);
    while i < width
        invariant
            i <= width <= 8,
            digits@.len() == i,
            forall|j: int|
                0 <= j < i ==> #[trigger] digits@[j] == hex_numeral(x as nat, width as nat)[width
                    - 1 - j],
            rest == x as nat / pow16(i as nat),
        decreases width - i,
    {
        let d = rest % 16;
        let c = if d < 10 {
            48 + d as u8
        } else {
            87 + d as u8
        };
        proof {
            lemma_hex_numeral_at(x as nat, width as nat, i as nat);
            lemma_div_pow16(x as nat, i as nat);
        }
        digits.push(c);
        rest = rest / 16;
        i = i + 1;
    }
    // The digits came least significant first.
    let mut r: Vec<u8> = Vec::new();
    let mut k: usize = width;
    while k > 0
        invariant
            k <= width <= 8,
            digits@.len() == width,
            r@.len() == width - k,
            forall|j: int|
                0 <= j < width ==> #[trigger] digits@[j] == hex_numeral(x as nat, width as nat)[width
                    - 1 - j],
            forall|j: int|
                0 <= j < width - k ==> #[trigger] r@[j] == hex_numeral(x as nat, width as nat)[j],
        decreases k,
    {
        k = k - 1;
        r.push(digits[k]);
    }
    proof {
        lemma_hex_numeral_len(x as nat, width as nat);
    }
    assert(r@ =~= hex_numeral(x as nat, width as nat));
    r
}

proof fn lemma_hex_numeral_len(x: nat, width: nat)
    ensures
        hex_numeral(x, width).len() == width,
    decreases width,
{
    if width > 0 {
        lemma_hex_numeral_len(x / 16, (width - 1) as nat);
    }
}

/// Digit `j` counted from the least significant end of the numeral is digit `j` of `x`.
proof fn lemma_hex_numeral_at(x: nat, width: nat, j: nat)
    requires
        j < width,
    ensures
        hex_numeral(x, width)[width - 1 - j] == hex_char((x / pow16(j)) % 16),
    decreases j,
{
    lemma_hex_numeral_len(x, width);
    lemma_hex_numeral_len(x / 16, (width - 1) as nat);
    if j == 0 {
        assert(x / 1 == x);
    } else {
        lemma_hex_numeral_at(x / 16, (width - 1) as nat, (j - 1) as nat);
        lemma_div_div(x, j);
    }
}

proof fn lemma_div_div(x: nat, j: nat)
    requires
        j > 0,
    ensures
        (x / 16) / pow16((j - 1) as nat) == x / pow16(j),
{
    let p = pow16((j - 1) as nat);
    lemma_pow16_pos((j - 1) as nat);
    assert(pow16(j) == 16 * p);
    vstd::arithmetic::div_mod::lemma_div_denominator(x as int, 16, p as int);
}

proof fn lemma_div_pow16(x: nat, i: nat)
    ensures
        (x / pow16(i)) / 16 == x / pow16(i + 1),
{
    lemma_pow16_pos(i);
    assert(pow16(i + 1) == 16 * pow16(i));
    vstd::arithmetic::div_mod::lemma_div_denominator(x as int, pow16(i) as int, 16);
    assert(pow16(i) * 16 == 16 * pow16(i)) by (nonlinear_arith);
}

proof fn lemma_pow16_pos(k: nat)
    ensures
        pow16(k) > 0,
    decreases k,
{
    if k > 0 {
        lemma_pow16_pos((k - 1) as nat);
    }
}

/// The text for a dump of `bytes`: each byte as two lowercase base-16 digits and a space.
pub open spec fn hex_dump_text(bytes: Seq<u8>) -> Seq<u8>
    decreases bytes.len(),
{
    if bytes.len() == 0 {
        seq![]
    } else {
        hex_dump_text(bytes.drop_last()) + hex_numeral(bytes.last() as nat, 2).push(SPACE)
    }
}

/// `c` is a base-16 digit character: `0`-`9` or a lowercase `a`-`f`.
pub open spec fn is_hex_char(c: u8) -> bool {
    (48 <= c <= 57) || (97 <= c <= 102)
}

/// The three characters of `text` from `3 * i` on are two lowercase base-16 digits whose value
/// is `b`, then a space.
pub open spec fn byte_dumped(text: Seq<u8>, i: int, b: u8) -> bool {
    &&& is_hex_char(text[3 * i])
    &&& is_hex_char(text[3 * i + 1])
    &&& text[3 * i + 2] == SPACE
    &&& hex_char_value(text[3 * i]) * 16 + hex_char_value(text[3 * i + 1]) == b
}

/// The dump reads back as the bytes: it has three characters per byte, and the three for
/// byte `i` are two lowercase base-16 digits whose value is byte `i`, then a space.
pub proof fn lemma_hex_dump_reads_back(bytes: Seq<u8>)
    ensures
        hex_dump_text(bytes).len() == 3 * bytes.len(),
        forall|i: int|
            0 <= i < bytes.len() ==> byte_dumped(hex_dump_text(bytes), i, #[trigger] bytes[i]),
    decreases bytes.len(),
{
    if bytes.len() > 0 {
        let prev = bytes.drop_last();
        lemma_hex_dump_reads_back(prev);
        let b = bytes.last();
        let p = hex_dump_text(prev);
        let d = hex_numeral(b as nat, 2);
        let t = hex_dump_text(bytes);
        assert(pow16(2) == 256) by {
            reveal_with_fuel(pow16, 3);
        }
        lemma_hex_numeral_value(b as nat, 2);
        assert(d.drop_last().drop_last() =~= Seq::<u8>::empty());
        assert(hex_numeral_value(d.drop_last()) == hex_char_value(d[0]));
        assert(hex_numeral_value(d) == hex_char_value(d[0]) * 16 + hex_char_value(d[1]));
        assert(t == p + d.push(SPACE));
        assert forall|i: int|
            0 <= i < bytes.len() implies byte_dumped(t, i, #[trigger] bytes[i]) by {
            if i < prev.len() {
                assert(bytes[i] == prev[i]);
                assert(t[3 * i] == p[3 * i]);
                assert(t[3 * i + 1] == p[3 * i + 1]);
                assert(t[3 * i + 2] == p[3 * i + 2]);
            } else {
                assert(t[3 * i] == d[0]);
                assert(t[3 * i + 1] == d[1]);
                assert(is_hex_char(d[0]));
                assert(is_hex_char(d[1]));
            }
        }
    }
}

/// The dump of `bytes`, as `{b:02x} ` prints each of them in turn: three characters per byte,
/// two lowercase base-16 digits that read back as the byte and a space.
pub fn hex_dump(bytes: &[u8]) -> (r: Vec<u8>)
    ensures
        r@ == hex_dump_text(bytes@),
        r@.len() == 3 * bytes@.len(),
        forall|i: int|
            0 <= i < bytes@.len() ==> byte_dumped(r@, i, #[trigger] bytes@[i]),
{
    proof {
        lemma_hex_dump_reads_back(bytes@);
    }
    let mut out: Vec<u8> = Vec::new();
    let mut i: usize = 0;
    while i < bytes.len()
        invariant
            i <= bytes@.len(),
            out@ == hex_dump_text(bytes@.subrange(0, i as int)),
        decreases bytes@.len() - i,
    {
        let digits = hex_digits(bytes[i] as u32, 2);
        let ghost before = out@;
        let mut k: usize = 0;
        while k < digits.len()
            invariant
                k <= digits@.len(),
                out@ == before + digits@.subrange(0, k as int),
            decreases digits@.len() - k,
        {
            out.push(digits[k]);
            k = k + 1;
            assert(out@ =~= before + digits@.subrange(0, k as int));
        }
        out.push(SPACE);
        assert(digits@.subrange(0, digits@.len() as int) =~= digits@);
        assert(bytes@.subrange(0, i + 1).drop_last() =~= bytes@.subrange(0, i as int));
        i = i + 1;
        assert(out@ =~= hex_dump_text(bytes@.subrange(0, i as int)));
    }
    assert(bytes@.subrange(0, bytes@.len() as int) =~= bytes@);
    out
}

} // verus!
