//! The memory routines that `core` expects (`memcpy`, `memmove`, `memset`, `memcmp`, `bcmp` and
//! `strlen`), with the semantics of their libc namesakes. Memory is a flat byte array and each
//! pointer argument is an offset into it; a routine that returns a pointer returns that offset.

use vstd::prelude::*;

verus! {

/// `mem` with the `n` bytes at `dest` replaced by the `n` bytes that stood at `src`.
pub open spec fn copied(mem: Seq<u8>, dest: int, src: int, n: int) -> Seq<u8> {
    Seq::new(
        mem.len(),
        |i: int|
            if dest <= i < dest + n {
                mem[src + (i - dest)]
            } else {
                mem[i]
            },
    )
}

/// `mem` with the `n` bytes at `s` set to `c`.
pub open spec fn filled(mem: Seq<u8>, s: int, c: u8, n: int) -> Seq<u8> {
    Seq::new(mem.len(), |i: int| if s <= i < s + n { c } else { mem[i] })
}

/// The ranges `[a, a + n)` and `[b, b + n)` share no byte.
pub open spec fn disjoint(a: int, b: int, n: int) -> bool {
    a + n <= b || b + n <= a
}

/// Copy `n` bytes from `src` to `dest`. As in libc, the two ranges must not overlap.
pub fn memcpy(mem: &mut Vec<u8>, dest: usize, src: usize, n: usize) -> (r: usize)
    requires
        dest + n <= old(mem)@.len(),
        src + n <= old(mem)@.len(),
        disjoint(dest as int, src as int, n as int),
    ensures
        r == dest,
        final(mem)@ == copied(old(mem)@, dest as int, src as int, n as int),
{
    let ghost start = mem@;
    let len = mem.len();
    let mut offset: usize = 0;
    while offset < n
        invariant
            offset <= n,
            mem@.len() == start.len(),
            start.len() == len,
            dest + n <= start.len(),
            src + n <= start.len(),
            disjoint(dest as int, src as int, n as int),
            mem@ == copied(start, dest as int, src as int, offset as int),
        decreases n - offset,
    {
        let b = mem[src + offset];
        mem.set(dest + offset, b);
        offset = offset + 1;
        assert(mem@ =~= copied(start, dest as int, src as int, offset as int));
    }
    dest
}

/// Move `n` bytes from `src` to `dest`; the two ranges may overlap.
pub fn memmove(mem: &mut Vec<u8>, dest: usize, src: usize, n: usize) -> (r: usize)
    requires
        dest + n <= old(mem)@.len(),
        src + n <= old(mem)@.len(),
    ensures
        r == dest,
        final(mem)@ == copied(old(mem)@, dest as int, src as int, n as int),
{
    let ghost start = mem@;
    let len = mem.len();
    // We have to move src to dest, but src and dest are allowed to overlap. When src comes
    // after dest, a normal front-to-back copy never reads a byte it has already written;
    // otherwise we write from the back.
    if src > dest {
        let mut offset: usize = 0;
        while offset < n
            invariant
                offset <= n,
                dest < src,
                mem@.len() == start.len(),
                start.len() == len,
                dest + n <= start.len(),
                src + n <= start.len(),
                mem@ == copied(start, dest as int, src as int, offset as int),
            decreases n - offset,
        {
            let b = mem[src + offset];
            mem.set(dest + offset, b);
            offset = offset + 1;
            assert(mem@ =~= copied(start, dest as int, src as int, offset as int));
        }
    } else {
        let mut left: usize = n;
        while left > 0
            invariant
                left <= n,
                src <= dest,
                mem@.len() == start.len(),
                start.len() == len,
                dest + n <= start.len(),
                src + n <= start.len(),
                mem@ == copied(start, dest + left, src + left, n - left),
            decreases left,
        {
            let offset = left - 1;
            let b = mem[src + offset];
            mem.set(dest + offset, b);
            left = offset;
            assert(mem@ =~= copied(start, dest + left, src + left, n - left));
        }
        assert(mem@ =~= copied(start, dest as int, src as int, n as int));
    }
    dest
}

/// Set `n` bytes at `s` to the low byte of `c`.
pub fn memset(mem: &mut Vec<u8>, s: usize, c: i32, n: usize) -> (r: usize)
    requires
        s + n <= old(mem)@.len(),
    ensures
        r == s,
        final(mem)@ == filled(old(mem)@, s as int, c as u8, n as int),
{
    let ghost start = mem@;
    let len = mem.len();
    let byte = c as u8;
    let mut offset: usize = 0;
    while offset < n
        invariant
            offset <= n,
            mem@.len() == start.len(),
            start.len() == len,
            s + n <= start.len(),
            byte == c as u8,
            mem@ == filled(start, s as int, byte, offset as int),
        decreases n - offset,
    {
        mem.set(s + offset, byte);
        offset = offset + 1;
        assert(mem@ =~= filled(start, s as int, byte, offset as int));
    }
    s
}

/// The first `n` bytes at `s1` equal the first `n` bytes at `s2`.
pub open spec fn same_bytes(mem: Seq<u8>, s1: usize, s2: usize, n: int) -> bool {
    forall|j: int| 0 <= j < n ==> #[trigger] mem[s1 + j] == mem[s2 + j]
}

/// `i` is the first offset below `n` at which the bytes at `s1` and `s2` differ.
pub open spec fn first_difference_at(mem: Seq<u8>, s1: usize, s2: usize, n: usize, i: int) -> bool {
    &&& 0 <= i < n
    &&& same_bytes(mem, s1, s2, i)
    &&& mem[s1 + i] != mem[s2 + i]
}

/// `r` is the result of comparing the `n` bytes at `s1` with the `n` bytes at `s2`: zero when
/// they are equal, and otherwise the difference of the two bytes (as unsigned values) at the
/// first offset where they differ.
pub open spec fn compares_as(mem: Seq<u8>, s1: usize, s2: usize, n: usize, r: i32) -> bool {
    &&& same_bytes(mem, s1, s2, n as int) ==> r == 0
    &&& !same_bytes(mem, s1, s2, n as int) ==> exists|i: int|
        #[trigger] first_difference_at(mem, s1, s2, n, i) && r == mem[s1 + i] - mem[s2 + i]
}

/// The comparison that `memcmp` makes.
fn compare_bytes(mem: &Vec<u8>, s1: usize, s2: usize, n: usize) -> (r: i32)
    requires
        s1 + n <= mem@.len(),
        s2 + n <= mem@.len(),
    ensures
        compares_as(mem@, s1, s2, n, r),
{
    let len = mem.len();
    let mut offset: usize = 0;
    while offset < n
        invariant
            offset <= n,
            len == mem@.len(),
            s1 + n <= mem@.len(),
            s2 + n <= mem@.len(),
            same_bytes(mem@, s1, s2, offset as int),
        decreases n - offset,
    {
        let a = mem[s1 + offset];
        let b = mem[s2 + offset];
        if a != b {
            assert(first_difference_at(mem@, s1, s2, n, offset as int));
            return a as i32 - b as i32;
        }
        offset = offset + 1;
    }
    0
}

/// Compare `n` bytes at `s1` with `n` bytes at `s2`. The sign of the result orders the two
/// ranges; it is zero exactly when they are equal.
pub fn memcmp(mem: &Vec<u8>, s1: usize, s2: usize, n: usize) -> (r: i32)
    requires
        s1 + n <= mem@.len(),
        s2 + n <= mem@.len(),
    ensures
        compares_as(mem@, s1, s2, n, r),
{
    compare_bytes(mem, s1, s2, n)
}

/// Compare `n` bytes at `s1` with `n` bytes at `s2`; zero exactly when they are equal. It
/// returns what `memcmp` returns.
pub fn bcmp(mem: &Vec<u8>, s1: usize, s2: usize, n: usize) -> (r: i32)
    requires
        s1 + n <= mem@.len(),
        s2 + n <= mem@.len(),
    ensures
        compares_as(mem@, s1, s2, n, r),
{
    memcmp(mem, s1, s2, n)
}

/// The bytes from `s` on hold a terminating zero byte.
pub open spec fn terminated(mem: Seq<u8>, s: int) -> bool {
    exists|k: int| s <= k < mem.len() && #[trigger] mem[k] == 0
}

/// The length of the zero-terminated string at `s`: the number of bytes before the first zero.
pub fn strlen(mem: &Vec<u8>, s: usize) -> (r: usize)
    requires
        terminated(mem@, s as int),
    ensures
        s + r < mem@.len(),
        mem@[s + r] == 0,
        forall|j: int| 0 <= j < r ==> #[trigger] mem@[s + j] != 0,
{
    let len = mem.len();
    let mut i: usize = 0;
    while s + i < len && mem[s + i] != 0
        invariant
            len == mem@.len(),
            terminated(mem@, s as int),
            s + i <= len,
            forall|j: int| 0 <= j < i ==> #[trigger] mem@[s + j] != 0,
        decreases len - (s + i),
    {
        i = i + 1;
    }
    if s + i >= len {
        proof {
            let k = choose|k: int| s <= k < mem@.len() && #[trigger] mem@[k] == 0;
            assert(mem@[s + (k - s)] != 0);
        }
    }
    i
}

} // verus!
