//! The bytes that the BIOS teletype output interrupt (`int 0x10`, `ah = 0x0E`) receives for a
//! string: each line feed is preceded by a carriage return, so that text written with `\n`
//! starts each line at the left margin.

use vstd::prelude::*;

verus! {

/// The line feed byte, `b'\n'`.
pub const LINE_FEED: u8 = 10;

/// The carriage return byte, `b'\r'`.
pub const CARRIAGE_RETURN: u8 = 13;

/// The bytes that the teletype receives for the single byte `b`.
pub open spec fn teletype_byte(b: u8) -> Seq<u8> {
    if b == LINE_FEED {
        seq![CARRIAGE_RETURN, LINE_FEED]
    } else {
        seq![b]
    }
}

/// The bytes that the teletype receives for the string `s`.
pub open spec fn teletype(s: Seq<u8>) -> Seq<u8>
    decreases s.len(),
{
    if s.len() == 0 {
        seq![]
    } else {
        teletype(s.drop_last()) + teletype_byte(s.last())
    }
}

/// The number of line feeds in `s`.
pub open spec fn line_feeds(s: Seq<u8>) -> nat
    decreases s.len(),
{
    if s.len() == 0 {
        0
    } else {
        line_feeds(s.drop_last()) + if s.last() == LINE_FEED {
            1nat
        } else {
            0nat
        }
    }
}

/// The bytes that the teletype receives for `s`, in order.
pub fn teletype_bytes(s: &[u8]) -> (r: Vec<u8>)
    ensures
        r@ == teletype(s@),
{
    let mut out: Vec<u8> = Vec::new();
    let mut i: usize = 0;
    while i < s.len()
        invariant
            i <= s@.len(),
            out@ == teletype(s@.subrange(0, i as int)),
        decreases s@.len() - i,
    {
        let b = s[i];
        // yeah don't feel like \r ing everything
        if b == LINE_FEED {
            out.push(CARRIAGE_RETURN);
        }
        out.push(b);
        assert(s@.subrange(0, i + 1).drop_last() =~= s@.subrange(0, i as int));
        i = i + 1;
        assert(out@ =~= teletype(s@.subrange(0, i as int)));
    }
    assert(s@.subrange(0, s@.len() as int) =~= s@);
    out
}

/// Writing `a` and then `b` sends the teletype what writing `a + b` at once sends it, so a
/// string may be written in pieces.
pub proof fn lemma_teletype_concat(a: Seq<u8>, b: Seq<u8>)
    ensures
        teletype(a + b) == teletype(a) + teletype(b),
    decreases b.len(),
{
    if b.len() == 0 {
        assert(a + b =~= a);
        assert(teletype(a) + teletype(b) =~= teletype(a));
    } else {
        lemma_teletype_concat(a, b.drop_last());
        assert((a + b).drop_last() =~= a + b.drop_last());
        assert((a + b).last() == b.last());
        assert(teletype(a + b) =~= teletype(a) + teletype(b));
    }
}

/// Every line feed adds a carriage return and nothing else is added: the teletype receives
/// one byte more per line feed, and a string without line feeds unchanged.
pub proof fn lemma_teletype_length(s: Seq<u8>)
    ensures
        teletype(s).len() == s.len() + line_feeds(s),
        line_feeds(s) == 0 ==> teletype(s) == s,
    decreases s.len(),
{
    if s.len() > 0 {
        lemma_teletype_length(s.drop_last());
        if line_feeds(s) == 0 {
            assert(s.drop_last().push(s.last()) =~= s);
            assert(teletype(s) =~= s);
        }
    }
}

/// Every line feed that the teletype receives directly follows a carriage return.
pub proof fn lemma_teletype_returns_before_feeds(s: Seq<u8>)
    ensures
        forall|i: int|
            0 <= i < teletype(s).len() && #[trigger] teletype(s)[i] == LINE_FEED ==> i > 0
                && teletype(s)[i - 1] == CARRIAGE_RETURN,
    decreases s.len(),
{
    if s.len() > 0 {
        lemma_teletype_returns_before_feeds(s.drop_last());
        let p = teletype(s.drop_last());
        assert forall|i: int|
            0 <= i < teletype(s).len() && #[trigger] teletype(s)[i] == LINE_FEED implies i > 0
                && teletype(s)[i - 1] == CARRIAGE_RETURN by {
            if i < p.len() {
                assert(teletype(s)[i] == p[i]);
                assert(teletype(s)[i - 1] == p[i - 1]);
            }
        }
    }
}

} // verus!
