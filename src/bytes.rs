//! Fixed-width integers in either byte order.
use vstd::prelude::*;

verus! {

/// The byte order of a binary body.
#[derive(Clone, Copy, Debug, PartialEq, Eq, Structural)]
pub enum ByteOrder {
    Little,
    Big,
}

/// The value of `s` read most significant byte first.
pub open spec fn be_value(s: Seq<u8>) -> nat
    decreases s.len(),
{
    if s.len() == 0 {
        0
    } else {
        be_value(s.drop_last()) * 256 + s.last() as nat
    }
}

/// The value of `s` read least significant byte first.
pub open spec fn le_value(s: Seq<u8>) -> nat
    decreases s.len(),
{
    if s.len() == 0 {
        0
    } else {
        le_value(s.drop_first()) * 256 + s[0] as nat
    }
}

pub open spec fn unsigned_value(s: Seq<u8>, order: ByteOrder) -> nat {
    match order {
        ByteOrder::Little => le_value(s),
        ByteOrder::Big => be_value(s),
    }
}

/// The unsigned value of the `width` bytes at `pos`.
pub open spec fn unsigned_at(data: Seq<u8>, pos: int, width: int, order: ByteOrder) -> nat {
    unsigned_value(data.subrange(pos, pos + width), order)
}

pub open spec fn pow256(n: nat) -> nat
    decreases n,
{
    if n == 0 {
        1
    } else {
        256 * pow256((n - 1) as nat)
    }
}

proof fn lemma_pow256_mono(a: nat, b: nat)
    requires
        a <= b,
    ensures
        pow256(a) <= pow256(b),
    decreases b,
{
    if a < b {
        lemma_pow256_mono(a, (b - 1) as nat);
    }
}

pub proof fn lemma_pow256_8()
    ensures
        pow256(1) == 0x100,
        pow256(2) == 0x1_0000,
        pow256(4) == 0x1_0000_0000,
        pow256(8) == 0x1_0000_0000_0000_0000,
{
    assert(pow256(0) == 1);
    assert(pow256(1) == 0x100);
    assert(pow256(2) == 0x1_0000);
    assert(pow256(3) == 0x100_0000);
    assert(pow256(4) == 0x1_0000_0000);
    assert(pow256(5) == 0x100_0000_0000);
    assert(pow256(6) == 0x1_0000_0000_0000);
    assert(pow256(7) == 0x100_0000_0000_0000);
}

/// Reads the unsigned integer of `width` bytes at `pos`.
pub fn read_unsigned(data: &[u8], pos: usize, width: usize, order: ByteOrder) -> (r: u64)
    requires
        pos + width <= data@.len(),
        width <= 8,
    ensures
        r as nat == unsigned_at(data@, pos as int, width as int, order),
        (r as nat) < pow256(width as nat),
{
    proof {
        lemma_pow256_8();
    }
    let mut v: u64 = 0;
    match order {
        ByteOrder::Big => {
            let mut i: usize = 0;
            assert(data@.subrange(pos as int, pos as int) =~= seq![]);
            while i < width
                invariant
                    pos + width <= data.len(),
                    width <= 8,
                    i <= width,
                    pow256(8) == 0x1_0000_0000_0000_0000,
                    v as nat == be_value(data@.subrange(pos as int, pos + i)),
                    (v as nat) < pow256(i as nat),
                decreases width - i,
            {
                proof {
                    lemma_pow256_mono((i + 1) as nat, 8);
                    assert(pow256((i + 1) as nat) == 256 * pow256(i as nat));
                    assert(v * 256 + 255 < 0x1_0000_0000_0000_0000);
                    assert(data@.subrange(pos as int, pos + i + 1).drop_last() =~= data@.subrange(
                        pos as int,
                        pos + i,
                    ));
                }
                let lo = data[pos + i] as u64;
                assert(lo < 256);
                v = v * 256 + lo;
                i = i + 1;
            }
        },
        ByteOrder::Little => {
            let mut i: usize = width;
            assert(data@.subrange(pos + width, pos + width) =~= seq![]);
            while i > 0
                invariant
                    pos + width <= data.len(),
                    width <= 8,
                    i <= width,
                    pow256(8) == 0x1_0000_0000_0000_0000,
                    v as nat == le_value(data@.subrange(pos + i, pos + width)),
                    (v as nat) < pow256((width - i) as nat),
                decreases i,
            {
                proof {
                    lemma_pow256_mono((width - i + 1) as nat, 8);
                    assert(pow256((width - i + 1) as nat) == 256 * pow256((width - i) as nat));
                    assert(v * 256 + 255 < 0x1_0000_0000_0000_0000);
                    assert(data@.subrange(pos + i - 1, pos + width).drop_first() =~= data@.subrange(
                        pos + i,
                        pos + width,
                    ));
                }
                let lo = data[pos + i - 1] as u64;
                assert(lo < 256);
                v = v * 256 + lo;
                i = i - 1;
            }
        },
    }
    v
}

/// The two's-complement value of an unsigned `raw` of `width` bytes.
pub open spec fn signed_of(raw: nat, width: nat) -> int {
    if raw >= pow256(width) / 2 {
        raw - pow256(width)
    } else {
        raw as int
    }
}

} // verus!
