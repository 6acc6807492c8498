//! Numbers and texts as bytes.
use vstd::prelude::*;
use vstd::utf8::{decode_utf8, valid_utf8};

verus! {

/// `256` to the power `n`.
pub open spec fn power256(n: nat) -> nat
    decreases n,
{
    if n == 0 {
        1
    } else {
        256 * power256((n - 1) as nat)
    }
}

/// The number that bytes spell, the most significant byte first.
pub open spec fn big_endian(s: Seq<u8>) -> nat
    decreases s.len(),
{
    if s.len() == 0 {
        0
    } else {
        big_endian(s.drop_last()) * 256 + s.last() as nat
    }
}

/// The number that bytes spell, the least significant byte first.
pub open spec fn little_endian(s: Seq<u8>) -> nat
    decreases s.len(),
{
    if s.len() == 0 {
        0
    } else {
        s[0] as nat + 256 * little_endian(s.skip(1))
    }
}

/// The `width` lowest bytes of a number, the least significant byte first.
pub open spec fn little_bytes(n: nat, width: nat) -> Seq<u8>
    decreases width,
{
    if width == 0 {
        Seq::empty()
    } else {
        seq![(n % 256) as u8] + little_bytes(n / 256, (width - 1) as nat)
    }
}

/// The number that bytes spell in two's complement, the most significant byte first.
pub open spec fn big_endian_signed(s: Seq<u8>) -> int {
    if s.len() > 0 && s[0] >= 128 {
        big_endian(s) - power256(s.len())
    } else {
        big_endian(s) as int
    }
}

pub proof fn big_endian_is_bounded(s: Seq<u8>)
    ensures
        big_endian(s) < power256(s.len()),
    decreases s.len(),
{
    if s.len() > 0 {
        big_endian_is_bounded(s.drop_last());
    }
}

pub proof fn big_endian_top(s: Seq<u8>)
    requires
        s.len() > 0,
    ensures
        s[0] >= 128 <==> 2 * big_endian(s) >= power256(s.len()),
    decreases s.len(),
{
    let init = s.drop_last();
    if s.len() == 1 {
        assert(big_endian(init) == 0);
        assert(power256(1) == 256) by {
            reveal_with_fuel(power256, 2);
        }
    } else {
        big_endian_top(init);
        assert(init[0] == s[0]);
        assert(power256(s.len()) == 256 * power256(init.len()));
        let k = power256((init.len() - 1) as nat);
        assert(power256(init.len()) == 256 * k);
        assert(2 * big_endian(s) == 512 * big_endian(init) + 2 * s.last());
    }
}

pub proof fn powers()
    ensures
        power256(1) == 0x100,
        power256(2) == 0x1_0000,
        power256(4) == 0x1_0000_0000,
        power256(8) == 0x1_0000_0000_0000_0000,
{
    reveal_with_fuel(power256, 9);
}

/// Longer runs of bytes are bounded by longer powers.
pub proof fn powers_grow(n: nat, m: nat)
    requires
        n <= m,
    ensures
        power256(n) <= power256(m),
    decreases m - n,
{
    if n < m {
        powers_grow(n, (m - 1) as nat);
    }
}

/// The number that at most eight bytes spell, the most significant byte first.
pub fn read_big_endian(s: &[u8]) -> (r: u64)
    requires
        s@.len() <= 8,
    ensures
        r == big_endian(s@),
{
    let mut r: u64 = 0;
    let mut i: usize = 0;
    assert(s@.take(0) =~= Seq::empty());
    while i < s.len()
        invariant
            i <= s@.len() <= 8,
            r == big_endian(s@.take(i as int)),
        decreases s@.len() - i,
    {
        let ghost next = s@.take(i + 1);
        proof {
            assert(next.drop_last() =~= s@.take(i as int));
            big_endian_is_bounded(next);
            powers_grow(next.len(), 8);
            powers();
        }
        r = r * 256 + s[i] as u64;
        i = i + 1;
    }
    assert(s@.take(i as int) =~= s@);
    r
}

/// The number that at most eight bytes spell in two's complement, the most significant byte
/// first.
pub fn read_big_endian_signed(s: &[u8]) -> (r: i64)
    requires
        s@.len() == 2 || s@.len() == 4 || s@.len() == 8,
    ensures
        r == big_endian_signed(s@),
{
    let n: u64 = read_big_endian(s);
    proof {
        powers();
        big_endian_top(s@);
        big_endian_is_bounded(s@);
    }
    if s[0] < 128 {
        return n as i64;
    }
    let size: i128 = if s.len() == 2 {
        0x1_0000
    } else if s.len() == 4 {
        0x1_0000_0000
    } else {
        0x1_0000_0000_0000_0000
    };
    (n as i128 - size) as i64
}

/// The `width` lowest bytes of `n`, the least significant byte first.
pub fn write_little_endian(n: u64, width: usize) -> (r: Vec<u8>)
    ensures
        r@ == little_bytes(n as nat, width as nat),
{
    let mut out: Vec<u8> = Vec::new();
    let mut rest: u64 = n;
    let mut left: usize = width;
    while left > 0
        invariant
            left <= width,
            out@ + little_bytes(rest as nat, left as nat) == little_bytes(n as nat, width as nat),
        decreases left,
    {
        let b: u8 = (rest % 256) as u8;
        let ghost tail = little_bytes((rest / 256) as nat, (left - 1) as nat);
        assert(out@ + (seq![b] + tail) =~= out@.push(b) + tail);
        out.push(b);
        rest = rest / 256;
        left = left - 1;
    }
    assert(out@ + Seq::<u8>::empty() =~= out@);
    out
}

/// The number that the bytes `from..to` of `s` spell, the least significant byte first.
pub fn read_little_endian(s: &Vec<u8>, from: usize, to: usize) -> (r: u64)
    requires
        from <= to <= s@.len(),
        to - from <= 8,
    ensures
        r == little_endian(s@.subrange(from as int, to as int)),
{
    let mut r: u64 = 0;
    let mut i: usize = to;
    while i > from
        invariant
            from <= i <= to <= s@.len(),
            to - from <= 8,
            r == little_endian(s@.subrange(i as int, to as int)),
        decreases i - from,
    {
        let ghost next = s@.subrange(i - 1, to as int);
        proof {
            assert(next.skip(1) =~= s@.subrange(i as int, to as int));
            little_endian_is_bounded(next);
            powers_grow(next.len(), 8);
            powers();
        }
        i = i - 1;
        r = s[i] as u64 + 256 * r;
    }
    r
}

pub proof fn little_endian_is_bounded(s: Seq<u8>)
    ensures
        little_endian(s) < power256(s.len()),
    decreases s.len(),
{
    if s.len() > 0 {
        little_endian_is_bounded(s.skip(1));
    }
}

/// Reading back the bytes of a number gives the number.
pub proof fn bytes_lead_back(n: nat, width: nat)
    requires
        n < power256(width),
    ensures
        little_bytes(n, width).len() == width,
        little_endian(little_bytes(n, width)) == n,
    decreases width,
{
    if width > 0 {
        bytes_lead_back(n / 256, (width - 1) as nat);
        let s = little_bytes(n, width);
        assert(s.skip(1) =~= little_bytes(n / 256, (width - 1) as nat));
    }
}

/// `String::from_utf8`: the text that bytes encode, if they are valid UTF-8.
#[verifier::external_body]
pub(crate) fn decode_text(bytes: Vec<u8>) -> (r: Option<String>)
    ensures
        match r {
            Some(s) => valid_utf8(bytes@) && s@ == decode_utf8(bytes@),
            None => !valid_utf8(bytes@),
        },
{
    String::from_utf8(bytes).ok()
}

/// A part of a run of bytes.
pub fn copy_bytes(s: &Vec<u8>, from: usize, to: usize) -> (r: Vec<u8>)
    requires
        from <= to <= s@.len(),
    ensures
        r@ == s@.subrange(from as int, to as int),
{
    let mut out: Vec<u8> = Vec::new();
    let mut i: usize = from;
    while i < to
        invariant
            from <= i <= to <= s@.len(),
            out@ == s@.subrange(from as int, i as int),
        decreases to - i,
    {
        out.push(s[i]);
        i = i + 1;
    }
    out
}

} // verus!
