//! Little-endian integers on the wire.
use vstd::prelude::*;

verus! {

/// The `width` low bytes of `n`, least significant first.
pub open spec fn le_bytes(n: nat, width: nat) -> Seq<u8>
    decreases width,
{
    if width == 0 {
        Seq::empty()
    } else {
        seq![(n % 256) as u8] + le_bytes(n / 256, (width - 1) as nat)
    }
}

/// The number that bytes stand for, least significant first.
pub open spec fn le_value(s: Seq<u8>) -> nat
    decreases s.len(),
{
    if s.len() == 0 {
        0
    } else {
        s[0] as nat + 256 * le_value(s.skip(1))
    }
}

/// Whether `n` fits in `width` bytes.
pub open spec fn le_fits(n: nat, width: nat) -> bool
    decreases width,
{
    if width == 0 {
        n == 0
    } else {
        le_fits(n / 256, (width - 1) as nat)
    }
}

pub proof fn le_bytes_len(n: nat, width: nat)
    ensures
        le_bytes(n, width).len() == width,
    decreases width,
{
    if width > 0 {
        le_bytes_len(n / 256, (width - 1) as nat);
    }
}

/// Reading the bytes of a number that fits gives the number.
pub proof fn le_round_trips(n: nat, width: nat)
    requires
        le_fits(n, width),
    ensures
        le_value(le_bytes(n, width)) == n,
        le_bytes(n, width).len() == width,
    decreases width,
{
    if width > 0 {
        le_round_trips(n / 256, (width - 1) as nat);
        assert(le_bytes(n, width).skip(1) == le_bytes(n / 256, (width - 1) as nat));
    }
}

/// Writing the number that bytes stand for gives the bytes.
pub proof fn le_reads_round_trip(s: Seq<u8>)
    ensures
        le_bytes(le_value(s), s.len()) == s,
        le_fits(le_value(s), s.len()),
    decreases s.len(),
{
    if s.len() > 0 {
        let t = s.skip(1);
        le_reads_round_trip(t);
        assert(le_value(s) / 256 == le_value(t));
        assert(le_value(s) % 256 == s[0]);
        assert(seq![s[0]] + t == s);
    }
}

pub proof fn u16_fits(n: u16)
    ensures
        le_fits(n as nat, 2),
{
    reveal_with_fuel(le_fits, 3);
}

pub proof fn u32_fits(n: u32)
    ensures
        le_fits(n as nat, 4),
{
    reveal_with_fuel(le_fits, 5);
}

pub proof fn u64_fits(n: u64)
    ensures
        le_fits(n as nat, 8),
{
    reveal_with_fuel(le_fits, 9);
}

proof fn byte_by_byte(s: Seq<u8>)
    ensures
        s.len() == 2 ==> le_value(s) == s[0] + 256 * s[1],
        s.len() == 4 ==> le_value(s) == s[0] + 256 * (s[1] + 256 * (s[2] + 256 * s[3])),
{
    reveal_with_fuel(le_value, 5);
}

/// Reads two bytes.
pub fn u16_at(b: &[u8], i: usize) -> (n: u16)
    requires
        i + 2 <= b@.len(),
    ensures
        n == le_value(b@.subrange(i as int, i + 2)),
{
    proof {
        byte_by_byte(b@.subrange(i as int, i + 2));
    }
    b[i] as u16 + 256 * (b[i + 1] as u16)
}

/// Reads four bytes.
pub fn u32_at(b: &[u8], i: usize) -> (n: u32)
    requires
        i + 4 <= b@.len(),
    ensures
        n == le_value(b@.subrange(i as int, i + 4)),
{
    proof {
        byte_by_byte(b@.subrange(i as int, i + 4));
    }
    b[i] as u32 + 256 * (b[i + 1] as u32 + 256 * (b[i + 2] as u32 + 256 * (b[i + 3] as u32)))
}

/// Reads eight bytes.
pub fn u64_at(b: &[u8], i: usize) -> (n: u64)
    requires
        i + 8 <= b@.len(),
    ensures
        n == le_value(b@.subrange(i as int, i + 8)),
{
    let len: usize = b.len();
    assert(i + 8 <= len);
    let low: u64 = u32_at(b, i) as u64;
    let high: u64 = u32_at(b, i + 4) as u64;
    proof {
        let s = b@.subrange(i as int, i + 8);
        let lo = b@.subrange(i as int, i + 4);
        let hi = b@.subrange(i + 4, i + 8);
        assert(lo == s.subrange(0, 4));
        assert(hi == s.skip(4));
        byte_by_byte(lo);
        reveal_with_fuel(le_value, 5);
        assert(s.skip(1).skip(1).skip(1).skip(1) == hi);
    }
    low + 0x1_0000_0000 * high
}

/// Appends the `width` low bytes of `n`.
pub fn push_le(out: &mut Vec<u8>, n: u64, width: usize)
    ensures
        final(out)@ == old(out)@ + le_bytes(n as nat, width as nat),
{
    let mut left: usize = width;
    let mut m: u64 = n;
    assert(out@ + le_bytes(m as nat, left as nat) == old(out)@ + le_bytes(n as nat, width as nat));
    while left > 0
        invariant
            out@ + le_bytes(m as nat, left as nat) == old(out)@ + le_bytes(n as nat, width as nat),
        decreases left,
    {
        let ghost before = out@;
        out.push((m % 256) as u8);
        proof {
            let tail = le_bytes(m as nat / 256, (left - 1) as nat);
            assert(before + (seq![(m % 256) as u8] + tail) == out@ + tail);
        }
        m = m / 256;
        left = left - 1;
    }
    assert(out@ + Seq::<u8>::empty() == out@);
}

/// Bytes in little-endian order have their weights from the left.
pub proof fn four_bytes_have_their_weight(s: Seq<u8>)
    requires
        s.len() == 4,
    ensures
        le_value(s) == s[0] + 256 * s[1] + 65536 * s[2] + 16777216 * s[3],
{
    let t = s.skip(1);
    let u = t.skip(1);
    let v = u.skip(1);
    assert(v.skip(1) =~= Seq::empty());
    assert(le_value(v.skip(1)) == 0);
    assert(t[0] == s[1] && u[0] == s[2] && v[0] == s[3]);
    assert(le_value(v) == s[3] as nat);
    assert(le_value(u) == s[2] as nat + 256 * le_value(v));
    assert(le_value(t) == s[1] as nat + 256 * le_value(u));
}

/// A number that is read is made of the bytes at its place, the first of which
/// counts least.
pub proof fn numbers_are_read_from_their_place(b: &[u8], i: usize, n: u16, m: u32, l: u64)
    requires
        i + 8 <= b@.len(),
        call_ensures(u16_at, (b, i), n),
        call_ensures(u32_at, (b, i), m),
        call_ensures(u64_at, (b, i), l),
    ensures
        n == b@[i as int] + 256 * b@[i + 1],
        m == b@[i as int] + 256 * b@[i + 1] + 65536 * b@[i + 2] + 16777216 * b@[i + 3],
        l == m + 4294967296 * (b@[i + 4] + 256 * b@[i + 5] + 65536 * b@[i + 6] + 16777216 * b@[i
            + 7]),
{
    let k = i as int;
    let two = b@.subrange(k, k + 2);
    assert(two.skip(1).skip(1) =~= Seq::empty());
    assert(le_value(two.skip(1).skip(1)) == 0);
    assert(le_value(two.skip(1)) == two.skip(1)[0] as nat);
    assert(le_value(two) == two[0] as nat + 256 * le_value(two.skip(1)));
    let four = b@.subrange(k, k + 4);
    four_bytes_have_their_weight(four);
    let eight = b@.subrange(k, k + 8);
    let e1 = eight.skip(1);
    let e2 = e1.skip(1);
    let e3 = e2.skip(1);
    let e4 = e3.skip(1);
    four_bytes_have_their_weight(e4);
    assert(le_value(eight) == eight[0] as nat + 256 * le_value(e1));
    assert(le_value(e1) == e1[0] as nat + 256 * le_value(e2));
    assert(le_value(e2) == e2[0] as nat + 256 * le_value(e3));
    assert(le_value(e3) == e3[0] as nat + 256 * le_value(e4));
}

/// A number that is written goes behind what was there, and reads back.
pub proof fn written_numbers_read_back()
    ensures
        forall|out: &mut Vec<u8>, n: u64, width: usize| #[trigger]
            call_ensures(push_le, (out, n, width), ()) ==> {
                &&& final(out)@.len() == out@.len() + width
                &&& final(out)@.take(out@.len() as int) == out@
                &&& le_fits(n as nat, width as nat) ==> le_value(
                    final(out)@.skip(out@.len() as int),
                ) == n
            },
{
    assert forall|out: &mut Vec<u8>, n: u64, width: usize| #[trigger]
        call_ensures(push_le, (out, n, width), ()) implies {
        &&& final(out)@.len() == out@.len() + width
        &&& final(out)@.take(out@.len() as int) == out@
        &&& le_fits(n as nat, width as nat) ==> le_value(final(out)@.skip(out@.len() as int)) == n
    } by {
        le_bytes_len(n as nat, width as nat);
        assert(final(out)@.take(out@.len() as int) =~= out@);
        assert(final(out)@.skip(out@.len() as int) =~= le_bytes(n as nat, width as nat));
        if le_fits(n as nat, width as nat) {
            le_round_trips(n as nat, width as nat);
        }
    }
}

} // verus!
