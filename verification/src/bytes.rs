//! Big-endian encoding of unsigned integers.

use vstd::prelude::*;

verus! {

/// 256 to the power `n`: the number of values that `n` bytes can hold.
pub open spec fn span(n: nat) -> nat
    decreases n,
{
    if n == 0 {
        1
    } else {
        256 * span((n - 1) as nat)
    }
}

/// The `n` low-order bytes of `x`, most significant first.
pub open spec fn be_bytes(x: nat, n: nat) -> Seq<u8>
    decreases n,
{
    if n == 0 {
        Seq::empty()
    } else {
        be_bytes(x / 256, (n - 1) as nat).push((x % 256) as u8)
    }
}

/// The number that a sequence of bytes encodes, most significant first.
pub open spec fn be_value(s: Seq<u8>) -> nat
    decreases s.len(),
{
    if s.len() == 0 {
        0
    } else {
        be_value(s.drop_last()) * 256 + s.last() as nat
    }
}

/// `s` with the two bytes at `at` replaced by `x`, most significant first.
pub open spec fn put16(s: Seq<u8>, at: int, x: u16) -> Seq<u8> {
    s.update(at, (x / 256) as u8).update(at + 1, (x % 256) as u8)
}

pub proof fn lemma_be_bytes_len(x: nat, n: nat)
    ensures
        be_bytes(x, n).len() == n,
    decreases n,
{
    if n > 0 {
        lemma_be_bytes_len(x / 256, (n - 1) as nat);
    }
}

/// The bytes of a 16-bit number.
pub proof fn lemma_be_bytes_16(x: u16)
    ensures
        be_bytes(x as nat, 2) =~= seq![(x / 256) as u8, (x % 256) as u8],
{
    reveal_with_fuel(be_bytes, 3);
}

/// What `n` bytes encode is below `256^n`.
pub proof fn lemma_be_value_bound(s: Seq<u8>)
    ensures
        be_value(s) < span(s.len()),
    decreases s.len(),
{
    if s.len() > 0 {
        lemma_be_value_bound(s.drop_last());
    }
}

/// Reading back `n` written bytes gives the number, when it fits in `n` bytes.
pub proof fn lemma_value_of_bytes(x: nat, n: nat)
    requires
        x < span(n),
    ensures
        be_value(be_bytes(x, n)) == x,
    decreases n,
{
    if n > 0 {
        lemma_be_bytes_len(x / 256, (n - 1) as nat);
        assert(x / 256 < span((n - 1) as nat)) by (nonlinear_arith)
            requires
                x < span(n),
                span(n) == 256 * span((n - 1) as nat),
        ;
        lemma_value_of_bytes(x / 256, (n - 1) as nat);
        assert(be_bytes(x, n).drop_last() =~= be_bytes(x / 256, (n - 1) as nat));
    }
}

/// The sizes of the integers that packets carry.
pub proof fn lemma_spans()
    ensures
        span(2) == 0x1_0000,
        span(4) == 0x1_0000_0000,
        span(16) == 0x1_0000_0000_0000_0000_0000_0000_0000_0000,
{
    assert(span(0) == 1);
    assert(span(1) == 0x100);
    assert(span(2) == 0x1_0000);
    assert(span(3) == 0x100_0000);
    assert(span(4) == 0x1_0000_0000);
    assert(span(5) == 0x100_0000_0000);
    assert(span(6) == 0x1_0000_0000_0000);
    assert(span(7) == 0x100_0000_0000_0000);
    assert(span(8) == 0x1_0000_0000_0000_0000);
    assert(span(9) == 0x100_0000_0000_0000_0000);
    assert(span(10) == 0x1_0000_0000_0000_0000_0000);
    assert(span(11) == 0x100_0000_0000_0000_0000_0000);
    assert(span(12) == 0x1_0000_0000_0000_0000_0000_0000);
    assert(span(13) == 0x100_0000_0000_0000_0000_0000_0000);
    assert(span(14) == 0x1_0000_0000_0000_0000_0000_0000_0000);
    assert(span(15) == 0x100_0000_0000_0000_0000_0000_0000_0000);
}

proof fn lemma_span_monotone(m: nat, n: nat)
    requires
        m <= n,
    ensures
        span(m) <= span(n),
    decreases n,
{
    if m < n {
        lemma_span_monotone(m, (n - 1) as nat);
    }
}

/// Appends the `n` low-order bytes of `x`, most significant first.
pub fn push_be(buf: &mut Vec<u8>, x: u128, n: usize)
    ensures
        final(buf)@ == old(buf)@ + be_bytes(x as nat, n as nat),
    decreases n,
{
    if n == 0 {
        assert(buf@ =~= old(buf)@ + be_bytes(x as nat, n as nat));
    } else {
        push_be(buf, x / 256, n - 1);
        buf.push((x % 256) as u8);
        assert(buf@ =~= old(buf)@ + be_bytes(x as nat, n as nat));
    }
}

/// The number in the `n` bytes that start at `at`.
pub fn read_be(buf: &[u8], at: usize, n: usize) -> (r: u128)
    requires
        at + n <= buf.len(),
        n <= 16,
    ensures
        r as nat == be_value(buf@.subrange(at as int, at + n)),
        (r as nat) < span(n as nat),
{
    let mut value: u128 = 0;
    let mut i: usize = 0;
    while i < n
        invariant
            at + n <= buf.len(),
            i <= n <= 16,
            value as nat == be_value(buf@.subrange(at as int, at + i)),
        decreases n - i,
    {
        proof {
            let next = buf@.subrange(at as int, at + i + 1);
            assert(next.drop_last() =~= buf@.subrange(at as int, at + i));
            lemma_be_value_bound(next);
            lemma_span_monotone((i + 1) as nat, 16);
            lemma_spans();
        }
        value = value * 256 + buf[at + i] as u128;
        i = i + 1;
    }
    proof {
        lemma_be_value_bound(buf@.subrange(at as int, at + n));
    }
    value
}

/// The 16-bit number at `at`.
pub fn read_u16(buf: &[u8], at: usize) -> (r: u16)
    requires
        at + 2 <= buf.len(),
    ensures
        r as nat == be_value(buf@.subrange(at as int, at + 2)),
{
    proof {
        lemma_spans();
    }
    read_be(buf, at, 2) as u16
}

/// The 32-bit number at `at`.
pub fn read_u32(buf: &[u8], at: usize) -> (r: u32)
    requires
        at + 4 <= buf.len(),
    ensures
        r as nat == be_value(buf@.subrange(at as int, at + 4)),
{
    proof {
        lemma_spans();
    }
    read_be(buf, at, 4) as u32
}

/// Replaces the two bytes at `at` by `x`.
pub fn set_u16(buf: &mut Vec<u8>, at: usize, x: u16)
    requires
        at + 1 < old(buf).len(),
    ensures
        final(buf)@ == put16(old(buf)@, at as int, x),
{
    buf.set(at, (x / 256) as u8);
    buf.set(at + 1, (x % 256) as u8);
}

/// `len + extra` in the 16 bits of a length field.
pub fn length_field(len: usize, extra: u16) -> (r: u16)
    ensures
        r as int == (len + extra) % 0x1_0000,
{
    (((len % 0x1_0000) + extra as usize) % 0x1_0000) as u16
}

/// The sum of two lengths and `extra` in the 16 bits of a length field.
pub fn length_field_of_two(a: usize, b: usize, extra: u16) -> (r: u16)
    ensures
        r as int == (a + b + extra) % 0x1_0000,
{
    let x: u64 = (a % 0x1_0000) as u64;
    let y: u64 = (b % 0x1_0000) as u64;
    ((x + y + extra as u64) % 0x1_0000) as u16
}

/// Appends all of `data`.
pub fn push_all(buf: &mut Vec<u8>, data: &[u8])
    ensures
        final(buf)@ == old(buf)@ + data@,
{
    buf.extend_from_slice(data);
    assert(buf@ =~= old(buf)@ + data@);
}

} // verus!
