//! Little-endian integers as bytes.

use vstd::prelude::*;

verus! {

/// The `n` low bytes of `x`, least significant first.
pub open spec fn le_bytes(x: nat, n: nat) -> Seq<u8>
    decreases n,
{
    if n == 0 {
        Seq::empty()
    } else {
        seq![(x % 256) as u8] + le_bytes(x / 256, (n - 1) as nat)
    }
}

/// The number whose little-endian bytes are `s`.
pub open spec fn le_value(s: Seq<u8>) -> nat
    decreases s.len(),
{
    if s.len() == 0 {
        0
    } else {
        s[0] as nat + 256 * le_value(s.drop_first())
    }
}

/// 256 to the power `n`.
pub open spec fn span(n: nat) -> nat
    decreases n,
{
    if n == 0 {
        1
    } else {
        256 * span((n - 1) as nat)
    }
}

/// `le_bytes` gives exactly `n` bytes.
pub proof fn lemma_le_bytes_len(x: nat, n: nat)
    ensures
        le_bytes(x, n).len() == n,
    decreases n,
{
    if n > 0 {
        lemma_le_bytes_len(x / 256, (n - 1) as nat);
    }
}

/// Reading back the `n` little-endian bytes of a number that fits in them
/// gives the number.
pub proof fn lemma_le_roundtrip(x: nat, n: nat)
    requires
        x < span(n),
    ensures
        le_value(le_bytes(x, n)) == x,
    decreases n,
{
    if n > 0 {
        let rest = le_bytes(x / 256, (n - 1) as nat);
        assert(le_bytes(x, n).drop_first() =~= rest);
        lemma_le_roundtrip(x / 256, (n - 1) as nat);
    }
}

/// A number read from `s` fits in as many bytes, and writing it out in as
/// many bytes gives `s` again.
pub proof fn lemma_le_value_roundtrip(s: Seq<u8>)
    ensures
        le_value(s) < span(s.len()),
        le_bytes(le_value(s), s.len()) == s,
    decreases s.len(),
{
    if s.len() > 0 {
        lemma_le_value_roundtrip(s.drop_first());
        assert(le_bytes(le_value(s), s.len()) =~= s);
    }
}

/// The widths used here, as numbers.
pub proof fn lemma_span_values()
    ensures
        span(1) == 0x100,
        span(2) == 0x1_0000,
        span(4) == 0x1_0000_0000,
        span(16) == 0x1_0000_0000_0000_0000_0000_0000_0000_0000,
{
    reveal_with_fuel(span, 17);
}

/// Appends the `n` low bytes of `x` to `out`, least significant first.
pub fn push_le(out: &mut Vec<u8>, x: u128, n: usize)
    ensures
        final(out)@ == old(out)@ + le_bytes(x as nat, n as nat),
{
    let mut rest: u128 = x;
    let mut k: usize = 0;
    assert(old(out)@ + le_bytes(x as nat, n as nat) =~= old(out)@ + (Seq::<u8>::empty() + le_bytes(
        x as nat,
        n as nat,
    )));
    let ghost done: Seq<u8> = Seq::empty();
    while k < n
        invariant
            k <= n,
            out@ == old(out)@ + done,
            done + le_bytes(rest as nat, (n - k) as nat) == le_bytes(x as nat, n as nat),
        decreases n - k,
    {
        let b = (rest % 256) as u8;
        proof {
            let tail = le_bytes((rest / 256) as nat, (n - k - 1) as nat);
            assert(done + le_bytes(rest as nat, (n - k) as nat) =~= done.push(b) + tail);
            assert(old(out)@ + done.push(b) =~= (old(out)@ + done).push(b));
            done = done.push(b);
        }
        out.push(b);
        rest = rest / 256;
        k += 1;
    }
    assert(done + Seq::<u8>::empty() =~= done);
}

/// The number held little-endian in the `n` bytes of `bytes` from `at` on.
pub(crate) fn read_le(bytes: &[u8], at: usize, n: usize) -> (x: u128)
    requires
        n <= 16,
        at + n <= bytes@.len(),
    ensures
        x == le_value(bytes@.subrange(at as int, at + n)),
{
    let len = bytes.len();
    let mut x: u128 = 0;
    let mut k: usize = n;
    while k > 0
        invariant
            k <= n <= 16,
            at + n <= len == bytes@.len(),
            x == le_value(bytes@.subrange(at + k, at + n)),
        decreases k,
    {
        k -= 1;
        proof {
            let s = bytes@.subrange(at + k, at + n);
            assert(s.drop_first() =~= bytes@.subrange(at + k + 1, at + n));
            lemma_le_value_roundtrip(s.drop_first());
            lemma_span_le(s.drop_first().len(), 15);
            lemma_span_values();
            assert(span(16) == 256 * span(15));
        }
        x = bytes[at + k] as u128 + 256 * x;
    }
    x
}

/// `span` grows with its argument.
pub proof fn lemma_span_le(a: nat, b: nat)
    requires
        a <= b,
    ensures
        span(a) <= span(b),
    decreases b,
{
    if a < b {
        lemma_span_le(a, (b - 1) as nat);
    }
}

} // verus!
