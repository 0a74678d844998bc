//! Little-endian integers as byte strings, as they appear in the register
//! block and in the words that ptrace hands out on x86_64.

use byteorder::{ByteOrder, LittleEndian};
use vstd::prelude::*;

verus! {

/// `256` to the power `n`.
pub open spec fn pow256(n: nat) -> nat
    decreases n,
{
    if n == 0 {
        1
    } else {
        256 * pow256((n - 1) as nat)
    }
}

/// The number that `bytes` spell when the first byte is the least significant.
pub open spec fn le_value(bytes: Seq<u8>) -> nat
    decreases bytes.len(),
{
    if bytes.len() == 0 {
        0
    } else {
        bytes[0] as nat + 256 * le_value(bytes.drop_first())
    }
}

/// The `n` least significant bytes of `v`, least significant first.
pub open spec fn le_bytes(v: nat, n: nat) -> Seq<u8>
    decreases n,
{
    if n == 0 {
        Seq::empty()
    } else {
        seq![(v % 256) as u8] + le_bytes(v / 256, (n - 1) as nat)
    }
}

/// The bounds of the integer widths in use.
pub proof fn lemma_pow256_widths()
    ensures
        pow256(4) == 0x1_0000_0000,
        pow256(8) == 0x1_0000_0000_0000_0000,
        pow256(10) == 0x1_0000_0000_0000_0000_0000,
        pow256(16) == 0x1_0000_0000_0000_0000_0000_0000_0000_0000,
{
    reveal_with_fuel(pow256, 17);
}

pub proof fn lemma_le_bytes_len(v: nat, n: nat)
    ensures
        le_bytes(v, n).len() == n,
    decreases n,
{
    if n > 0 {
        lemma_le_bytes_len(v / 256, (n - 1) as nat);
    }
}

pub proof fn lemma_le_value_bound(bytes: Seq<u8>)
    ensures
        le_value(bytes) < pow256(bytes.len()),
    decreases bytes.len(),
{
    if bytes.len() > 0 {
        lemma_le_value_bound(bytes.drop_first());
        let rest = le_value(bytes.drop_first());
        let p = pow256((bytes.len() - 1) as nat);
        assert(bytes[0] as nat + 256 * rest < 256 * p) by (nonlinear_arith)
            requires
                rest < p,
                bytes[0] < 256,
        ;
    }
}

/// Writing a value that fits and reading it back gives the value.
pub proof fn lemma_le_value_of_bytes(v: nat, n: nat)
    requires
        v < pow256(n),
    ensures
        le_value(le_bytes(v, n)) == v,
    decreases n,
{
    if n > 0 {
        let p = pow256((n - 1) as nat);
        assert(v / 256 < p) by (nonlinear_arith)
            requires
                v < 256 * p,
        ;
        lemma_le_value_of_bytes(v / 256, (n - 1) as nat);
        let s = le_bytes(v, n);
        assert(s.drop_first() =~= le_bytes(v / 256, (n - 1) as nat));
    }
}

/// Reading a byte string and writing the value back gives the byte string.
pub proof fn lemma_le_bytes_of_value(bytes: Seq<u8>)
    ensures
        le_bytes(le_value(bytes), bytes.len()) == bytes,
    decreases bytes.len(),
{
    if bytes.len() > 0 {
        let rest = bytes.drop_first();
        lemma_le_bytes_of_value(rest);
        let v = le_value(bytes);
        assert(v % 256 == bytes[0] as nat && v / 256 == le_value(rest)) by (nonlinear_arith)
            requires
                v == bytes[0] as nat + 256 * le_value(rest),
                bytes[0] < 256,
        ;
        lemma_le_bytes_len(v, bytes.len());
        assert(le_bytes(v, bytes.len()) =~= bytes);
    }
}

/// Relies on byteorder's `LittleEndian::read_uint128`: the `nbytes` bytes
/// from `start` on, least significant first. It panics unless
/// `1 <= nbytes <= 16` and the slice holds that many bytes.
#[verifier::external_body]
pub(crate) fn read_le(input: &[u8], start: usize, nbytes: usize) -> (r: u128)
    requires
        1 <= nbytes <= 16,
        start + nbytes <= input@.len(),
    ensures
        r as nat == le_value(input@.subrange(start as int, start + nbytes)),
{
    LittleEndian::read_uint128(&input[start..], nbytes)
}

/// Relies on byteorder's `LittleEndian::write_uint128`: `n` written as
/// `nbytes` bytes, least significant first. It panics unless
/// `1 <= nbytes <= 16` and `n` fits in `nbytes` bytes.
#[verifier::external_body]
pub(crate) fn push_le(out: &mut Vec<u8>, n: u128, nbytes: usize)
    requires
        1 <= nbytes <= 16,
        n < pow256(nbytes as nat),
    ensures
        final(out)@ == old(out)@ + le_bytes(n as nat, nbytes as nat),
{
    let mut buf = [0u8; 16];
    LittleEndian::write_uint128(&mut buf, n, nbytes);
    out.extend_from_slice(&buf[..nbytes]);
}

} // verus!
