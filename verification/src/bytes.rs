//! Big-endian byte serialization of unsigned values.

use vstd::prelude::*;

verus! {

/// 256 raised to the power `n`: the number of values `n` bytes can hold.
pub open spec fn pow256(n: nat) -> nat
    decreases n,
{
    if n == 0 {
        1
    } else {
        256 * pow256((n - 1) as nat)
    }
}

/// The value of a big-endian byte sequence (first byte most significant).
pub open spec fn be_val(s: Seq<u8>) -> nat
    decreases s.len(),
{
    if s.len() == 0 {
        0
    } else {
        be_val(s.drop_last()) * 256 + s.last() as nat
    }
}

/// The `n` low-order bytes of `v`, most significant byte first.
pub open spec fn be_bytes(v: nat, n: nat) -> Seq<u8>
    decreases n,
{
    if n == 0 {
        Seq::empty()
    } else {
        be_bytes(v / 256, (n - 1) as nat).push((v % 256) as u8)
    }
}

pub proof fn lemma_be_bytes_len(v: nat, n: nat)
    ensures
        be_bytes(v, n).len() == n,
    decreases n,
{
    if n > 0 {
        lemma_be_bytes_len(v / 256, (n - 1) as nat);
    }
}

pub proof fn lemma_pow256_pos(n: nat)
    ensures
        pow256(n) > 0,
    decreases n,
{
    if n > 0 {
        lemma_pow256_pos((n - 1) as nat);
    }
}

/// A big-endian byte sequence of length `n` holds a value below `pow256(n)`.
pub proof fn lemma_be_val_bound(s: Seq<u8>)
    ensures
        be_val(s) < pow256(s.len()),
    decreases s.len(),
{
    if s.len() > 0 {
        lemma_be_val_bound(s.drop_last());
    }
}

/// Serializing and then reading back yields the value modulo `pow256(n)`.
pub proof fn lemma_be_val_of_be_bytes(v: nat, n: nat)
    ensures
        be_val(be_bytes(v, n)) == v % pow256(n),
    decreases n,
{
    if n == 0 {
        assert(v % 1 == 0) by (nonlinear_arith);
    } else {
        let m = (n - 1) as nat;
        lemma_be_bytes_len(v / 256, m);
        assert(be_bytes(v, n).drop_last() =~= be_bytes(v / 256, m));
        lemma_be_val_of_be_bytes(v / 256, m);
        assert(pow256(m) > 0) by {
            lemma_pow256_pos(m);
        }
        vstd::arithmetic::div_mod::lemma_mod_breakdown(v as int, 256, pow256(m) as int);
    }
}

/// `pow256(8)` is one past the largest 64-bit value.
pub proof fn lemma_pow256_8()
    ensures
        pow256(8) == 0x1_0000_0000_0000_0000,
{
    reveal_with_fuel(pow256, 9);
}

/// Reading back the 8-byte serialization of a 64-bit value yields the value.
pub proof fn lemma_be_roundtrip_u64(v: u64)
    ensures
        be_val(be_bytes(v as nat, 8)) == v,
{
    lemma_pow256_8();
    lemma_be_val_of_be_bytes(v as nat, 8);
}

/// The big-endian bytes of a 64-bit value, most significant first.
///
/// (The assembler's serialization primitive: it reverses the
/// least-significant-first order in which the bytes of a value are
/// naturally peeled off.)
pub fn reverse_bytes(value: u64) -> (r: Vec<u8>)
    ensures
        r@ == be_bytes(value as nat, 8),
        r.len() == 8,
{
    proof {
        lemma_be_bytes_len(value as nat, 8);
    }
    let r = be_bytes_exec(value, 8);
    r
}

/// Builds the `n` low-order bytes of `v`, most significant first.
fn be_bytes_exec(v: u64, n: u8) -> (r: Vec<u8>)
    ensures
        r@ == be_bytes(v as nat, n as nat),
    decreases n,
{
    if n == 0 {
        Vec::new()
    } else {
        let mut r = be_bytes_exec(v / 256, n - 1);
        r.push((v % 256) as u8);
        r
    }
}

} // verus!
