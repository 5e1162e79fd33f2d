//! Deterministic output expansion.
//!
//! Fixed-output primitives are stretched by counter chaining: block `i` is the
//! primitive's digest of `base || le32(i mod 2^32)`, where `base` is the native
//! digest of the input. The two fast non-cryptographic hashers stretch their
//! 64-bit digest by hashing `(seed, counter)` under a tweak that advances by a
//! fixed odd constant per block.

use crate::bytes::{le_bytes, le_bytes_of};
use crate::primitives::{
    blake2b_512, blake2b_absorb, blake2b_digest, blake2b_new, blake2bp_512, blake2bp_absorb,
    blake2bp_digest, blake2bp_new, wyhash_digest, wyhash_finish, wyhash_new, wyhash_write,
    xxh3_64_seeded, xxh3_with_seed,
};
use vstd::prelude::*;

verus! {

/// Tweak step of the XXH3 expander.
pub const XXH3_TWEAK_STEP: u64 = 0x9E37_79B1_85EB_CA87;

/// Tweak step of the WyHash expander.
pub const WYHASH_TWEAK_STEP: u64 = 0xA076_1D64_78BD_642F;

/// The fixed-output primitives that are expanded by counter chaining.
#[derive(Debug, Clone, Copy, PartialEq, Eq, Structural)]
pub enum FixedPrimitive {
    Blake2b,
    Blake2bp,
}

/// The fast 64-bit hashers that are expanded from a seed.
#[derive(Debug, Clone, Copy, PartialEq, Eq, Structural)]
pub enum FastPrimitive {
    Xxh3,
    WyHash,
}

/// The 64 digest bytes of a fixed-output primitive.
pub open spec fn native_digest(p: FixedPrimitive, data: Seq<u8>) -> Seq<u8> {
    let d = match p {
        FixedPrimitive::Blake2b => blake2b_512(data),
        FixedPrimitive::Blake2bp => blake2bp_512(data),
    };
    Seq::new(64, |j: int| d[j])
}

/// Block `i` of the counter chain over `base`.
pub open spec fn counter_block(p: FixedPrimitive, base: Seq<u8>, i: nat) -> Seq<u8> {
    native_digest(p, base + le_bytes(i % 0x1_0000_0000, 4))
}

/// The first `n` blocks of the counter chain over `base`, concatenated.
pub open spec fn counter_chain(p: FixedPrimitive, base: Seq<u8>, n: nat) -> Seq<u8>
    decreases n,
{
    if n == 0 {
        Seq::empty()
    } else {
        counter_chain(p, base, (n - 1) as nat) + counter_block(p, base, (n - 1) as nat)
    }
}

/// Blocks needed for `len` bytes when each block holds `block` bytes.
pub open spec fn blocks_for(len: nat, block: nat) -> nat
    recommends
        block > 0,
{
    ((len + block - 1) as nat / block) as nat
}

/// Output of `out_len` bytes from a native digest `base`: the digest itself,
/// truncated, when it is long enough; else the counter chain, truncated.
pub open spec fn fixed_output(p: FixedPrimitive, base: Seq<u8>, out_len: nat) -> Seq<u8> {
    if out_len <= base.len() {
        base.take(out_len as int)
    } else {
        counter_chain(p, base, blocks_for(out_len, 64)).take(out_len as int)
    }
}

/// The tweak of block `i`: the seed advanced `i` times by `step`, wrapping.
pub open spec fn tweak_at(seed: u64, step: u64, i: nat) -> u64 {
    ((seed as nat + i * step as nat) % 0x1_0000_0000_0000_0000) as u64
}

/// Block `i` of a fast expansion of `seed`.
pub open spec fn fast_block(p: FastPrimitive, seed: u64, i: nat) -> Seq<u8> {
    let counter = le_bytes(i % 0x1_0000_0000_0000_0000, 8);
    let h = match p {
        FastPrimitive::Xxh3 => xxh3_64_seeded(
            le_bytes(seed as nat, 8) + counter,
            tweak_at(seed, XXH3_TWEAK_STEP, i),
        ),
        FastPrimitive::WyHash => wyhash_finish(
            tweak_at(seed, WYHASH_TWEAK_STEP, i),
            seq![counter],
        ),
    };
    le_bytes(h as nat, 8)
}

/// The first `n` blocks of a fast expansion of `seed`, concatenated.
pub open spec fn fast_chain(p: FastPrimitive, seed: u64, n: nat) -> Seq<u8>
    decreases n,
{
    if n == 0 {
        Seq::empty()
    } else {
        fast_chain(p, seed, (n - 1) as nat) + fast_block(p, seed, (n - 1) as nat)
    }
}

/// Output of `out_len` bytes expanded from a 64-bit seed.
pub open spec fn fast_output(p: FastPrimitive, seed: u64, out_len: nat) -> Seq<u8> {
    fast_chain(p, seed, blocks_for(out_len, 8)).take(out_len as int)
}

/// `le_bytes` of `n` bytes has length `n`.
pub proof fn lemma_le_bytes_len(x: nat, n: nat)
    ensures
        le_bytes(x, n).len() == n,
    decreases n,
{
    if n > 0 {
        lemma_le_bytes_len(x / 256, (n - 1) as nat);
    }
}

/// A counter chain of `n` blocks holds `64 * n` bytes.
pub proof fn lemma_counter_chain_len(p: FixedPrimitive, base: Seq<u8>, n: nat)
    ensures
        counter_chain(p, base, n).len() == 64 * n,
    decreases n,
{
    if n > 0 {
        lemma_counter_chain_len(p, base, (n - 1) as nat);
    }
}

/// A fast chain of `n` blocks holds `8 * n` bytes.
pub proof fn lemma_fast_chain_len(p: FastPrimitive, seed: u64, n: nat)
    ensures
        fast_chain(p, seed, n).len() == 8 * n,
    decreases n,
{
    if n > 0 {
        lemma_fast_chain_len(p, seed, (n - 1) as nat);
        lemma_le_bytes_len(0, 8);
        lemma_le_bytes_len(
            (match p {
                FastPrimitive::Xxh3 => xxh3_64_seeded(
                    le_bytes(seed as nat, 8) + le_bytes((n - 1) as nat % 0x1_0000_0000_0000_0000, 8),
                    tweak_at(seed, XXH3_TWEAK_STEP, (n - 1) as nat),
                ),
                FastPrimitive::WyHash => wyhash_finish(
                    tweak_at(seed, WYHASH_TWEAK_STEP, (n - 1) as nat),
                    seq![le_bytes((n - 1) as nat % 0x1_0000_0000_0000_0000, 8)],
                ),
            }) as nat,
            8,
        );
    }
}

/// A shorter counter chain is a prefix of a longer one.
pub proof fn lemma_counter_chain_prefix(p: FixedPrimitive, base: Seq<u8>, m: nat, n: nat)
    requires
        m <= n,
    ensures
        counter_chain(p, base, m).len() <= counter_chain(p, base, n).len(),
        counter_chain(p, base, m) == counter_chain(p, base, n).take(
            counter_chain(p, base, m).len() as int,
        ),
    decreases n,
{
    lemma_counter_chain_len(p, base, m);
    lemma_counter_chain_len(p, base, n);
    if m < n {
        lemma_counter_chain_prefix(p, base, m, (n - 1) as nat);
        lemma_counter_chain_len(p, base, (n - 1) as nat);
        let prev = counter_chain(p, base, (n - 1) as nat);
        let full = counter_chain(p, base, n);
        assert(full.take(prev.len() as int) =~= prev);
        assert(full.take(counter_chain(p, base, m).len() as int) =~= prev.take(
            counter_chain(p, base, m).len() as int,
        ));
    } else {
        assert(counter_chain(p, base, n).take(counter_chain(p, base, n).len() as int)
            =~= counter_chain(p, base, n));
    }
}

/// Prefix monotonicity of counter-chain expansion: for lengths `l1 <= l2`, the
/// shorter output is a prefix of the longer one, when both are served by the
/// native digest (`l2 <= 64`) or both by the chain (`l1 > 64`). A native digest
/// is not a prefix of a chained output, since block 0 is a fresh digest.
pub proof fn lemma_fixed_output_prefix(p: FixedPrimitive, base: Seq<u8>, l1: nat, l2: nat)
    requires
        base.len() == 64,
        l1 <= l2,
        l2 <= 64 || l1 > 64,
    ensures
        fixed_output(p, base, l1) == fixed_output(p, base, l2).take(l1 as int),
        fixed_output(p, base, l1).len() == l1,
{
    if l2 <= 64 {
        assert(base.take(l1 as int) =~= base.take(l2 as int).take(l1 as int));
    } else {
        let k1 = blocks_for(l1, 64);
        let k2 = blocks_for(l2, 64);
        assert(k1 <= k2) by (nonlinear_arith)
            requires
                k1 == (l1 + 63) as nat / 64,
                k2 == (l2 + 63) as nat / 64,
                l1 <= l2,
        ;
        assert(64 * k1 >= l1) by (nonlinear_arith)
            requires
                k1 == (l1 + 63) as nat / 64,
        ;
        lemma_counter_chain_prefix(p, base, k1, k2);
        lemma_counter_chain_len(p, base, k1);
        lemma_counter_chain_len(p, base, k2);
        let c1 = counter_chain(p, base, k1);
        let c2 = counter_chain(p, base, k2);
        assert(c1.take(l1 as int) =~= c2.take(l2 as int).take(l1 as int));
    }
}

/// Prefix monotonicity of seed expansion: for lengths `l1 <= l2`, the shorter
/// output is a prefix of the longer one.
pub proof fn lemma_fast_output_prefix(p: FastPrimitive, seed: u64, l1: nat, l2: nat)
    requires
        l1 <= l2,
    ensures
        fast_output(p, seed, l1) == fast_output(p, seed, l2).take(l1 as int),
        fast_output(p, seed, l1).len() == l1,
{
    let k1 = blocks_for(l1, 8);
    let k2 = blocks_for(l2, 8);
    assert(k1 <= k2) by (nonlinear_arith)
        requires
            k1 == (l1 + 7) as nat / 8,
            k2 == (l2 + 7) as nat / 8,
            l1 <= l2,
    ;
    assert(8 * k1 >= l1) by (nonlinear_arith)
        requires
            k1 == (l1 + 7) as nat / 8,
    ;
    lemma_fast_chain_prefix(p, seed, k1, k2);
    lemma_fast_chain_len(p, seed, k1);
    lemma_fast_chain_len(p, seed, k2);
    let c1 = fast_chain(p, seed, k1);
    let c2 = fast_chain(p, seed, k2);
    assert(c1.take(l1 as int) =~= c2.take(l2 as int).take(l1 as int));
}

/// A shorter fast chain is a prefix of a longer one.
pub proof fn lemma_fast_chain_prefix(p: FastPrimitive, seed: u64, m: nat, n: nat)
    requires
        m <= n,
    ensures
        fast_chain(p, seed, m) == fast_chain(p, seed, n).take(fast_chain(p, seed, m).len() as int),
    decreases n,
{
    lemma_fast_chain_len(p, seed, m);
    lemma_fast_chain_len(p, seed, n);
    if m < n {
        lemma_fast_chain_prefix(p, seed, m, (n - 1) as nat);
        lemma_fast_chain_len(p, seed, (n - 1) as nat);
        let prev = fast_chain(p, seed, (n - 1) as nat);
        let full = fast_chain(p, seed, n);
        assert(full.take(prev.len() as int) =~= prev);
        assert(full.take(fast_chain(p, seed, m).len() as int) =~= prev.take(
            fast_chain(p, seed, m).len() as int,
        ));
    } else {
        assert(fast_chain(p, seed, n).take(fast_chain(p, seed, n).len() as int) =~= fast_chain(
            p,
            seed,
            n,
        ));
    }
}

/// Adding one to a residue and reducing again gives the residue of the
/// successor.
proof fn lemma_mod_step(i: nat, m: nat)
    requires
        m > 1,
    ensures
        ((i % m) + 1) % m == (i + 1) % m,
{
    vstd::arithmetic::div_mod::lemma_add_mod_noop(i as int, 1, m as int);
    vstd::arithmetic::div_mod::lemma_small_mod(1, m);
}

/// Advancing a tweak by one wrapping step gives the tweak of the next block.
proof fn lemma_tweak_step(seed: u64, step: u64, i: nat)
    ensures
        ((tweak_at(seed, step, i) as nat + step as nat) % 0x1_0000_0000_0000_0000) as u64
            == tweak_at(seed, step, i + 1),
{
    let m: int = 0x1_0000_0000_0000_0000;
    let a: int = seed as int + i * step;
    vstd::arithmetic::div_mod::lemma_add_mod_noop(a, step as int, m);
    vstd::arithmetic::div_mod::lemma_small_mod(step as nat, m as nat);
    vstd::arithmetic::div_mod::lemma_mod_twice(a, m);
    vstd::arithmetic::div_mod::lemma_mod_pos_bound(a, m);
    assert((i + 1) * step == i * step + step) by (nonlinear_arith);
    assert(tweak_at(seed, step, i) as int == a % m);
}

/// Appends the bytes of `src` to `out`.
pub fn append_bytes(out: &mut Vec<u8>, src: &[u8])
    ensures
        final(out)@ == old(out)@ + src@,
{
    let mut i: usize = 0;
    while i < src.len()
        invariant
            i <= src@.len(),
            out@ == old(out)@ + src@.take(i as int),
        decreases src@.len() - i,
    {
        out.push(src[i]);
        i = i + 1;
        assert(out@ =~= old(out)@ + src@.take(i as int));
    }
    assert(src@.take(src@.len() as int) =~= src@);
}

/// The native digest of `data` under a fixed-output primitive, computed with a
/// fresh state.
pub fn fixed_digest(p: FixedPrimitive, data: &[u8]) -> (r: Vec<u8>)
    ensures
        r@ == native_digest(p, data@),
        r@.len() == 64,
{
    let r = match p {
        FixedPrimitive::Blake2b => {
            let mut st = blake2b_new();
            blake2b_absorb(&mut st, data);
            assert(data@ =~= Seq::<u8>::empty() + data@);
            blake2b_digest(&st)
        },
        FixedPrimitive::Blake2bp => {
            let mut st = blake2bp_new();
            blake2bp_absorb(&mut st, data);
            assert(data@ =~= Seq::<u8>::empty() + data@);
            blake2bp_digest(&st)
        },
    };
    assert(r@ =~= native_digest(p, data@));
    r
}

/// Expands a 64-byte native digest to `out_len` bytes by counter chaining.
pub fn expand_fixed(p: FixedPrimitive, base: &[u8], out_len: usize) -> (r: Vec<u8>)
    requires
        base@.len() == 64,
    ensures
        r@ == fixed_output(p, base@, out_len as nat),
        r@.len() == out_len,
{
    if out_len <= base.len() {
        let mut r: Vec<u8> = Vec::with_capacity(out_len);
        append_bytes(&mut r, base);
        r.truncate(out_len);
        assert(r@ =~= base@.take(out_len as int));
        return r;
    }
    let mut out: Vec<u8> = Vec::with_capacity(out_len);
    let mut counter: u32 = 0;
    let ghost mut i: nat = 0;
    while out.len() < out_len
        invariant
            out@ == counter_chain(p, base@, i),
            out@.len() == 64 * i,
            counter as nat == i % 0x1_0000_0000,
            64 * i < out_len + 64,
            base@.len() == 64,
        decreases out_len + 64 - 64 * i,
    {
        let mut input: Vec<u8> = Vec::with_capacity(68);
        append_bytes(&mut input, base);
        let ctr = le_bytes_of(counter as u64, 4);
        append_bytes(&mut input, ctr.as_slice());
        let chunk = fixed_digest(p, input.as_slice());
        append_bytes(&mut out, chunk.as_slice());
        proof {
            assert(out@ == counter_chain(p, base@, i + 1));
            assert(out@.len() == 64 * (i + 1));
        }
        counter = counter.wrapping_add(1);
        proof {
            lemma_mod_step(i, 0x1_0000_0000);
            i = i + 1;
        }
    }
    proof {
        assert(i == blocks_for(out_len as nat, 64)) by (nonlinear_arith)
            requires
                64 * i >= out_len,
                64 * i < out_len + 64,
        ;
    }
    out.truncate(out_len);
    out
}

/// Expands a 64-bit seed to `out_len` bytes with one of the fast hashers.
pub fn expand_fast(p: FastPrimitive, seed: u64, out_len: usize) -> (r: Vec<u8>)
    ensures
        r@ == fast_output(p, seed, out_len as nat),
        r@.len() == out_len,
{
    let step: u64 = match p {
        FastPrimitive::Xxh3 => XXH3_TWEAK_STEP,
        FastPrimitive::WyHash => WYHASH_TWEAK_STEP,
    };
    let mut out: Vec<u8> = Vec::with_capacity(out_len);
    let mut counter: u64 = 0;
    let mut tweak: u64 = seed;
    let ghost mut i: nat = 0;
    while out.len() < out_len
        invariant
            out@ == fast_chain(p, seed, i),
            out@.len() == 8 * i,
            counter as nat == i % 0x1_0000_0000_0000_0000,
            tweak == tweak_at(seed, step, i),
            step == match p {
                FastPrimitive::Xxh3 => XXH3_TWEAK_STEP,
                FastPrimitive::WyHash => WYHASH_TWEAK_STEP,
            },
            8 * i < out_len + 8,
        decreases out_len + 8 - 8 * i,
    {
        let ctr = le_bytes_of(counter, 8);
        let h: u64 = match p {
            FastPrimitive::Xxh3 => {
                let mut block_input = le_bytes_of(seed, 8);
                append_bytes(&mut block_input, ctr.as_slice());
                xxh3_with_seed(block_input.as_slice(), tweak)
            },
            FastPrimitive::WyHash => {
                let mut st = wyhash_new(tweak);
                wyhash_write(&mut st, ctr.as_slice());
                assert(Seq::<Seq<u8>>::empty().push(ctr@) =~= seq![ctr@]);
                wyhash_digest(&st)
            },
        };
        let block = le_bytes_of(h, 8);
        append_bytes(&mut out, block.as_slice());
        proof {
            lemma_le_bytes_len(h as nat, 8);
            assert(out@ == fast_chain(p, seed, i + 1));
            assert(out@.len() == 8 * (i + 1));
        }
        counter = counter.wrapping_add(1);
        tweak = tweak.wrapping_add(step);
        proof {
            lemma_mod_step(i, 0x1_0000_0000_0000_0000);
            lemma_tweak_step(seed, step, i);
            i = i + 1;
        }
    }
    proof {
        assert(i == blocks_for(out_len as nat, 8)) by (nonlinear_arith)
            requires
                8 * i >= out_len,
                8 * i < out_len + 8,
        ;
    }
    out.truncate(out_len);
    out
}

} // verus!
