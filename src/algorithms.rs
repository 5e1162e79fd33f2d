//! The algorithm registry and the streaming hashers.
//!
//! Every hasher takes input in chunks and produces any requested number of
//! output bytes: extendable-output functions squeeze them directly,
//! fixed-output functions are expanded by counter chaining, and the two fast
//! 64-bit hashers are expanded from their digest as a seed.

use crate::bytes::{encode_hex, hex_of};
use crate::expand::{
    expand_fast, expand_fixed, fast_output, fixed_output, native_digest, FastPrimitive,
    FixedPrimitive,
};
use crate::primitives::{
    blake2b_absorb, blake2b_digest, blake2b_input, blake2b_new, blake2bp_absorb, blake2bp_digest, blake2bp_input, blake2bp_new, blake3_absorb, blake3_input, blake3_new, blake3_output, blake3_xof, k12_absorb, k12_input, k12_new, k12_output, k12_xof, parallelhash_absorb, parallelhash_input, parallelhash_new, parallelhash_output, parallelhash_xof, shake256_absorb, shake256_input, shake256_new, shake256_output, shake256_xof, turboshake_absorb, turboshake_input, turboshake_new, turboshake_output, turboshake_xof, wyhash_digest, wyhash_finish, wyhash_new, wyhash_seed, wyhash_write, wyhash_writes, xxh3_64_of, xxh3_absorb, xxh3_digest, xxh3_input, xxh3_new, Shake256State,
};
use crate::text::{lower_of, str_eq, to_lower};
use vstd::prelude::*;

verus! {

/// Immutable description of an algorithm, available before hashing anything.
#[derive(Debug, Clone)]
pub struct AlgorithmInfo {
    pub name: String,
    pub is_cryptographic: bool,
    pub supports_xof: bool,
    /// Default output length, in bytes.
    pub output_len_default: usize,
}

/// The registered algorithms.
#[derive(Debug, Clone, Copy, PartialEq, Eq, Structural)]
pub enum Algorithm {
    Blake2b,
    Blake2bp,
    Blake3,
    Shake256,
    K12,
    TurboShake256,
    ParallelHash256,
    Xxh3_1024,
    Wyhash1024,
}

/// Canonical name of an algorithm.
pub open spec fn algorithm_name(a: Algorithm) -> Seq<char> {
    match a {
        Algorithm::Blake2b => "blake2b"@,
        Algorithm::Blake2bp => "blake2bp"@,
        Algorithm::Blake3 => "blake3"@,
        Algorithm::Shake256 => "shake256"@,
        Algorithm::K12 => "k12"@,
        Algorithm::TurboShake256 => "turboshake256"@,
        Algorithm::ParallelHash256 => "parallelhash256"@,
        Algorithm::Xxh3_1024 => "xxh3-1024"@,
        Algorithm::Wyhash1024 => "wyhash-1024"@,
    }
}

/// Whether an algorithm is cryptographic.
pub open spec fn algorithm_is_cryptographic(a: Algorithm) -> bool {
    !(a == Algorithm::Xxh3_1024 || a == Algorithm::Wyhash1024)
}

/// Whether an algorithm serves any output length natively (the two fast
/// hashers count as such: their seed expansion is their output function).
pub open spec fn algorithm_supports_xof(a: Algorithm) -> bool {
    !(a == Algorithm::Blake2b || a == Algorithm::Blake2bp)
}

/// Default output length of an algorithm, in bytes.
pub open spec fn algorithm_default_len(a: Algorithm) -> nat {
    match a {
        Algorithm::Blake2b | Algorithm::Blake2bp => 64,
        Algorithm::Xxh3_1024 | Algorithm::Wyhash1024 => 128,
        _ => 32,
    }
}

/// Whether `i` describes algorithm `a`.
pub open spec fn info_describes(i: AlgorithmInfo, a: Algorithm) -> bool {
    &&& i.name@ == algorithm_name(a)
    &&& i.is_cryptographic == algorithm_is_cryptographic(a)
    &&& i.supports_xof == algorithm_supports_xof(a)
    &&& i.output_len_default == algorithm_default_len(a)
}

/// Output of `out_len` bytes of algorithm `a` (other than WyHash) over the
/// input bytes `data`.
pub open spec fn algorithm_output(a: Algorithm, data: Seq<u8>, out_len: nat) -> Seq<u8> {
    match a {
        Algorithm::Blake2b => fixed_output(
            FixedPrimitive::Blake2b,
            native_digest(FixedPrimitive::Blake2b, data),
            out_len,
        ),
        Algorithm::Blake2bp => fixed_output(
            FixedPrimitive::Blake2bp,
            native_digest(FixedPrimitive::Blake2bp, data),
            out_len,
        ),
        Algorithm::Blake3 => blake3_xof(data, out_len),
        Algorithm::Shake256 => shake256_xof(data, out_len),
        Algorithm::K12 => k12_xof(data, out_len),
        Algorithm::TurboShake256 => turboshake_xof(data, out_len),
        Algorithm::ParallelHash256 => parallelhash_xof(data, out_len),
        Algorithm::Xxh3_1024 => fast_output(FastPrimitive::Xxh3, xxh3_64_of(data), out_len),
        Algorithm::Wyhash1024 => wyhash_output(seq![data], out_len),
    }
}

/// Output of `out_len` bytes of the WyHash expander over a sequence of writes.
pub open spec fn wyhash_output(writes: Seq<Seq<u8>>, out_len: nat) -> Seq<u8> {
    fast_output(FastPrimitive::WyHash, wyhash_finish(0, writes), out_len)
}

/// Info of an algorithm, built fresh.
fn make_info(a: Algorithm) -> (r: AlgorithmInfo)
    ensures
        info_describes(r, a),
{
    let name = a.name();
    AlgorithmInfo {
        name: name.to_owned(),
        is_cryptographic: match a {
            Algorithm::Xxh3_1024 | Algorithm::Wyhash1024 => false,
            _ => true,
        },
        supports_xof: match a {
            Algorithm::Blake2b | Algorithm::Blake2bp => false,
            _ => true,
        },
        output_len_default: match a {
            Algorithm::Blake2b | Algorithm::Blake2bp => 64,
            Algorithm::Xxh3_1024 | Algorithm::Wyhash1024 => 128,
            _ => 32,
        },
    }
}

/// Streaming blake2b hasher.
pub struct Blake2bHasher {
    state: blake2b_simd::State,
}

impl Blake2bHasher {
    /// The bytes absorbed so far.
    pub closed spec fn absorbed(&self) -> Seq<u8> {
        blake2b_input(self.state)
    }

    /// A hasher that has absorbed nothing.
    pub fn new() -> (r: Self)
        ensures
            r.absorbed() == Seq::<u8>::empty(),
    {
        Blake2bHasher { state: blake2b_new() }
    }

    /// Absorbs more input.
    pub fn update(&mut self, data: &[u8])
        ensures
            final(self).absorbed() == old(self).absorbed() + data@,
    {
        blake2b_absorb(&mut self.state, data);
    }

    /// `out_len` bytes of output over what was absorbed; the hasher is left
    /// as it is.
    pub fn finalize(&self, out_len: usize) -> (r: Vec<u8>)
        ensures
            r@ == algorithm_output(Algorithm::Blake2b, self.absorbed(), out_len as nat),
            r@.len() == out_len,
    {
        let base = blake2b_digest(&self.state);
        proof {
            assert(base@ =~= native_digest(FixedPrimitive::Blake2b, self.absorbed()));
        }
        expand_fixed(FixedPrimitive::Blake2b, base.as_slice(), out_len)
    }

    /// `finalize` in lower-case hex.
    pub fn finalize_hex(&self, out_len: usize) -> (r: String)
        ensures
            r@ == hex_of(algorithm_output(Algorithm::Blake2b, self.absorbed(), out_len as nat)),
    {
        let bytes = self.finalize(out_len);
        encode_hex(bytes.as_slice())
    }

    /// Canonical name of the algorithm.
    pub fn name(&self) -> (r: &'static str)
        ensures
            r@ == algorithm_name(Algorithm::Blake2b),
    {
        Algorithm::Blake2b.name()
    }

    /// Description of the algorithm.
    pub fn info(&self) -> (r: AlgorithmInfo)
        ensures
            info_describes(r, Algorithm::Blake2b),
    {
        make_info(Algorithm::Blake2b)
    }
}

/// Streaming blake2bp hasher.
pub struct Blake2bpHasher {
    state: blake2b_simd::blake2bp::State,
}

impl Blake2bpHasher {
    /// The bytes absorbed so far.
    pub closed spec fn absorbed(&self) -> Seq<u8> {
        blake2bp_input(self.state)
    }

    /// A hasher that has absorbed nothing.
    pub fn new() -> (r: Self)
        ensures
            r.absorbed() == Seq::<u8>::empty(),
    {
        Blake2bpHasher { state: blake2bp_new() }
    }

    /// Absorbs more input.
    pub fn update(&mut self, data: &[u8])
        ensures
            final(self).absorbed() == old(self).absorbed() + data@,
    {
        blake2bp_absorb(&mut self.state, data);
    }

    /// `out_len` bytes of output over what was absorbed; the hasher is left
    /// as it is.
    pub fn finalize(&self, out_len: usize) -> (r: Vec<u8>)
        ensures
            r@ == algorithm_output(Algorithm::Blake2bp, self.absorbed(), out_len as nat),
            r@.len() == out_len,
    {
        let base = blake2bp_digest(&self.state);
        proof {
            assert(base@ =~= native_digest(FixedPrimitive::Blake2bp, self.absorbed()));
        }
        expand_fixed(FixedPrimitive::Blake2bp, base.as_slice(), out_len)
    }

    /// `finalize` in lower-case hex.
    pub fn finalize_hex(&self, out_len: usize) -> (r: String)
        ensures
            r@ == hex_of(algorithm_output(Algorithm::Blake2bp, self.absorbed(), out_len as nat)),
    {
        let bytes = self.finalize(out_len);
        encode_hex(bytes.as_slice())
    }

    /// Canonical name of the algorithm.
    pub fn name(&self) -> (r: &'static str)
        ensures
            r@ == algorithm_name(Algorithm::Blake2bp),
    {
        Algorithm::Blake2bp.name()
    }

    /// Description of the algorithm.
    pub fn info(&self) -> (r: AlgorithmInfo)
        ensures
            info_describes(r, Algorithm::Blake2bp),
    {
        make_info(Algorithm::Blake2bp)
    }
}

/// Streaming blake3 hasher.
pub struct Blake3Hasher {
    state: blake3::Hasher,
}

impl Blake3Hasher {
    /// The bytes absorbed so far.
    pub closed spec fn absorbed(&self) -> Seq<u8> {
        blake3_input(self.state)
    }

    /// A hasher that has absorbed nothing.
    pub fn new() -> (r: Self)
        ensures
            r.absorbed() == Seq::<u8>::empty(),
    {
        Blake3Hasher { state: blake3_new() }
    }

    /// Absorbs more input.
    pub fn update(&mut self, data: &[u8])
        ensures
            final(self).absorbed() == old(self).absorbed() + data@,
    {
        blake3_absorb(&mut self.state, data);
    }

    /// `out_len` bytes of output over what was absorbed; the hasher is left
    /// as it is.
    pub fn finalize(&self, out_len: usize) -> (r: Vec<u8>)
        ensures
            r@ == algorithm_output(Algorithm::Blake3, self.absorbed(), out_len as nat),
            r@.len() == out_len,
    {
        blake3_output(&self.state, out_len)
    }

    /// `finalize` in lower-case hex.
    pub fn finalize_hex(&self, out_len: usize) -> (r: String)
        ensures
            r@ == hex_of(algorithm_output(Algorithm::Blake3, self.absorbed(), out_len as nat)),
    {
        let bytes = self.finalize(out_len);
        encode_hex(bytes.as_slice())
    }

    /// Canonical name of the algorithm.
    pub fn name(&self) -> (r: &'static str)
        ensures
            r@ == algorithm_name(Algorithm::Blake3),
    {
        Algorithm::Blake3.name()
    }

    /// Description of the algorithm.
    pub fn info(&self) -> (r: AlgorithmInfo)
        ensures
            info_describes(r, Algorithm::Blake3),
    {
        make_info(Algorithm::Blake3)
    }
}

/// Streaming shake256 hasher.
pub struct Shake256Hasher {
    state: Shake256State,
}

impl Shake256Hasher {
    /// The bytes absorbed so far.
    pub closed spec fn absorbed(&self) -> Seq<u8> {
        shake256_input(self.state)
    }

    /// A hasher that has absorbed nothing.
    pub fn new() -> (r: Self)
        ensures
            r.absorbed() == Seq::<u8>::empty(),
    {
        Shake256Hasher { state: shake256_new() }
    }

    /// Absorbs more input.
    pub fn update(&mut self, data: &[u8])
        ensures
            final(self).absorbed() == old(self).absorbed() + data@,
    {
        shake256_absorb(&mut self.state, data);
    }

    /// `out_len` bytes of output over what was absorbed; the hasher is left
    /// as it is.
    pub fn finalize(&self, out_len: usize) -> (r: Vec<u8>)
        ensures
            r@ == algorithm_output(Algorithm::Shake256, self.absorbed(), out_len as nat),
            r@.len() == out_len,
    {
        shake256_output(&self.state, out_len)
    }

    /// `finalize` in lower-case hex.
    pub fn finalize_hex(&self, out_len: usize) -> (r: String)
        ensures
            r@ == hex_of(algorithm_output(Algorithm::Shake256, self.absorbed(), out_len as nat)),
    {
        let bytes = self.finalize(out_len);
        encode_hex(bytes.as_slice())
    }

    /// Canonical name of the algorithm.
    pub fn name(&self) -> (r: &'static str)
        ensures
            r@ == algorithm_name(Algorithm::Shake256),
    {
        Algorithm::Shake256.name()
    }

    /// Description of the algorithm.
    pub fn info(&self) -> (r: AlgorithmInfo)
        ensures
            info_describes(r, Algorithm::Shake256),
    {
        make_info(Algorithm::Shake256)
    }
}

/// Streaming k12 hasher.
pub struct K12Hasher {
    state: tiny_keccak::KangarooTwelve<&'static [u8]>,
}

impl K12Hasher {
    /// The bytes absorbed so far.
    pub closed spec fn absorbed(&self) -> Seq<u8> {
        k12_input(self.state)
    }

    /// A hasher that has absorbed nothing.
    pub fn new() -> (r: Self)
        ensures
            r.absorbed() == Seq::<u8>::empty(),
    {
        K12Hasher { state: k12_new() }
    }

    /// Absorbs more input.
    pub fn update(&mut self, data: &[u8])
        ensures
            final(self).absorbed() == old(self).absorbed() + data@,
    {
        k12_absorb(&mut self.state, data);
    }

    /// `out_len` bytes of output over what was absorbed; the hasher is left
    /// as it is.
    pub fn finalize(&self, out_len: usize) -> (r: Vec<u8>)
        ensures
            r@ == algorithm_output(Algorithm::K12, self.absorbed(), out_len as nat),
            r@.len() == out_len,
    {
        k12_output(&self.state, out_len)
    }

    /// `finalize` in lower-case hex.
    pub fn finalize_hex(&self, out_len: usize) -> (r: String)
        ensures
            r@ == hex_of(algorithm_output(Algorithm::K12, self.absorbed(), out_len as nat)),
    {
        let bytes = self.finalize(out_len);
        encode_hex(bytes.as_slice())
    }

    /// Canonical name of the algorithm.
    pub fn name(&self) -> (r: &'static str)
        ensures
            r@ == algorithm_name(Algorithm::K12),
    {
        Algorithm::K12.name()
    }

    /// Description of the algorithm.
    pub fn info(&self) -> (r: AlgorithmInfo)
        ensures
            info_describes(r, Algorithm::K12),
    {
        make_info(Algorithm::K12)
    }
}

/// Streaming turboshake256 hasher.
pub struct TurboShake256Hasher {
    state: turboshake::TurboShake256,
}

impl TurboShake256Hasher {
    /// The bytes absorbed so far.
    pub closed spec fn absorbed(&self) -> Seq<u8> {
        turboshake_input(self.state)
    }

    /// A hasher that has absorbed nothing.
    pub fn new() -> (r: Self)
        ensures
            r.absorbed() == Seq::<u8>::empty(),
    {
        TurboShake256Hasher { state: turboshake_new() }
    }

    /// Absorbs more input.
    pub fn update(&mut self, data: &[u8])
        ensures
            final(self).absorbed() == old(self).absorbed() + data@,
    {
        turboshake_absorb(&mut self.state, data);
    }

    /// `out_len` bytes of output over what was absorbed; the hasher is left
    /// as it is.
    pub fn finalize(&self, out_len: usize) -> (r: Vec<u8>)
        ensures
            r@ == algorithm_output(Algorithm::TurboShake256, self.absorbed(), out_len as nat),
            r@.len() == out_len,
    {
        turboshake_output(&self.state, out_len)
    }

    /// `finalize` in lower-case hex.
    pub fn finalize_hex(&self, out_len: usize) -> (r: String)
        ensures
            r@ == hex_of(algorithm_output(Algorithm::TurboShake256, self.absorbed(), out_len as nat)),
    {
        let bytes = self.finalize(out_len);
        encode_hex(bytes.as_slice())
    }

    /// Canonical name of the algorithm.
    pub fn name(&self) -> (r: &'static str)
        ensures
            r@ == algorithm_name(Algorithm::TurboShake256),
    {
        Algorithm::TurboShake256.name()
    }

    /// Description of the algorithm.
    pub fn info(&self) -> (r: AlgorithmInfo)
        ensures
            info_describes(r, Algorithm::TurboShake256),
    {
        make_info(Algorithm::TurboShake256)
    }
}

/// Streaming parallelhash256 hasher.
pub struct ParallelHash256Hasher {
    state: tiny_keccak::ParallelHash,
}

impl ParallelHash256Hasher {
    /// The bytes absorbed so far.
    pub closed spec fn absorbed(&self) -> Seq<u8> {
        parallelhash_input(self.state)
    }

    /// A hasher that has absorbed nothing.
    pub fn new() -> (r: Self)
        ensures
            r.absorbed() == Seq::<u8>::empty(),
    {
        ParallelHash256Hasher { state: parallelhash_new() }
    }

    /// Absorbs more input.
    pub fn update(&mut self, data: &[u8])
        ensures
            final(self).absorbed() == old(self).absorbed() + data@,
    {
        parallelhash_absorb(&mut self.state, data);
    }

    /// `out_len` bytes of output over what was absorbed; the hasher is left
    /// as it is.
    pub fn finalize(&self, out_len: usize) -> (r: Vec<u8>)
        ensures
            r@ == algorithm_output(Algorithm::ParallelHash256, self.absorbed(), out_len as nat),
            r@.len() == out_len,
    {
        parallelhash_output(&self.state, out_len)
    }

    /// `finalize` in lower-case hex.
    pub fn finalize_hex(&self, out_len: usize) -> (r: String)
        ensures
            r@ == hex_of(algorithm_output(Algorithm::ParallelHash256, self.absorbed(), out_len as nat)),
    {
        let bytes = self.finalize(out_len);
        encode_hex(bytes.as_slice())
    }

    /// Canonical name of the algorithm.
    pub fn name(&self) -> (r: &'static str)
        ensures
            r@ == algorithm_name(Algorithm::ParallelHash256),
    {
        Algorithm::ParallelHash256.name()
    }

    /// Description of the algorithm.
    pub fn info(&self) -> (r: AlgorithmInfo)
        ensures
            info_describes(r, Algorithm::ParallelHash256),
    {
        make_info(Algorithm::ParallelHash256)
    }
}

/// Streaming xxh3-1024 hasher.
pub struct Xxh3Expander {
    state: xxhash_rust::xxh3::Xxh3,
}

impl Xxh3Expander {
    /// The bytes absorbed so far.
    pub closed spec fn absorbed(&self) -> Seq<u8> {
        xxh3_input(self.state)
    }

    /// A hasher that has absorbed nothing.
    pub fn new() -> (r: Self)
        ensures
            r.absorbed() == Seq::<u8>::empty(),
    {
        Xxh3Expander { state: xxh3_new() }
    }

    /// Absorbs more input.
    pub fn update(&mut self, data: &[u8])
        ensures
            final(self).absorbed() == old(self).absorbed() + data@,
    {
        xxh3_absorb(&mut self.state, data);
    }

    /// `out_len` bytes of output over what was absorbed; the hasher is left
    /// as it is.
    pub fn finalize(&self, out_len: usize) -> (r: Vec<u8>)
        ensures
            r@ == algorithm_output(Algorithm::Xxh3_1024, self.absorbed(), out_len as nat),
            r@.len() == out_len,
    {
        let seed = xxh3_digest(&self.state);
        expand_fast(FastPrimitive::Xxh3, seed, out_len)
    }

    /// `finalize` in lower-case hex.
    pub fn finalize_hex(&self, out_len: usize) -> (r: String)
        ensures
            r@ == hex_of(algorithm_output(Algorithm::Xxh3_1024, self.absorbed(), out_len as nat)),
    {
        let bytes = self.finalize(out_len);
        encode_hex(bytes.as_slice())
    }

    /// Canonical name of the algorithm.
    pub fn name(&self) -> (r: &'static str)
        ensures
            r@ == algorithm_name(Algorithm::Xxh3_1024),
    {
        Algorithm::Xxh3_1024.name()
    }

    /// Description of the algorithm.
    pub fn info(&self) -> (r: AlgorithmInfo)
        ensures
            info_describes(r, Algorithm::Xxh3_1024),
    {
        make_info(Algorithm::Xxh3_1024)
    }
}

/// Streaming WyHash hasher, expanded from its 64-bit digest. Each update is
/// one write, and the digest depends on how the input was split.
pub struct WyHashExpander {
    state: wyhash::WyHash,
}

impl WyHashExpander {
    /// The writes taken so far, in order.
    pub closed spec fn writes(&self) -> Seq<Seq<u8>> {
        wyhash_writes(self.state)
    }

    /// The seed the hasher was made with.
    pub closed spec fn seed(&self) -> u64 {
        wyhash_seed(self.state)
    }

    /// A hasher with seed 0 and no writes.
    pub fn new() -> (r: Self)
        ensures
            r.writes() == Seq::<Seq<u8>>::empty(),
            r.seed() == 0,
    {
        WyHashExpander { state: wyhash_new(0) }
    }

    /// Takes one more write.
    pub fn update(&mut self, data: &[u8])
        ensures
            final(self).writes() == old(self).writes().push(data@),
            final(self).seed() == old(self).seed(),
    {
        wyhash_write(&mut self.state, data);
    }

    /// `out_len` bytes expanded from the digest of the writes; the hasher is
    /// left as it is.
    pub fn finalize(&self, out_len: usize) -> (r: Vec<u8>)
        ensures
            r@ == fast_output(
                FastPrimitive::WyHash,
                wyhash_finish(self.seed(), self.writes()),
                out_len as nat,
            ),
            r@.len() == out_len,
    {
        let seed = wyhash_digest(&self.state);
        WyHashExpander::expand_from_seed(seed, out_len)
    }

    /// `out_len` bytes expanded from a 64-bit seed.
    pub fn expand_from_seed(seed: u64, out_len: usize) -> (r: Vec<u8>)
        ensures
            r@ == fast_output(FastPrimitive::WyHash, seed, out_len as nat),
            r@.len() == out_len,
    {
        expand_fast(FastPrimitive::WyHash, seed, out_len)
    }

    /// `finalize` in lower-case hex.
    pub fn finalize_hex(&self, out_len: usize) -> (r: String)
        ensures
            r@ == hex_of(
                fast_output(
                    FastPrimitive::WyHash,
                    wyhash_finish(self.seed(), self.writes()),
                    out_len as nat,
                ),
            ),
    {
        let bytes = self.finalize(out_len);
        encode_hex(bytes.as_slice())
    }

    /// Canonical name of the algorithm.
    pub fn name(&self) -> (r: &'static str)
        ensures
            r@ == algorithm_name(Algorithm::Wyhash1024),
    {
        Algorithm::Wyhash1024.name()
    }

    /// Description of the algorithm.
    pub fn info(&self) -> (r: AlgorithmInfo)
        ensures
            info_describes(r, Algorithm::Wyhash1024),
    {
        make_info(Algorithm::Wyhash1024)
    }
}

impl Xxh3Expander {
    /// `out_len` bytes expanded from a 64-bit seed.
    pub fn expand_from_seed(seed: u64, out_len: usize) -> (r: Vec<u8>)
        ensures
            r@ == fast_output(FastPrimitive::Xxh3, seed, out_len as nat),
            r@.len() == out_len,
    {
        expand_fast(FastPrimitive::Xxh3, seed, out_len)
    }
}

/// A streaming hasher of any registered algorithm.
pub enum HasherImpl {
    Blake2b(Blake2bHasher),
    Blake2bp(Blake2bpHasher),
    Blake3(Blake3Hasher),
    Shake256(Shake256Hasher),
    K12(K12Hasher),
    TurboShake256(TurboShake256Hasher),
    ParallelHash256(ParallelHash256Hasher),
    Xxh3_1024(Xxh3Expander),
    Wyhash1024(WyHashExpander),
}

impl HasherImpl {
    /// The algorithm of this hasher.
    pub open spec fn algorithm(&self) -> Algorithm {
        match self {
            HasherImpl::Blake2b(_) => Algorithm::Blake2b,
            HasherImpl::Blake2bp(_) => Algorithm::Blake2bp,
            HasherImpl::Blake3(_) => Algorithm::Blake3,
            HasherImpl::Shake256(_) => Algorithm::Shake256,
            HasherImpl::K12(_) => Algorithm::K12,
            HasherImpl::TurboShake256(_) => Algorithm::TurboShake256,
            HasherImpl::ParallelHash256(_) => Algorithm::ParallelHash256,
            HasherImpl::Xxh3_1024(_) => Algorithm::Xxh3_1024,
            HasherImpl::Wyhash1024(_) => Algorithm::Wyhash1024,
        }
    }

    /// The input bytes taken so far, in order.
    pub open spec fn absorbed(&self) -> Seq<u8> {
        match self {
            HasherImpl::Blake2b(h) => h.absorbed(),
            HasherImpl::Blake2bp(h) => h.absorbed(),
            HasherImpl::Blake3(h) => h.absorbed(),
            HasherImpl::Shake256(h) => h.absorbed(),
            HasherImpl::K12(h) => h.absorbed(),
            HasherImpl::TurboShake256(h) => h.absorbed(),
            HasherImpl::ParallelHash256(h) => h.absorbed(),
            HasherImpl::Xxh3_1024(h) => h.absorbed(),
            HasherImpl::Wyhash1024(h) => h.writes().flatten(),
        }
    }

    /// `out_len` bytes of output in the hasher's present state.
    pub open spec fn output(&self, out_len: nat) -> Seq<u8> {
        match self {
            HasherImpl::Blake2b(h) => algorithm_output(Algorithm::Blake2b, h.absorbed(), out_len),
            HasherImpl::Blake2bp(h) => algorithm_output(Algorithm::Blake2bp, h.absorbed(), out_len),
            HasherImpl::Blake3(h) => algorithm_output(Algorithm::Blake3, h.absorbed(), out_len),
            HasherImpl::Shake256(h) => algorithm_output(Algorithm::Shake256, h.absorbed(), out_len),
            HasherImpl::K12(h) => algorithm_output(Algorithm::K12, h.absorbed(), out_len),
            HasherImpl::TurboShake256(h) => algorithm_output(Algorithm::TurboShake256, h.absorbed(), out_len),
            HasherImpl::ParallelHash256(h) => algorithm_output(Algorithm::ParallelHash256, h.absorbed(), out_len),
            HasherImpl::Xxh3_1024(h) => algorithm_output(Algorithm::Xxh3_1024, h.absorbed(), out_len),
            HasherImpl::Wyhash1024(h) => fast_output(
                FastPrimitive::WyHash,
                wyhash_finish(h.seed(), h.writes()),
                out_len,
            ),
        }
    }

    /// Whether the hasher is as `create` left it and then fed whole chunks:
    /// for WyHash, the writes were made from seed 0.
    pub open spec fn wf(&self) -> bool {
        match self {
            HasherImpl::Wyhash1024(h) => h.seed() == 0,
            _ => true,
        }
    }

    /// A hasher of algorithm `alg` that has taken no input.
    pub fn new(alg: Algorithm) -> (r: HasherImpl)
        ensures
            r.algorithm() == alg,
            r.absorbed() == Seq::<u8>::empty(),
            r.wf(),
            match r {
                HasherImpl::Wyhash1024(h) => h.writes() == Seq::<Seq<u8>>::empty(),
                _ => true,
            },
    {
        match alg {
            Algorithm::Blake2b => HasherImpl::Blake2b(Blake2bHasher::new()),
            Algorithm::Blake2bp => HasherImpl::Blake2bp(Blake2bpHasher::new()),
            Algorithm::Blake3 => HasherImpl::Blake3(Blake3Hasher::new()),
            Algorithm::Shake256 => HasherImpl::Shake256(Shake256Hasher::new()),
            Algorithm::K12 => HasherImpl::K12(K12Hasher::new()),
            Algorithm::TurboShake256 => HasherImpl::TurboShake256(TurboShake256Hasher::new()),
            Algorithm::ParallelHash256 => HasherImpl::ParallelHash256(ParallelHash256Hasher::new()),
            Algorithm::Xxh3_1024 => HasherImpl::Xxh3_1024(Xxh3Expander::new()),
            Algorithm::Wyhash1024 => HasherImpl::Wyhash1024(WyHashExpander::new()),
        }
    }

    /// Takes more input.
    pub fn update(&mut self, data: &[u8])
        ensures
            final(self).algorithm() == old(self).algorithm(),
            final(self).absorbed() == old(self).absorbed() + data@,
            final(self).wf() == old(self).wf(),
            match (*old(self), *final(self)) {
                (HasherImpl::Wyhash1024(a), HasherImpl::Wyhash1024(b)) => b.writes() == a.writes().push(
                    data@,
                ),
                _ => true,
            },
    {
        match self {
            HasherImpl::Blake2b(h) => h.update(data),
            HasherImpl::Blake2bp(h) => h.update(data),
            HasherImpl::Blake3(h) => h.update(data),
            HasherImpl::Shake256(h) => h.update(data),
            HasherImpl::K12(h) => h.update(data),
            HasherImpl::TurboShake256(h) => h.update(data),
            HasherImpl::ParallelHash256(h) => h.update(data),
            HasherImpl::Xxh3_1024(h) => h.update(data),
            HasherImpl::Wyhash1024(h) => {
                let ghost w = h.writes();
                h.update(data);
                proof {
                    w.lemma_flatten_push(data@);
                }
            },
        }
    }

    /// `out_len` bytes of output; the hasher is left as it is and may take
    /// more input afterwards.
    pub fn finalize(&self, out_len: usize) -> (r: Vec<u8>)
        ensures
            r@ == self.output(out_len as nat),
            r@.len() == out_len,
    {
        match self {
            HasherImpl::Blake2b(h) => h.finalize(out_len),
            HasherImpl::Blake2bp(h) => h.finalize(out_len),
            HasherImpl::Blake3(h) => h.finalize(out_len),
            HasherImpl::Shake256(h) => h.finalize(out_len),
            HasherImpl::K12(h) => h.finalize(out_len),
            HasherImpl::TurboShake256(h) => h.finalize(out_len),
            HasherImpl::ParallelHash256(h) => h.finalize(out_len),
            HasherImpl::Xxh3_1024(h) => h.finalize(out_len),
            HasherImpl::Wyhash1024(h) => h.finalize(out_len),
        }
    }

    /// `finalize` in lower-case hex.
    pub fn finalize_hex(&self, out_len: usize) -> (r: String)
        ensures
            r@ == hex_of(self.output(out_len as nat)),
    {
        let bytes = self.finalize(out_len);
        encode_hex(bytes.as_slice())
    }

    /// Canonical name of the algorithm.
    pub fn name(&self) -> (r: &'static str)
        ensures
            r@ == algorithm_name(self.algorithm()),
    {
        self.algorithm_of().name()
    }

    /// The algorithm of this hasher.
    pub fn algorithm_of(&self) -> (r: Algorithm)
        ensures
            r == self.algorithm(),
    {
        match self {
            HasherImpl::Blake2b(_) => Algorithm::Blake2b,
            HasherImpl::Blake2bp(_) => Algorithm::Blake2bp,
            HasherImpl::Blake3(_) => Algorithm::Blake3,
            HasherImpl::Shake256(_) => Algorithm::Shake256,
            HasherImpl::K12(_) => Algorithm::K12,
            HasherImpl::TurboShake256(_) => Algorithm::TurboShake256,
            HasherImpl::ParallelHash256(_) => Algorithm::ParallelHash256,
            HasherImpl::Xxh3_1024(_) => Algorithm::Xxh3_1024,
            HasherImpl::Wyhash1024(_) => Algorithm::Wyhash1024,
        }
    }

    /// Description of the algorithm.
    pub fn info(&self) -> (r: AlgorithmInfo)
        ensures
            info_describes(r, self.algorithm()),
    {
        make_info(self.algorithm_of())
    }
}

/// Output of `out_len` bytes of algorithm `alg` over `data` taken in one chunk.
pub open spec fn digest_of(alg: Algorithm, data: Seq<u8>, out_len: nat) -> Seq<u8> {
    if alg == Algorithm::Wyhash1024 {
        wyhash_output(seq![data], out_len)
    } else {
        algorithm_output(alg, data, out_len)
    }
}

/// Hashes `data` with a fresh hasher of `alg` and returns `out_len` bytes.
pub fn expand_digest(alg: &Algorithm, data: &[u8], out_len: usize) -> (r: Vec<u8>)
    ensures
        r@ == digest_of(*alg, data@, out_len as nat),
        r@.len() == out_len,
{
    let mut h = HasherImpl::new(*alg);
    h.update(data);
    proof {
        assert(Seq::<u8>::empty() + data@ =~= data@);
        assert(Seq::<Seq<u8>>::empty().push(data@) =~= seq![data@]);
    }
    h.finalize(out_len)
}

/// Streaming invariance: two hashers of the same algorithm (other than WyHash)
/// that took the same bytes, however they were split into updates, give the
/// same output for every length.
pub proof fn lemma_streaming_invariance(h1: HasherImpl, h2: HasherImpl, out_len: nat)
    requires
        h1.algorithm() == h2.algorithm(),
        h1.algorithm() != Algorithm::Wyhash1024,
        h1.absorbed() == h2.absorbed(),
    ensures
        h1.output(out_len) == h2.output(out_len),
{
}

/// Determinism: a fresh hasher of `alg` fed `data` in one update gives
/// `digest_of(alg, data, out_len)`, whatever the hasher.
pub proof fn lemma_fresh_hasher_output(h: HasherImpl, data: Seq<u8>, out_len: nat)
    requires
        h.wf(),
        h.absorbed() == data,
        match h {
            HasherImpl::Wyhash1024(w) => w.writes() == seq![data],
            _ => true,
        },
    ensures
        h.output(out_len) == digest_of(h.algorithm(), data, out_len),
{
}

/// Algorithm named by an already lower-cased name or alias.
pub open spec fn algorithm_named(s: Seq<char>) -> Option<Algorithm> {
    if s == "blake2b"@ || s == "blake2b-512"@ {
        Some(Algorithm::Blake2b)
    } else if s == "blake2bp"@ {
        Some(Algorithm::Blake2bp)
    } else if s == "blake3"@ {
        Some(Algorithm::Blake3)
    } else if s == "shake256"@ {
        Some(Algorithm::Shake256)
    } else if s == "k12"@ || s == "kangarootwelve"@ || s == "kangaroo12"@ {
        Some(Algorithm::K12)
    } else if s == "turboshake"@ || s == "turboshake256"@ {
        Some(Algorithm::TurboShake256)
    } else if s == "parallelhash"@ || s == "parallelhash256"@ {
        Some(Algorithm::ParallelHash256)
    } else if s == "xxh3"@ || s == "xxh3-1024"@ {
        Some(Algorithm::Xxh3_1024)
    } else if s == "wyhash"@ || s == "wyhash-1024"@ {
        Some(Algorithm::Wyhash1024)
    } else {
        None
    }
}

/// The registered algorithms, in registry order.
pub open spec fn all_algorithms() -> Seq<Algorithm> {
    seq![Algorithm::Blake2b, Algorithm::Blake2bp, Algorithm::Blake3, Algorithm::Shake256, Algorithm::K12, Algorithm::TurboShake256, Algorithm::ParallelHash256, Algorithm::Xxh3_1024, Algorithm::Wyhash1024]
}

impl Algorithm {
    /// The registered algorithms, in registry order.
    pub fn all() -> (r: Vec<Algorithm>)
        ensures
            r@ == all_algorithms(),
    {
        let r: Vec<Algorithm> = vec![Algorithm::Blake2b, Algorithm::Blake2bp, Algorithm::Blake3, Algorithm::Shake256, Algorithm::K12, Algorithm::TurboShake256, Algorithm::ParallelHash256, Algorithm::Xxh3_1024, Algorithm::Wyhash1024];
        r
    }

    /// Canonical names of the registered algorithms, in registry order.
    pub fn list() -> (r: Vec<&'static str>)
        ensures
            r@.len() == all_algorithms().len(),
            forall|i: int| 0 <= i < r@.len() ==> #[trigger] r@[i]@ == algorithm_name(all_algorithms()[i]),
    {
        let all = Algorithm::all();
        let mut r: Vec<&'static str> = Vec::new();
        let mut i: usize = 0;
        while i < all.len()
            invariant
                all@ == all_algorithms(),
                i <= all@.len(),
                r@.len() == i,
                forall|j: int| 0 <= j < i ==> #[trigger] r@[j]@ == algorithm_name(all_algorithms()[j]),
            decreases all@.len() - i,
        {
            r.push(all[i].name());
            i = i + 1;
        }
        r
    }

    /// Algorithm of a lower-cased name or alias.
    pub fn from_lowered(s: &str) -> (r: Option<Algorithm>)
        ensures
            r == algorithm_named(s@),
    {
        if str_eq(s, "blake2b") || str_eq(s, "blake2b-512") {
            Some(Algorithm::Blake2b)
        } else if str_eq(s, "blake2bp") {
            Some(Algorithm::Blake2bp)
        } else if str_eq(s, "blake3") {
            Some(Algorithm::Blake3)
        } else if str_eq(s, "shake256") {
            Some(Algorithm::Shake256)
        } else if str_eq(s, "k12") || str_eq(s, "kangarootwelve") || str_eq(s, "kangaroo12") {
            Some(Algorithm::K12)
        } else if str_eq(s, "turboshake") || str_eq(s, "turboshake256") {
            Some(Algorithm::TurboShake256)
        } else if str_eq(s, "parallelhash") || str_eq(s, "parallelhash256") {
            Some(Algorithm::ParallelHash256)
        } else if str_eq(s, "xxh3") || str_eq(s, "xxh3-1024") {
            Some(Algorithm::Xxh3_1024)
        } else if str_eq(s, "wyhash") || str_eq(s, "wyhash-1024") {
            Some(Algorithm::Wyhash1024)
        } else {
            None
        }
    }

    /// Algorithm of a name or alias, compared case-insensitively.
    pub fn from_str(name: &str) -> (r: Option<Algorithm>)
        ensures
            r == algorithm_named(lower_of(name@)),
    {
        let lowered = to_lower(name);
        Algorithm::from_lowered(lowered.as_str())
    }

    /// A fresh hasher of this algorithm.
    pub fn create(&self) -> (r: HasherImpl)
        ensures
            r.algorithm() == *self,
            r.absorbed() == Seq::<u8>::empty(),
            r.wf(),
            match r {
                HasherImpl::Wyhash1024(h) => h.writes() == Seq::<Seq<u8>>::empty(),
                _ => true,
            },
    {
        HasherImpl::new(*self)
    }

    /// Description of this algorithm, without hashing anything.
    pub fn info(&self) -> (r: AlgorithmInfo)
        ensures
            info_describes(r, *self),
    {
        make_info(*self)
    }

    /// Canonical name.
    pub fn name(&self) -> (r: &'static str)
        ensures
            r@ == algorithm_name(*self),
    {
        match self {
            Algorithm::Blake2b => "blake2b",
            Algorithm::Blake2bp => "blake2bp",
            Algorithm::Blake3 => "blake3",
            Algorithm::Shake256 => "shake256",
            Algorithm::K12 => "k12",
            Algorithm::TurboShake256 => "turboshake256",
            Algorithm::ParallelHash256 => "parallelhash256",
            Algorithm::Xxh3_1024 => "xxh3-1024",
            Algorithm::Wyhash1024 => "wyhash-1024",
        }
    }
}

impl Default for Blake2bHasher {
    /// Same as `new`.
    fn default() -> (r: Self)
        ensures
            r.absorbed() == Seq::<u8>::empty(),
    {
        Blake2bHasher::new()
    }
}

impl Default for Blake2bpHasher {
    /// Same as `new`.
    fn default() -> (r: Self)
        ensures
            r.absorbed() == Seq::<u8>::empty(),
    {
        Blake2bpHasher::new()
    }
}

impl Default for Blake3Hasher {
    /// Same as `new`.
    fn default() -> (r: Self)
        ensures
            r.absorbed() == Seq::<u8>::empty(),
    {
        Blake3Hasher::new()
    }
}

impl Default for Shake256Hasher {
    /// Same as `new`.
    fn default() -> (r: Self)
        ensures
            r.absorbed() == Seq::<u8>::empty(),
    {
        Shake256Hasher::new()
    }
}

impl Default for K12Hasher {
    /// Same as `new`.
    fn default() -> (r: Self)
        ensures
            r.absorbed() == Seq::<u8>::empty(),
    {
        K12Hasher::new()
    }
}

impl Default for TurboShake256Hasher {
    /// Same as `new`.
    fn default() -> (r: Self)
        ensures
            r.absorbed() == Seq::<u8>::empty(),
    {
        TurboShake256Hasher::new()
    }
}

impl Default for ParallelHash256Hasher {
    /// Same as `new`.
    fn default() -> (r: Self)
        ensures
            r.absorbed() == Seq::<u8>::empty(),
    {
        ParallelHash256Hasher::new()
    }
}

impl Default for Xxh3Expander {
    /// Same as `new`.
    fn default() -> (r: Self)
        ensures
            r.absorbed() == Seq::<u8>::empty(),
    {
        Xxh3Expander::new()
    }
}

impl Default for WyHashExpander {
    /// Same as `new`.
    fn default() -> (r: Self)
        ensures
            r.writes() == Seq::<Seq<u8>>::empty(),
            r.seed() == 0,
    {
        WyHashExpander::new()
    }
}

} // verus!
