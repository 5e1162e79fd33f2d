//! The hash primitives this library builds on, taken from outside crates.
//!
//! Each streaming state is opaque; what it has absorbed is named by a spec
//! function, and each digest or output is named as a function of the absorbed
//! bytes alone.

use sha3::digest::{ExtendableOutput, Update, XofReader};
use std::hash::Hasher as StdHasher;
use tiny_keccak::{Hasher as KeccakHasher, IntoXof, Xof};
use vstd::prelude::*;

verus! {

#[verifier::external_type_specification]
#[verifier::external_body]
pub struct ExBlake2bState(blake2b_simd::State);

#[verifier::external_type_specification]
#[verifier::external_body]
pub struct ExBlake2bpState(blake2b_simd::blake2bp::State);

#[verifier::external_type_specification]
#[verifier::external_body]
pub struct ExBlake3Hasher(blake3::Hasher);

#[verifier::external_type_specification]
#[verifier::external_body]
pub struct ExParallelHash(tiny_keccak::ParallelHash);

#[verifier::external_type_specification]
#[verifier::external_body]
#[verifier::reject_recursive_types(T)]
pub struct ExKangarooTwelve<T>(tiny_keccak::KangarooTwelve<T>);

#[verifier::external_type_specification]
#[verifier::external_body]
pub struct ExTurboShake<const RATE: usize, const DS: u8>(turboshake::TurboShake<RATE, DS>);

#[verifier::external_type_specification]
#[verifier::external_body]
pub struct ExWyHash(wyhash::WyHash);

#[verifier::external_type_specification]
#[verifier::external_body]
pub struct ExXxh3(xxhash_rust::xxh3::Xxh3);

/// SHAKE256 streaming state. sha3's `Shake256` is a generic core wrapper whose
/// declaration Verus refuses, so it is held here out of Verus's sight.
#[verifier::external_body]
pub struct Shake256State {
    inner: sha3::Shake256,
}

// BLAKE2b-512 (blake2b_simd, default parameters: 64-byte digest).

/// The bytes a BLAKE2b state has absorbed.
pub uninterp spec fn blake2b_input(st: blake2b_simd::State) -> Seq<u8>;

/// The BLAKE2b-512 digest of a byte string.
pub uninterp spec fn blake2b_512(data: Seq<u8>) -> Seq<u8>;

/// Relies on `blake2b_simd::State::new`: a fresh state with default
/// parameters (64-byte digest) that has absorbed nothing.
#[verifier::external_body]
pub fn blake2b_new() -> (r: blake2b_simd::State)
    ensures
        blake2b_input(r) == Seq::<u8>::empty(),
{
    blake2b_simd::State::new()
}

/// Relies on `blake2b_simd::State::update`: the data is appended to what the
/// state has absorbed.
#[verifier::external_body]
pub fn blake2b_absorb(st: &mut blake2b_simd::State, data: &[u8])
    ensures
        blake2b_input(*final(st)) == blake2b_input(*old(st)) + data@,
{
    st.update(data);
}

/// Relies on `blake2b_simd::State::finalize`, which leaves the state as it
/// is: the 64-byte digest of what the state absorbed.
#[verifier::external_body]
pub fn blake2b_digest(st: &blake2b_simd::State) -> (r: Vec<u8>)
    ensures
        r@ == blake2b_512(blake2b_input(*st)),
        r@.len() == 64,
{
    st.finalize().as_bytes().to_vec()
}

// BLAKE2bp (blake2b_simd::blake2bp, default parameters: 64-byte digest).

/// The bytes a BLAKE2bp state has absorbed.
pub uninterp spec fn blake2bp_input(st: blake2b_simd::blake2bp::State) -> Seq<u8>;

/// The BLAKE2bp digest (64 bytes) of a byte string.
pub uninterp spec fn blake2bp_512(data: Seq<u8>) -> Seq<u8>;

/// Relies on `blake2b_simd::blake2bp::State::new`: a fresh state with default
/// parameters that has absorbed nothing.
#[verifier::external_body]
pub fn blake2bp_new() -> (r: blake2b_simd::blake2bp::State)
    ensures
        blake2bp_input(r) == Seq::<u8>::empty(),
{
    blake2b_simd::blake2bp::State::new()
}

/// Relies on `blake2b_simd::blake2bp::State::update`: the data is appended to
/// what the state has absorbed.
#[verifier::external_body]
pub fn blake2bp_absorb(st: &mut blake2b_simd::blake2bp::State, data: &[u8])
    ensures
        blake2bp_input(*final(st)) == blake2bp_input(*old(st)) + data@,
{
    st.update(data);
}

/// Relies on `blake2b_simd::blake2bp::State::finalize`, which leaves the state
/// as it is: the 64-byte digest of what the state absorbed.
#[verifier::external_body]
pub fn blake2bp_digest(st: &blake2b_simd::blake2bp::State) -> (r: Vec<u8>)
    ensures
        r@ == blake2bp_512(blake2bp_input(*st)),
        r@.len() == 64,
{
    st.finalize().as_bytes().to_vec()
}

// BLAKE3 (extendable output).

/// The bytes a BLAKE3 hasher has absorbed.
pub uninterp spec fn blake3_input(st: blake3::Hasher) -> Seq<u8>;

/// The first `len` bytes of BLAKE3's extendable output for a byte string.
pub uninterp spec fn blake3_xof(data: Seq<u8>, len: nat) -> Seq<u8>;

/// Relies on `blake3::Hasher::new`: a fresh hasher that has absorbed nothing.
#[verifier::external_body]
pub fn blake3_new() -> (r: blake3::Hasher)
    ensures
        blake3_input(r) == Seq::<u8>::empty(),
{
    blake3::Hasher::new()
}

/// Relies on `blake3::Hasher::update`: the data is appended to what the hasher
/// has absorbed.
#[verifier::external_body]
pub fn blake3_absorb(st: &mut blake3::Hasher, data: &[u8])
    ensures
        blake3_input(*final(st)) == blake3_input(*old(st)) + data@,
{
    st.update(data);
}

/// Relies on `blake3::Hasher::finalize_xof` (which leaves the hasher as it is)
/// and `OutputReader::fill`: `len` bytes of extendable output.
#[verifier::external_body]
pub fn blake3_output(st: &blake3::Hasher, len: usize) -> (r: Vec<u8>)
    ensures
        r@ == blake3_xof(blake3_input(*st), len as nat),
        r@.len() == len,
{
    let mut out = vec![0u8; len];
    st.finalize_xof().fill(&mut out);
    out
}

// SHAKE256 (sha3).

/// The bytes a SHAKE256 state has absorbed.
pub uninterp spec fn shake256_input(st: Shake256State) -> Seq<u8>;

/// The first `len` bytes of SHAKE256 output for a byte string.
pub uninterp spec fn shake256_xof(data: Seq<u8>, len: nat) -> Seq<u8>;

/// Relies on `sha3::Shake256::default`: a fresh state that has absorbed
/// nothing.
#[verifier::external_body]
pub fn shake256_new() -> (r: Shake256State)
    ensures
        shake256_input(r) == Seq::<u8>::empty(),
{
    Shake256State { inner: sha3::Shake256::default() }
}

/// Relies on `Update::update` of `sha3::Shake256`: the data is appended to
/// what the state has absorbed.
#[verifier::external_body]
pub fn shake256_absorb(st: &mut Shake256State, data: &[u8])
    ensures
        shake256_input(*final(st)) == shake256_input(*old(st)) + data@,
{
    st.inner.update(data);
}

/// Relies on `ExtendableOutput::finalize_xof` of a clone of the state and
/// `XofReader::read`: `len` bytes of SHAKE256 output.
#[verifier::external_body]
pub fn shake256_output(st: &Shake256State, len: usize) -> (r: Vec<u8>)
    ensures
        r@ == shake256_xof(shake256_input(*st), len as nat),
        r@.len() == len,
{
    let mut out = vec![0u8; len];
    st.inner.clone().finalize_xof().read(&mut out);
    out
}

// KangarooTwelve (tiny-keccak, empty customization string).

/// The bytes a KangarooTwelve state has absorbed.
pub uninterp spec fn k12_input(st: tiny_keccak::KangarooTwelve<&'static [u8]>) -> Seq<u8>;

/// The first `len` bytes of KangarooTwelve output (empty customization) for a
/// byte string.
pub uninterp spec fn k12_xof(data: Seq<u8>, len: nat) -> Seq<u8>;

/// Relies on `tiny_keccak::KangarooTwelve::new` with an empty customization
/// string: a fresh state that has absorbed nothing.
#[verifier::external_body]
pub fn k12_new() -> (r: tiny_keccak::KangarooTwelve<&'static [u8]>)
    ensures
        k12_input(r) == Seq::<u8>::empty(),
{
    tiny_keccak::KangarooTwelve::new(b"")
}

/// Relies on `Hasher::update` of `tiny_keccak::KangarooTwelve`: the data is
/// appended to what the state has absorbed.
#[verifier::external_body]
pub fn k12_absorb(st: &mut tiny_keccak::KangarooTwelve<&'static [u8]>, data: &[u8])
    ensures
        k12_input(*final(st)) == k12_input(*old(st)) + data@,
{
    st.update(data);
}

/// Relies on `Hasher::finalize` of a clone of the state: `len` bytes of output.
#[verifier::external_body]
pub fn k12_output(st: &tiny_keccak::KangarooTwelve<&'static [u8]>, len: usize) -> (r: Vec<u8>)
    ensures
        r@ == k12_xof(k12_input(*st), len as nat),
        r@.len() == len,
{
    let mut out = vec![0u8; len];
    st.clone().finalize(&mut out);
    out
}

// ParallelHash256 (tiny-keccak, empty customization string, 8192-byte blocks).

/// The bytes a ParallelHash256 state has absorbed.
pub uninterp spec fn parallelhash_input(st: tiny_keccak::ParallelHash) -> Seq<u8>;

/// The first `len` bytes of ParallelHash256's extendable output (empty
/// customization, 8192-byte blocks) for a byte string.
pub uninterp spec fn parallelhash_xof(data: Seq<u8>, len: nat) -> Seq<u8>;

/// Relies on `tiny_keccak::ParallelHash::v256` with an empty customization
/// string and 8192-byte blocks: a fresh state that has absorbed nothing.
#[verifier::external_body]
pub fn parallelhash_new() -> (r: tiny_keccak::ParallelHash)
    ensures
        parallelhash_input(r) == Seq::<u8>::empty(),
{
    tiny_keccak::ParallelHash::v256(b"", 8192)
}

/// Relies on `Hasher::update` of `tiny_keccak::ParallelHash`: the data is
/// appended to what the state has absorbed.
#[verifier::external_body]
pub fn parallelhash_absorb(st: &mut tiny_keccak::ParallelHash, data: &[u8])
    ensures
        parallelhash_input(*final(st)) == parallelhash_input(*old(st)) + data@,
{
    st.update(data);
}

/// Relies on `IntoXof::into_xof` of a clone of the state and `Xof::squeeze`:
/// `len` bytes of extendable output.
#[verifier::external_body]
pub fn parallelhash_output(st: &tiny_keccak::ParallelHash, len: usize) -> (r: Vec<u8>)
    ensures
        r@ == parallelhash_xof(parallelhash_input(*st), len as nat),
        r@.len() == len,
{
    let mut out = vec![0u8; len];
    st.clone().into_xof().squeeze(&mut out);
    out
}

// TurboSHAKE256 (turboshake, default domain separator 0x1F).

/// The bytes a TurboSHAKE256 state has absorbed.
pub uninterp spec fn turboshake_input(st: turboshake::TurboShake256) -> Seq<u8>;

/// The first `len` bytes of TurboSHAKE256 output (domain separator 0x1F) for a
/// byte string.
pub uninterp spec fn turboshake_xof(data: Seq<u8>, len: nat) -> Seq<u8>;

/// Relies on `turboshake::TurboShake256::default`: a fresh state that has
/// absorbed nothing.
#[verifier::external_body]
pub fn turboshake_new() -> (r: turboshake::TurboShake256)
    ensures
        turboshake_input(r) == Seq::<u8>::empty(),
{
    turboshake::TurboShake256::default()
}

/// Relies on `Update::update` of `turboshake::TurboShake256`: the data is
/// appended to what the state has absorbed.
#[verifier::external_body]
pub fn turboshake_absorb(st: &mut turboshake::TurboShake256, data: &[u8])
    ensures
        turboshake_input(*final(st)) == turboshake_input(*old(st)) + data@,
{
    turboshake::digest::Update::update(st, data);
}

/// Relies on `ExtendableOutput::finalize_xof` of a clone of the state and
/// `XofReader::read`: `len` bytes of output.
#[verifier::external_body]
pub fn turboshake_output(st: &turboshake::TurboShake256, len: usize) -> (r: Vec<u8>)
    ensures
        r@ == turboshake_xof(turboshake_input(*st), len as nat),
        r@.len() == len,
{
    let mut out = vec![0u8; len];
    let mut reader = turboshake::digest::ExtendableOutput::finalize_xof(st.clone());
    turboshake::digest::XofReader::read(&mut reader, &mut out);
    out
}

// XXH3 (xxhash-rust), 64-bit.

/// The bytes an XXH3 state has absorbed.
pub uninterp spec fn xxh3_input(st: xxhash_rust::xxh3::Xxh3) -> Seq<u8>;

/// The XXH3 64-bit digest (seed 0) of a byte string.
pub uninterp spec fn xxh3_64_of(data: Seq<u8>) -> u64;

/// The XXH3 64-bit hash of a byte string under a seed.
pub uninterp spec fn xxh3_64_seeded(data: Seq<u8>, seed: u64) -> u64;

/// Relies on `xxhash_rust::xxh3::Xxh3::new`: a fresh state that has absorbed
/// nothing.
#[verifier::external_body]
pub fn xxh3_new() -> (r: xxhash_rust::xxh3::Xxh3)
    ensures
        xxh3_input(r) == Seq::<u8>::empty(),
{
    xxhash_rust::xxh3::Xxh3::new()
}

/// Relies on `Xxh3::update`: the data is appended to what the state has
/// absorbed.
#[verifier::external_body]
pub fn xxh3_absorb(st: &mut xxhash_rust::xxh3::Xxh3, data: &[u8])
    ensures
        xxh3_input(*final(st)) == xxh3_input(*old(st)) + data@,
{
    st.update(data);
}

/// Relies on `Xxh3::digest`, which leaves the state as it is: the 64-bit digest
/// of what the state absorbed.
#[verifier::external_body]
pub fn xxh3_digest(st: &xxhash_rust::xxh3::Xxh3) -> (r: u64)
    ensures
        r == xxh3_64_of(xxh3_input(*st)),
{
    st.digest()
}

/// Relies on `xxhash_rust::xxh3::xxh3_64_with_seed`.
#[verifier::external_body]
pub fn xxh3_with_seed(data: &[u8], seed: u64) -> (r: u64)
    ensures
        r == xxh3_64_seeded(data@, seed),
{
    xxhash_rust::xxh3::xxh3_64_with_seed(data, seed)
}

// WyHash (wyhash). Each `write` is mixed in on its own, so the digest depends
// on how the input was split into writes, not only on the bytes.

/// The seed a WyHash state was made with.
pub uninterp spec fn wyhash_seed(st: wyhash::WyHash) -> u64;

/// The writes a WyHash state has taken, in order.
pub uninterp spec fn wyhash_writes(st: wyhash::WyHash) -> Seq<Seq<u8>>;

/// The WyHash digest of a seed and a sequence of writes.
pub uninterp spec fn wyhash_finish(seed: u64, writes: Seq<Seq<u8>>) -> u64;

/// Relies on `wyhash::WyHash::with_seed`: a fresh state with that seed and no
/// writes.
#[verifier::external_body]
pub fn wyhash_new(seed: u64) -> (r: wyhash::WyHash)
    ensures
        wyhash_seed(r) == seed,
        wyhash_writes(r) == Seq::<Seq<u8>>::empty(),
{
    wyhash::WyHash::with_seed(seed)
}

/// Relies on `Hasher::write` of `wyhash::WyHash`: one more write, the seed
/// unchanged.
#[verifier::external_body]
pub fn wyhash_write(st: &mut wyhash::WyHash, data: &[u8])
    ensures
        wyhash_seed(*final(st)) == wyhash_seed(*old(st)),
        wyhash_writes(*final(st)) == wyhash_writes(*old(st)).push(data@),
{
    st.write(data);
}

/// Relies on `Hasher::finish` of `wyhash::WyHash`, which leaves the state as
/// it is.
#[verifier::external_body]
pub fn wyhash_digest(st: &wyhash::WyHash) -> (r: u64)
    ensures
        r == wyhash_finish(wyhash_seed(*st), wyhash_writes(*st)),
{
    st.finish()
}

} // verus!
