use blake2b_simd::{blake2bp, Params};
use hash_folderoo::algorithms::{
    Algorithm, Blake2bHasher, Blake2bpHasher, Blake3Hasher, HasherImpl, K12Hasher,
    ParallelHash256Hasher, Shake256Hasher, TurboShake256Hasher, WyHashExpander, Xxh3Expander,
};
use hash_folderoo::algorithms::expand_digest;
use sha3::digest::{ExtendableOutput, Update, XofReader};
use std::hash::Hasher as StdHasher;
use tiny_keccak::{Hasher as KeccakHasher, IntoXof, KangarooTwelve, ParallelHash, Xof};
use wyhash::WyHash;
use xxhash_rust::xxh3::{xxh3_64_with_seed, Xxh3};

const INPUTS: [&[u8]; 3] = [b"", b"hello", b"The quick brown fox"];

#[test]
fn blake3_matches_direct() {
    for inp in INPUTS {
        let mut h = Blake3Hasher::new();
        h.update(inp);
        let got = h.finalize_hex(32);

        let mut hasher = blake3::Hasher::new();
        hasher.update(inp);
        let mut reader = hasher.finalize_xof();
        let mut out = vec![0u8; 32];
        reader.fill(&mut out);
        let exp = hex::encode(out);

        assert_eq!(got, exp, "blake3 mismatch for input {:?}", inp);
    }
}

#[test]
fn shake256_matches_direct() {
    for inp in INPUTS {
        let mut h = Shake256Hasher::new();
        h.update(inp);
        let got = h.finalize_hex(32);

        let mut hasher = sha3::Shake256::default();
        hasher.update(inp);
        let mut reader = hasher.finalize_xof();
        let mut out = vec![0u8; 32];
        reader.read(&mut out);
        let exp = hex::encode(out);

        assert_eq!(got, exp, "shake256 mismatch for input {:?}", inp);
    }
}

#[test]
fn blake2b_matches_direct() {
    for inp in INPUTS {
        let mut h = Blake2bHasher::new();
        h.update(inp);
        let got = h.finalize_hex(64);

        let mut params = Params::new();
        params.hash_length(64);
        let mut state = params.to_state();
        state.update(inp);
        let hash = state.finalize();
        let exp = hex::encode(hash.as_bytes());

        assert_eq!(got, exp, "blake2b mismatch for input {:?}", inp);
    }
}

#[test]
fn blake2bp_matches_direct() {
    for inp in INPUTS {
        let mut h = Blake2bpHasher::new();
        h.update(inp);
        let got = h.finalize_hex(64);

        let expected = blake2bp::Params::new().hash(inp);
        assert_eq!(got, expected.to_hex().as_str(), "blake2bp mismatch for {:?}", inp);
    }
}

#[test]
fn k12_matches_direct() {
    for inp in INPUTS {
        let mut h = K12Hasher::new();
        h.update(inp);
        let got = h.finalize_hex(64);

        let mut hasher = KangarooTwelve::new(b"");
        hasher.update(inp);
        let mut out = vec![0u8; 64];
        hasher.finalize(&mut out);
        let exp = hex::encode(out);

        assert_eq!(got, exp, "k12 mismatch for input {:?}", inp);
    }
}

#[test]
fn turboshake_matches_direct() {
    for inp in INPUTS {
        let mut h = TurboShake256Hasher::new();
        h.update(inp);
        let got = h.finalize_hex(64);

        let mut ref_hasher = turboshake::TurboShake256::default();
        turboshake::digest::Update::update(&mut ref_hasher, inp);
        let mut reader = turboshake::digest::ExtendableOutput::finalize_xof(ref_hasher);
        let mut out = vec![0u8; 64];
        turboshake::digest::XofReader::read(&mut reader, &mut out);
        let exp = hex::encode(out);

        assert_eq!(got, exp, "turboshake mismatch for input {:?}", inp);
    }
}

#[test]
fn parallelhash_matches_direct() {
    for inp in INPUTS {
        let mut h = ParallelHash256Hasher::new();
        h.update(inp);
        let got = h.finalize_hex(64);

        let mut ref_hasher = ParallelHash::v256(b"", 8192);
        ref_hasher.update(inp);
        let mut xof = ref_hasher.into_xof();
        let mut out = vec![0u8; 64];
        xof.squeeze(&mut out);
        let exp = hex::encode(out);

        assert_eq!(got, exp, "parallelhash mismatch for input {:?}", inp);
    }
}

fn expand_seed(seed: u64, out_len: usize) -> Vec<u8> {
    if out_len == 0 {
        return Vec::new();
    }
    let mut out = Vec::with_capacity(out_len);
    let mut counter = 0u64;
    let mut tweak = seed;
    while out.len() < out_len {
        let mut block_input = [0u8; 16];
        block_input[..8].copy_from_slice(&seed.to_le_bytes());
        block_input[8..].copy_from_slice(&counter.to_le_bytes());
        let chunk = xxh3_64_with_seed(&block_input, tweak);
        out.extend_from_slice(&chunk.to_le_bytes());
        counter = counter.wrapping_add(1);
        tweak = tweak.wrapping_add(0x9E37_79B1_85EB_CA87);
    }
    out.truncate(out_len);
    out
}

#[test]
fn xxh3_expander_matches_reference() {
    for inp in INPUTS {
        let mut h = Xxh3Expander::new();
        h.update(inp);
        let got = h.finalize_hex(128);

        let mut ref_hasher = Xxh3::new();
        ref_hasher.update(inp);
        let seed = ref_hasher.digest();
        let expected = expand_seed(seed, 128);
        assert_eq!(got, hex::encode(expected), "xxh3 mismatch for {:?}", inp);
    }
}

fn wyhash_expand(seed: u64, out_len: usize) -> Vec<u8> {
    if out_len == 0 {
        return Vec::new();
    }
    let mut out = Vec::with_capacity(out_len);
    let mut counter = 0u64;
    let mut current_seed = seed;
    while out.len() < out_len {
        let mut hasher = WyHash::with_seed(current_seed);
        hasher.write(&counter.to_le_bytes());
        let chunk = hasher.finish();
        out.extend_from_slice(&chunk.to_le_bytes());
        counter = counter.wrapping_add(1);
        current_seed = current_seed.wrapping_add(0xA076_1D64_78BD_642F);
    }
    out.truncate(out_len);
    out
}

#[test]
fn wyhash_expander_matches_reference() {
    for inp in INPUTS {
        let mut h = WyHashExpander::new();
        h.update(inp);
        let got = h.finalize_hex(128);

        let mut ref_hasher = WyHash::with_seed(0);
        ref_hasher.write(inp);
        let seed = ref_hasher.finish();
        let expected = wyhash_expand(seed, 128);
        assert_eq!(got, hex::encode(expected), "wyhash mismatch for {:?}", inp);
    }
}

#[test]
fn expand_vectors() {
    // XOF algorithm: shake256 should return N bytes matching adapter
    let out = expand_digest(&Algorithm::Shake256, b"", 48);
    assert_eq!(out.len(), 48);

    // Non-XOF algorithm: blake2b deterministic expansion for "abc"
    let out2 = expand_digest(&Algorithm::Blake2b, b"abc", 80);
    assert_eq!(out2.len(), 80);
    let hex = hex::encode(&out2);
    assert_eq!(hex.len(), 160);
    assert_eq!(&hex[..8], &hex[..8]);
    assert_eq!(&hex[hex.len() - 8..], &hex[hex.len() - 8..]);
}

#[test]
fn print_vectors() {
    let out1 = expand_digest(&Algorithm::Shake256, b"abc", 48);
    println!("SHAKE256_abc_48: {}", hex::encode(out1));
    let out2 = expand_digest(&Algorithm::Blake2b, b"abc", 80);
    println!("BLAKE2B_abc_80: {}", hex::encode(out2));
}

#[test]
fn shake256_empty_known_vector() {
    let out = expand_digest(&Algorithm::Shake256, b"", 32);
    assert_eq!(
        hex::encode(out),
        "46b9dd2b0ba88d13233b3feb743eeb243fcd52ea62b81b82b50c27646ed5762f"
    );
}

#[test]
fn blake2b_expansion_is_counter_chain() {
    let base = blake2b_simd::Params::new().hash(b"abc");
    let out = expand_digest(&Algorithm::Blake2b, b"abc", 80);
    let mut block0_input = base.as_bytes().to_vec();
    block0_input.extend_from_slice(&0u32.to_le_bytes());
    let block0 = blake2b_simd::Params::new().hash(&block0_input);
    let mut block1_input = base.as_bytes().to_vec();
    block1_input.extend_from_slice(&1u32.to_le_bytes());
    let block1 = blake2b_simd::Params::new().hash(&block1_input);
    assert_eq!(&out[..64], block0.as_bytes());
    assert_eq!(&out[64..], &block1.as_bytes()[..16]);
}

#[test]
fn every_algorithm_gives_requested_length() {
    for alg in Algorithm::all() {
        for len in [0usize, 1, 31, 32, 64, 65, 128, 200] {
            let out = expand_digest(&alg, b"data", len);
            assert_eq!(out.len(), len, "{} at {}", alg.name(), len);
        }
        assert!(expand_digest(&alg, b"data", 0).is_empty());
    }
}

#[test]
fn fresh_hashers_agree() {
    for alg in Algorithm::all() {
        let a = expand_digest(&alg, b"same input", 100);
        let b = expand_digest(&alg, b"same input", 100);
        assert_eq!(a, b, "{}", alg.name());
    }
}

#[test]
fn split_updates_match_single_update() {
    let data = b"The quick brown fox jumps over the lazy dog";
    for alg in Algorithm::all() {
        let mut whole = alg.create();
        whole.update(data);
        let mut split = alg.create();
        split.update(&data[..7]);
        split.update(&data[7..20]);
        split.update(&data[20..]);
        if alg == Algorithm::Wyhash1024 {
            continue;
        }
        assert_eq!(whole.finalize(96), split.finalize(96), "{}", alg.name());
    }
}

#[test]
fn wyhash_depends_on_split() {
    let mut whole = HasherImpl::new(Algorithm::Wyhash1024);
    whole.update(b"hello world");
    let mut split = HasherImpl::new(Algorithm::Wyhash1024);
    split.update(b"hello ");
    split.update(b"world");
    assert_ne!(whole.finalize(16), split.finalize(16));
}

#[test]
fn fixed_expansion_prefix_monotone() {
    for alg in [Algorithm::Blake2b, Algorithm::Blake2bp] {
        let short = expand_digest(&alg, b"x", 100);
        let long = expand_digest(&alg, b"x", 300);
        assert_eq!(&long[..100], &short[..]);
        let native_short = expand_digest(&alg, b"x", 16);
        let native = expand_digest(&alg, b"x", 64);
        assert_eq!(&native[..16], &native_short[..]);
        assert_ne!(&long[..64], &native[..]);
    }
}

#[test]
fn fast_expansion_prefix_monotone() {
    for alg in [Algorithm::Xxh3_1024, Algorithm::Wyhash1024] {
        let short = expand_digest(&alg, b"x", 13);
        let long = expand_digest(&alg, b"x", 128);
        assert_eq!(&long[..13], &short[..]);
    }
}

#[test]
fn finalize_leaves_state_usable() {
    let mut h = HasherImpl::new(Algorithm::Blake3);
    h.update(b"ab");
    let first = h.finalize(32);
    assert_eq!(first, h.finalize(32));
    h.update(b"c");
    assert_eq!(h.finalize(32), expand_digest(&Algorithm::Blake3, b"abc", 32));
}

#[test]
fn registry_names_and_aliases() {
    assert_eq!(Algorithm::list().len(), 9);
    assert_eq!(Algorithm::from_str("BLAKE2B-512"), Some(Algorithm::Blake2b));
    assert_eq!(Algorithm::from_str("KangarooTwelve"), Some(Algorithm::K12));
    assert_eq!(Algorithm::from_str("turboshake"), Some(Algorithm::TurboShake256));
    assert_eq!(Algorithm::from_str("wyhash"), Some(Algorithm::Wyhash1024));
    assert_eq!(Algorithm::from_str("md5"), None);
    for alg in Algorithm::all() {
        assert_eq!(Algorithm::from_str(alg.name()), Some(alg));
        let info = alg.info();
        assert_eq!(info.name, alg.name());
        assert_eq!(alg.create().info().name, alg.name());
    }
    let info = Algorithm::Xxh3_1024.info();
    assert!(!info.is_cryptographic);
    assert_eq!(info.output_len_default, 128);
    assert!(!Algorithm::Blake2b.info().supports_xof);
}

#[test]
fn hex_output_is_lowercase_pairs() {
    let mut h = Blake2bHasher::new();
    h.update(b"abc");
    let s = h.finalize_hex(4);
    assert_eq!(s.len(), 8);
    assert_eq!(s, hex::encode(h.finalize(4)));
    assert!(s.chars().all(|c| c.is_ascii_hexdigit() && !c.is_ascii_uppercase()));
}
