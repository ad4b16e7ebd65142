use erc6551crunch::address::Derived;
use erc6551crunch::config::{Config, ConfigError};
use erc6551crunch::decimal::{parse_id, to_decimal};
use erc6551crunch::hex::to_hex;
use erc6551crunch::keccak::keccak256;
use erc6551crunch::layout::{code_footer, code_header, create2_input, header, init_code};
use erc6551crunch::matcher::{
    contains_match, normalize_pattern, prefix_match, reward_score, Matcher, Reward,
};
use erc6551crunch::search::{
    decode_results, run_batch, stored_count, sweep, BatchCursor, MatchResult, Round,
};

const REGISTRY: &str = "0x000000006551c19487814612e58FE06813775758";
const IMPLEMENTATION: &str = "0x55266d75D1a14E4572138116aF39863Ed6596E7F";
const NFT: &str = "0xBC4CA0EdA7647A8aB7C2061c2E118A18a936f13D";
const NONCE: [u8; 6] = [1, 2, 3, 4, 5, 6];

fn args(items: &[&str]) -> Vec<String> {
    items.iter().map(|s| s.to_string()).collect()
}

fn config() -> Config {
    Config::new(args(&["crunch", REGISTRY, IMPLEMENTATION, "1", NFT, "1"])).unwrap()
}

fn hex_text(b: &[u8]) -> String {
    String::from_utf8(to_hex(b)).unwrap()
}

fn bytes_of(s: &str) -> Vec<u8> {
    (0..s.len() / 2).map(|i| u8::from_str_radix(&s[2 * i..2 * i + 2], 16).unwrap()).collect()
}

fn address_of(s: &str) -> [u8; 20] {
    bytes_of(s).try_into().unwrap()
}

#[test]
fn keccak_empty_vector() {
    assert_eq!(
        hex_text(&keccak256(b"")),
        "c5d2460186f7233c927e7db2dcc703c0e500b653ca82273b7bfad8045d85a470"
    );
}

#[test]
fn keccak_abc_vector() {
    assert_eq!(
        hex_text(&keccak256(b"abc")),
        "4e03657aea45a94fc7d47ba826c8d667c0d1e6e33a64a036ec44f58fa12d6c45"
    );
}

#[test]
fn keccak_fox_vector() {
    assert_eq!(
        hex_text(&keccak256(b"The quick brown fox jumps over the lazy dog")),
        "4d741b6f1eb29cb2a9b9911c82f56fa8d73b04959d3d9d222895df6c0b28aa15"
    );
}

#[test]
fn keccak_padding_boundaries() {
    let a = [0x61u8; 137];
    assert_eq!(
        hex_text(&keccak256(&a[..135])),
        "34367dc248bbd832f4e3e69dfaac2f92638bd0bbd18f2912ba4ef454919cf446"
    );
    assert_eq!(
        hex_text(&keccak256(&a[..136])),
        "a6c4d403279fe3e0af03729caada8374b5ca54d8065329a3ebcaeb4b60aa386e"
    );
    assert_eq!(
        hex_text(&keccak256(&a[..])),
        "d869f639c7046b4929fc92a4d988a8b22c55fbadb802c0c66ebcd484f1915f39"
    );
}

#[test]
fn keccak_multi_block_input() {
    let data = vec![0x61u8; 200];
    let d1 = keccak256(&data);
    let d2 = keccak256(&data);
    assert_eq!(d1, d2);
    assert_ne!(d1, keccak256(&data[..199]));
}

#[test]
fn hex_encoding_is_lowercase_pairs() {
    assert_eq!(hex_text(&[0x00, 0x0f, 0xab, 0xFF]), "000fabff");
    assert_eq!(hex_text(&[]), "");
}

#[test]
fn config_reads_fields() {
    let c = config();
    assert_eq!(c.resistry_address.to_vec(), bytes_of("000000006551c19487814612e58fe06813775758"));
    assert_eq!(c.implement_address.to_vec(), bytes_of("55266d75d1a14e4572138116af39863ed6596e7f"));
    assert_eq!(c.nft_address.to_vec(), bytes_of("bc4ca0eda7647a8ab7c2061c2e118a18a936f13d"));
    let mut one = [0u8; 32];
    one[31] = 1;
    assert_eq!(c.chain_id, one);
    assert_eq!(c.token_id, one);
}

#[test]
fn config_big_ids_are_big_endian() {
    let c = Config::new(args(&["x", REGISTRY, IMPLEMENTATION, "+258", NFT, "340282366920938463463374607431768211455"])).unwrap();
    let mut chain = [0u8; 32];
    chain[30] = 1;
    chain[31] = 2;
    assert_eq!(c.chain_id, chain);
    let mut token = [0u8; 32];
    for b in token[16..].iter_mut() {
        *b = 0xff;
    }
    assert_eq!(c.token_id, token);
}

#[test]
fn config_ids_up_to_256_bits() {
    let c = Config::new(args(&["x", REGISTRY, IMPLEMENTATION, "340282366920938463463374607431768211456", NFT, "115792089237316195423570985008687907853269984665640564039457584007913129639935"])).unwrap();
    let mut chain = [0u8; 32];
    chain[15] = 1;
    assert_eq!(c.chain_id, chain);
    assert_eq!(c.token_id, [0xffu8; 32]);
    let z = Config::new(args(&["x", REGISTRY, IMPLEMENTATION, "000", NFT, "0"])).unwrap();
    assert_eq!(z.chain_id, [0u8; 32]);
}

#[test]
fn config_missing_arguments() {
    assert_eq!(Config::new(args(&[])).err(), Some(ConfigError::MissingRegistry));
    assert_eq!(Config::new(args(&["x"])).err(), Some(ConfigError::MissingRegistry));
    assert_eq!(Config::new(args(&["x", REGISTRY])).err(), Some(ConfigError::MissingImplementation));
    assert_eq!(Config::new(args(&["x", REGISTRY, IMPLEMENTATION])).err(), Some(ConfigError::MissingChainId));
    assert_eq!(Config::new(args(&["x", REGISTRY, IMPLEMENTATION, "1"])).err(), Some(ConfigError::MissingNft));
    assert_eq!(Config::new(args(&["x", REGISTRY, IMPLEMENTATION, "1", NFT])).err(), Some(ConfigError::MissingTokenId));
}

#[test]
fn config_bad_hex() {
    assert_eq!(Config::new(args(&["x", "0xzz", IMPLEMENTATION, "1", NFT, "1"])).err(), Some(ConfigError::RegistryNotHex));
    assert_eq!(Config::new(args(&["x", REGISTRY, "123", "1", NFT, "1"])).err(), Some(ConfigError::ImplementationNotHex));
    assert_eq!(Config::new(args(&["x", REGISTRY, IMPLEMENTATION, "1", "nft!", "1"])).err(), Some(ConfigError::NftNotHex));
}

#[test]
fn config_bad_lengths_and_numbers() {
    assert_eq!(Config::new(args(&["x", "0x1234", IMPLEMENTATION, "1", NFT, "1"])).err(), Some(ConfigError::RegistryLength));
    assert_eq!(Config::new(args(&["x", REGISTRY, "", "1", NFT, "1"])).err(), Some(ConfigError::ImplementationLength));
    assert_eq!(Config::new(args(&["x", REGISTRY, IMPLEMENTATION, "-1", NFT, "1"])).err(), Some(ConfigError::ChainIdNotDecimal));
    assert_eq!(Config::new(args(&["x", REGISTRY, IMPLEMENTATION, "115792089237316195423570985008687907853269984665640564039457584007913129639936", NFT, "1"])).err(), Some(ConfigError::ChainIdNotDecimal));
    assert_eq!(Config::new(args(&["x", REGISTRY, IMPLEMENTATION, "+", NFT, "1"])).err(), Some(ConfigError::ChainIdNotDecimal));
    assert_eq!(Config::new(args(&["x", REGISTRY, IMPLEMENTATION, "1_0", NFT, "1"])).err(), Some(ConfigError::ChainIdNotDecimal));
    assert_eq!(Config::new(args(&["x", REGISTRY, IMPLEMENTATION, "1", "abcd", "1"])).err(), Some(ConfigError::NftLength));
    assert_eq!(Config::new(args(&["x", REGISTRY, IMPLEMENTATION, "1", NFT, " 1"])).err(), Some(ConfigError::TokenIdNotDecimal));
    assert_eq!(Config::new(args(&["x", REGISTRY, IMPLEMENTATION, "1", NFT, ""])).err(), Some(ConfigError::TokenIdNotDecimal));
}

#[test]
fn buffers_have_fixed_layout() {
    let c = config();
    let h = header(&c, &NONCE);
    assert_eq!(h.len(), 47);
    assert_eq!(h[0], 0xff);
    assert_eq!(&h[1..21], &c.resistry_address);
    assert_eq!(&h[21..41], &c.implement_address);
    assert_eq!(&h[41..], &NONCE);
    let ch = code_header(&c);
    assert_eq!(ch.len(), 55);
    assert_eq!(&ch[..3], &[61, 96, 173]);
    assert_eq!(&ch[20..40], &c.implement_address);
    assert_eq!(&ch[40..], &[90, 244, 61, 130, 128, 62, 144, 61, 145, 96, 43, 87, 253, 91, 243]);
    let cf = code_footer(&c);
    assert_eq!(cf.len(), 96);
    assert_eq!(&cf[..32], &c.chain_id);
    assert_eq!(&cf[32..44], &[0u8; 12]);
    assert_eq!(&cf[44..64], &c.nft_address);
    assert_eq!(&cf[64..], &c.token_id);
    let code = init_code(&c, &NONCE, 0x0102030405060708);
    assert_eq!(code.len(), 183);
    assert_eq!(&code[..55], &ch[..]);
    assert_eq!(&code[55..75], &c.implement_address);
    assert_eq!(&code[75..81], &NONCE);
    assert_eq!(&code[81..87], &[8, 7, 6, 5, 4, 3]);
    assert_eq!(&code[87..], &cf[..]);
    let input = create2_input(&c, &NONCE, 5, &[9u8; 32]);
    assert_eq!(input.len(), 85);
    assert_eq!(&input[..47], &h[..]);
    assert_eq!(&input[47..53], &[5, 0, 0, 0, 0, 0]);
    assert_eq!(&input[53..], &[9u8; 32]);
}

#[test]
fn derive_golden_address() {
    let c = config();
    let d = erc6551crunch::address::derive(&c, &NONCE, 42);
    assert_eq!(hex_text(&d.init_code_hash), "37dc9b0948a5caa7108f05e9ae9492c1e679dd468a4c768b21c15e0a2d5809f2");
    assert_eq!(hex_text(&d.address), "b80c574e5eebf4af0a39d008157a15bd1f62b06d");
    let z = erc6551crunch::address::derive(&c, &[0u8; 6], 0);
    assert_eq!(hex_text(&z.init_code_hash), "a2f6d880bbc621a0ad51b5b4946bfa7ef63bebec209e6f1081edf2f62e29bdda");
    assert_eq!(hex_text(&z.address), "1c9b1e53553d93d6e620ab719220c69d8aaf4ce9");
}

#[test]
fn derive_is_repeatable_and_sensitive() {
    let c = config();
    let a: Derived = erc6551crunch::address::derive(&c, &NONCE, 7);
    assert_eq!(a, erc6551crunch::address::derive(&c, &NONCE, 7));
    assert_ne!(a.address, erc6551crunch::address::derive(&c, &NONCE, 8).address);
    assert_ne!(a.address, erc6551crunch::address::derive(&c, &[1, 2, 3, 4, 5, 7], 7).address);
    let mut other = config();
    other.token_id[31] = 2;
    assert_ne!(a.address, erc6551crunch::address::derive(&other, &NONCE, 7).address);
    let mut seen = std::collections::HashSet::new();
    for salt in 0..500u64 {
        assert!(seen.insert(erc6551crunch::address::derive(&c, &NONCE, salt).address));
    }
}

#[test]
fn derive_uses_low_48_bits_of_salt() {
    let c = config();
    assert_eq!(erc6551crunch::address::derive(&c, &NONCE, 3).address, erc6551crunch::address::derive(&c, &NONCE, 3 + (1u64 << 48)).address);
}

#[test]
fn prefix_matching() {
    let addr = address_of("00ab12cdef0000000000000000000000000000ff");
    assert!(prefix_match(&addr, b"00ab1"));
    assert!(prefix_match(&addr, b""));
    assert!(!prefix_match(&addr, b"0ab"));
    assert!(!prefix_match(&addr, b"00AB"));
    assert!(prefix_match(&addr, b"00ab12cdef0000000000000000000000000000ff"));
    assert!(!prefix_match(&addr, b"00ab12cdef0000000000000000000000000000ff0"));
}

#[test]
fn contains_matching() {
    let addr = address_of("00ab12cdef0000000000000000000000000000ff");
    assert!(contains_match(&addr, b"cdef"));
    assert!(contains_match(&addr, b"00ff"));
    assert!(contains_match(&addr, b""));
    assert!(!contains_match(&addr, b"abc"));
    assert!(!contains_match(&addr, b"00ab12cdef0000000000000000000000000000ff0"));
}

#[test]
fn pattern_normalization() {
    assert_eq!(normalize_pattern(b"0xDEAD"), b"dead".to_vec());
    assert_eq!(normalize_pattern(b"0XBeef"), b"beef".to_vec());
    assert_eq!(normalize_pattern(b"00x1"), b"00x1".to_vec());
    assert_eq!(normalize_pattern(b""), Vec::<u8>::new());
}

#[test]
fn matcher_from_pattern() {
    let addr = address_of("00ab12cdef0000000000000000000000000000ff");
    let p = Matcher::from_pattern("0x00AB", false).unwrap();
    assert!(p.matches(&addr));
    let q = Matcher::from_pattern("CDEF", true).unwrap();
    assert!(q.matches(&addr));
    assert!(!Matcher::from_pattern("cdef", false).unwrap().matches(&addr));
    let long = "0".repeat(41);
    assert!(matches!(Matcher::from_pattern(&long, true), Err(ConfigError::PatternTooLong)));
    assert!(Matcher::from_pattern(&format!("0x{}", "0".repeat(40)), false).is_ok());
}

#[test]
fn reward_scoring() {
    let addr = address_of("1111221111000000000000000000000000000011");
    assert_eq!(reward_score(&addr), (2, 5));
    let all = [0x11u8; 20];
    assert_eq!(reward_score(&all), (21, 20));
    let none = [0u8; 20];
    assert_eq!(reward_score(&none), (0, 0));
}

#[test]
fn reward_lookup() {
    let table = Reward::new(vec![(45, 100), (45, 7), (440, 9)]);
    assert_eq!(table.get(45), Some(100));
    assert_eq!(table.get(46), None);
    let addr = address_of("1111221111000000000000000000000000000011");
    assert_eq!(table.reward_of(&addr), Some(100));
    assert_eq!(table.reward_of(&[0x11u8; 20]), Some(9));
    let two = address_of("1111000000000000000000000000000000000000");
    let t2 = Reward::new(vec![(42, 1)]);
    assert_eq!(t2.reward_of(&two), None);
    assert!(Matcher::Reward(table).matches(&addr));
}

#[test]
fn sweep_finds_prefix_hits() {
    let c = config();
    let m = Matcher::from_pattern("00", false).unwrap();
    let found = sweep(&c, &NONCE, &m, 0, 3000);
    let salts: Vec<u64> = found.iter().map(|r| r.salt).collect();
    assert_eq!(salts, vec![137, 908, 1463, 2122, 2421, 2905]);
}

#[test]
fn sweep_in_chunks_finds_same_set() {
    let c = config();
    let m = Matcher::from_pattern("abc", true).unwrap();
    let whole: Vec<u64> = sweep(&c, &NONCE, &m, 0, 1200).iter().map(|r| r.salt).collect();
    assert_eq!(&whole[..8], &[90, 219, 297, 526, 561, 720, 856, 997]);
    let mut parts: Vec<u64> = Vec::new();
    for (lo, hi) in [(700u64, 1200u64), (0, 250), (250, 700)] {
        parts.extend(sweep(&c, &NONCE, &m, lo, hi).iter().map(|r| r.salt));
    }
    parts.sort();
    assert_eq!(parts, whole);
    assert!(sweep(&c, &NONCE, &m, 10, 10).is_empty());
    assert!(sweep(&c, &NONCE, &m, 10, 5).is_empty());
}

#[test]
fn batch_respects_capacity() {
    let c = config();
    let all = Matcher::from_pattern("", true).unwrap();
    let out = run_batch(&c, &NONCE, &all, 0, 1000, 4);
    assert_eq!(out.matched, 1000);
    assert_eq!(out.results.len(), 4);
    assert_eq!(out.dropped, 996);
    for (i, r) in out.results.iter().enumerate() {
        assert_eq!(r.salt, i as u64);
        assert_eq!(r.address, erc6551crunch::address::derive(&c, &NONCE, i as u64).address);
    }
}

#[test]
fn batch_under_capacity_collects_all() {
    let c = config();
    let m = Matcher::from_pattern("abc", true).unwrap();
    let out = run_batch(&c, &NONCE, &m, 200, 400, 1024);
    let salts: Vec<u64> = out.results.iter().map(|r| r.salt).collect();
    assert_eq!(salts, vec![219, 297, 526, 561]);
    assert_eq!(out.matched, 4);
    assert_eq!(out.dropped, 0);
    let host = sweep(&c, &NONCE, &m, 200, 600);
    assert_eq!(out.results, host);
}

#[test]
fn batch_salts_wrap() {
    let c = config();
    let all = Matcher::from_pattern("", true).unwrap();
    let out = run_batch(&c, &NONCE, &all, u64::MAX, 2, 8);
    assert_eq!(out.results[0].salt, u64::MAX);
    assert_eq!(out.results[1].salt, 0);
}

#[test]
fn device_results_decode() {
    let c = config();
    assert_eq!(stored_count(-3, 4), 0);
    assert_eq!(stored_count(3, 4), 3);
    assert_eq!(stored_count(9, 4), 4);
    let salts = vec![5u64, 6];
    let mut addrs = vec![0u8; 40];
    addrs[20] = 0xaa;
    let mut hashes = vec![0u8; 64];
    hashes[63] = 0xbb;
    let out = decode_results(&c, &NONCE, 7, 2, &salts, &addrs, &hashes);
    assert_eq!(out.results.len(), 2);
    assert_eq!(out.matched, 7);
    assert_eq!(out.dropped, 5);
    assert_eq!(out.results[1].salt, 6);
    assert_eq!(out.results[1].address[0], 0xaa);
    assert_eq!(out.results[1].init_code_hash[31], 0xbb);
    assert_eq!(&out.results[1].create2_salt[20..], &[1, 2, 3, 4, 5, 6, 6, 0, 0, 0, 0, 0]);
    let empty = decode_results(&c, &NONCE, 0, 2, &[], &[], &[]);
    assert!(empty.results.is_empty());
    assert_eq!(empty.dropped, 0);
}

#[test]
fn cursor_advances_by_batch() {
    let mut cur = BatchCursor::new();
    cur.advance(1 << 22);
    cur.advance(1 << 22);
    assert_eq!(cur.salt_offset, 1 << 23);
    cur.salt_offset = u64::MAX;
    cur.advance(2);
    assert_eq!(cur.salt_offset, 1);
}

#[test]
fn log_line_format() {
    let c = config();
    let found = sweep(&c, &NONCE, &Matcher::from_pattern("00", false).unwrap(), 137, 138);
    let r: &MatchResult = &found[0];
    let line = String::from_utf8(r.log_line()).unwrap();
    assert_eq!(
        line,
        format!(
            "0x55266d75d1a14e4572138116af39863ed6596e7f010203040506{} => 0x{}",
            "890000000000",
            hex_text(&r.address)
        )
    );
}

#[test]
fn round_header_holds_its_nonce() {
    let c = config();
    let r = Round::new(&c);
    assert_eq!(r.header.len(), 47);
    assert_eq!(&r.header[41..], &r.nonce);
    let fixed = Round::with_nonce(&c, NONCE);
    assert_eq!(fixed.header, header(&c, &NONCE));
}

#[test]
fn end_to_end_prefix_search() {
    let c = config();
    let m = Matcher::from_pattern("00", false).unwrap();
    let round = Round::new(&c);
    let mut lo = 0u64;
    let found = loop {
        let hits = sweep(&c, &round.nonce, &m, lo, lo + 4096);
        if let Some(first) = hits.first() {
            break *first;
        }
        lo += 4096;
    };
    assert!(hex_text(&found.address).starts_with("00"));
    let again = erc6551crunch::address::derive(&c, &round.nonce, found.salt);
    assert_eq!(again.address, found.address);
    assert_eq!(again.init_code_hash, found.init_code_hash);
}

#[test]
fn decimal_text_of_amounts() {
    assert_eq!(to_decimal(0), b"0".to_vec());
    assert_eq!(to_decimal(907), b"907".to_vec());
    assert_eq!(to_decimal(u128::MAX), b"340282366920938463463374607431768211455".to_vec());
}

#[test]
fn id_parser_edges() {
    let mut ten = [0u8; 32];
    ten[31] = 10;
    assert_eq!(parse_id(b"+10"), Some(ten));
    assert_eq!(parse_id(b""), None);
    assert_eq!(parse_id(b"12a"), None);
    let mut big = [0u8; 32];
    big[0] = 1;
    assert_eq!(parse_id(b"452312848583266388373324160190187140051835877600158453279131187530910662656"), Some(big));
}

#[test]
fn reward_line_format() {
    let r = MatchResult {
        salt: 1,
        create2_salt: [0x11; 32],
        address: address_of("d8da6bf26964af9d7eed9e03e53415d37aa96045"),
        init_code_hash: [0x22; 32],
    };
    let line = String::from_utf8(r.reward_line(250)).unwrap();
    assert_eq!(
        line,
        format!(
            "salt: 0x{} => init_code_hash: 0x{} => address: 0xd8dA6BF26964aF9D7eEd9e03E53415D37aA96045 => reward: 250",
            "11".repeat(32),
            "22".repeat(32)
        )
    );
    let plain = String::from_utf8(r.reward_line_with(b"0xabc", 7)).unwrap();
    assert!(plain.ends_with("=> address: 0xabc => reward: 7"));
}

#[test]
fn config_error_messages() {
    assert_eq!(ConfigError::MissingRegistry.message(), "didn't get a resistry_address argument");
    assert_eq!(ConfigError::ChainIdNotDecimal.message(), "could not parse chain id as decimal integer");
}
