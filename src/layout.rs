use vstd::prelude::*;
use crate::config::Config;
use crate::decimal::p256;

verus! {

/// First byte of every CREATE2 input.
pub const CONTROL_CHARACTER: u8 = 0xff;

/// Largest salt the host sweep visits (48 bits).
pub const MAX_INCREMENTER: u64 = 0xffffffffffff;

/// The account proxy's constructor, up to the implementation address.
pub open spec fn constructor_header() -> Seq<u8> {
    seq![61u8, 96, 173, 128, 96, 10, 61, 57, 129, 243, 54, 61, 61, 55, 61, 61, 61, 54, 61, 115]
}

/// The account proxy's code after the implementation address.
pub open spec fn constructor_footer() -> Seq<u8> {
    seq![90u8, 244, 61, 130, 128, 62, 144, 61, 145, 96, 43, 87, 253, 91, 243]
}

/// The 47-byte header of the CREATE2 input:
/// control byte, registry, implementation, nonce.
pub open spec fn header_spec(c: Config, nonce: Seq<u8>) -> Seq<u8> {
    seq![CONTROL_CHARACTER] + c.resistry_address@ + c.implement_address@ + nonce
}

/// The first 55 bytes of the init code: constructor header,
/// implementation, constructor footer.
pub open spec fn code_header_spec(c: Config) -> Seq<u8> {
    constructor_header() + c.implement_address@ + constructor_footer()
}

/// The last 96 bytes of the init code: chain id, 12 zero bytes, NFT address,
/// token id.
pub open spec fn code_footer_spec(c: Config) -> Seq<u8> {
    c.chain_id@ + Seq::new(12, |i: int| 0u8) + c.nft_address@ + c.token_id@
}

/// The low `n` bytes of `v`, least significant first.
pub open spec fn le_bytes(v: nat, n: nat) -> Seq<u8>
    decreases n,
{
    if n == 0 {
        Seq::empty()
    } else {
        seq![(v % 256) as u8] + le_bytes(v / 256, (n - 1) as nat)
    }
}

/// The number that bytes `s` stand for, least significant first.
pub open spec fn le_value(s: Seq<u8>) -> nat
    decreases s.len(),
{
    if s.len() == 0 {
        0
    } else {
        s[0] as nat + 256 * le_value(s.drop_first())
    }
}

/// `le_bytes` gives `n` bytes.
pub proof fn le_bytes_len(v: nat, n: nat)
    ensures
        le_bytes(v, n).len() == n,
    decreases n,
{
    if n > 0 {
        le_bytes_len(v / 256, (n - 1) as nat);
    }
}

/// Reading bytes as a little-endian number and writing that number back
/// gives the same bytes.
pub proof fn le_bytes_of_value(s: Seq<u8>)
    ensures
        le_bytes(le_value(s), s.len()) == s,
        le_value(s) < p256(s.len()),
    decreases s.len(),
{
    if s.len() == 0 {
        assert(le_bytes(le_value(s), 0) =~= s);
    } else {
        let w = le_value(s.drop_first());
        let b = s[0] as nat;
        le_bytes_of_value(s.drop_first());
        assert((b + 256 * w) / 256 == w && (b + 256 * w) % 256 == b) by (nonlinear_arith)
            requires
                b < 256,
        ;
        let p = p256((s.len() - 1) as nat);
        assert(b + 256 * w < 256 * p) by (nonlinear_arith)
            requires
                b < 256,
                w < p,
        ;
        assert(seq![s[0]] + s.drop_first() =~= s);
    }
}

/// The six salt bytes: the low 48 bits of `salt`, little-endian.
pub open spec fn salt_bytes(salt: u64) -> Seq<u8> {
    le_bytes(salt as nat, 6)
}

/// The 183-byte init code whose hash enters the address.
pub open spec fn init_code_spec(c: Config, nonce: Seq<u8>, salt: u64) -> Seq<u8> {
    code_header_spec(c) + c.implement_address@ + nonce + salt_bytes(salt) + code_footer_spec(c)
}

/// The 85-byte CREATE2 input: header, salt bytes, init code hash.
pub open spec fn create2_input_spec(
    c: Config,
    nonce: Seq<u8>,
    salt: u64,
    init_code_hash: Seq<u8>,
) -> Seq<u8> {
    header_spec(c, nonce) + salt_bytes(salt) + init_code_hash
}

/// Appends all of `b` to `v`.
pub(crate) fn append_bytes(v: &mut Vec<u8>, b: &[u8])
    ensures
        final(v)@ == old(v)@ + b@,
{
    let mut i: usize = 0;
    while i < b.len()
        invariant
            i <= b@.len(),
            v@ == old(v)@ + b@.subrange(0, i as int),
        decreases b@.len() - i,
    {
        v.push(b[i]);
        i = i + 1;
        assert(v@ =~= old(v)@ + b@.subrange(0, i as int));
    }
    assert(b@.subrange(0, b@.len() as int) =~= b@);
}

/// The low `n` bytes of `v`, least significant first.
pub fn le_field(v: u64, n: usize) -> (r: Vec<u8>)
    ensures
        r@ == le_bytes(v as nat, n as nat),
        r@.len() == n,
    decreases n,
{
    if n == 0 {
        Vec::new()
    } else {
        let rest = le_field(v / 256, n - 1);
        let mut r: Vec<u8> = Vec::new();
        r.push((v % 256) as u8);
        append_bytes(&mut r, rest.as_slice());
        r
    }
}

/// The 47-byte CREATE2 header for `nonce`.
pub fn header(config: &Config, nonce: &[u8; 6]) -> (r: Vec<u8>)
    ensures
        r@ == header_spec(*config, nonce@),
        r@.len() == 47,
{
    let mut r: Vec<u8> = Vec::new();
    r.push(CONTROL_CHARACTER);
    append_bytes(&mut r, config.resistry_address.as_slice());
    append_bytes(&mut r, config.implement_address.as_slice());
    append_bytes(&mut r, nonce.as_slice());
    assert(r@ =~= header_spec(*config, nonce@));
    r
}

/// The 55 bytes that open the init code.
pub fn code_header(config: &Config) -> (r: Vec<u8>)
    ensures
        r@ == code_header_spec(*config),
        r@.len() == 55,
{
    let mut r: Vec<u8> = vec![61u8, 96, 173, 128, 96, 10, 61, 57, 129, 243, 54, 61, 61, 55, 61, 61, 61, 54, 61, 115];
    assert(r@ =~= constructor_header());
    append_bytes(&mut r, config.implement_address.as_slice());
    let footer: Vec<u8> = vec![90u8, 244, 61, 130, 128, 62, 144, 61, 145, 96, 43, 87, 253, 91, 243];
    assert(footer@ =~= constructor_footer());
    append_bytes(&mut r, footer.as_slice());
    r
}

/// The 96 bytes that close the init code.
pub fn code_footer(config: &Config) -> (r: Vec<u8>)
    ensures
        r@ == code_footer_spec(*config),
        r@.len() == 96,
{
    let mut r: Vec<u8> = Vec::new();
    append_bytes(&mut r, config.chain_id.as_slice());
    let zeros: Vec<u8> = vec![0u8; 12];
    assert(zeros@ =~= Seq::new(12, |i: int| 0u8));
    append_bytes(&mut r, zeros.as_slice());
    append_bytes(&mut r, config.nft_address.as_slice());
    append_bytes(&mut r, config.token_id.as_slice());
    r
}

/// The 183-byte init code for `nonce` and `salt`.
pub fn init_code(config: &Config, nonce: &[u8; 6], salt: u64) -> (r: Vec<u8>)
    ensures
        r@ == init_code_spec(*config, nonce@, salt),
        r@.len() == 183,
{
    let mut r = code_header(config);
    append_bytes(&mut r, config.implement_address.as_slice());
    append_bytes(&mut r, nonce.as_slice());
    let s = le_field(salt, 6);
    append_bytes(&mut r, s.as_slice());
    let f = code_footer(config);
    append_bytes(&mut r, f.as_slice());
    r
}

/// The 85-byte CREATE2 input for `nonce`, `salt` and the init code hash.
pub fn create2_input(config: &Config, nonce: &[u8; 6], salt: u64, init_code_hash: &[u8; 32]) -> (r:
    Vec<u8>)
    ensures
        r@ == create2_input_spec(*config, nonce@, salt, init_code_hash@),
        r@.len() == 85,
{
    let mut r = header(config, nonce);
    let s = le_field(salt, 6);
    append_bytes(&mut r, s.as_slice());
    append_bytes(&mut r, init_code_hash.as_slice());
    r
}

} // verus!
