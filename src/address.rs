use vstd::prelude::*;
use crate::config::Config;
use crate::keccak::{keccak256, keccak256_of};
use crate::layout::{create2_input, create2_input_spec, init_code, init_code_spec};

verus! {

/// What one candidate salt yields: the init code hash and the account address.
#[derive(Clone, Copy, Debug, PartialEq, Eq)]
pub struct Derived {
    pub init_code_hash: [u8; 32],
    pub address: [u8; 20],
}

/// Keccak-256 of the init code for `nonce` and `salt`.
pub open spec fn init_code_hash_spec(c: Config, nonce: Seq<u8>, salt: u64) -> Seq<u8> {
    keccak256_of(init_code_spec(c, nonce, salt))
}

/// The CREATE2 address for `nonce` and `salt`: the low 20 bytes of the
/// Keccak-256 of the CREATE2 input.
pub open spec fn address_spec(c: Config, nonce: Seq<u8>, salt: u64) -> Seq<u8> {
    keccak256_of(create2_input_spec(c, nonce, salt, init_code_hash_spec(c, nonce, salt))).subrange(
        12,
        32,
    )
}

/// Derives the init code hash and the address for one salt.
pub fn derive(config: &Config, nonce: &[u8; 6], salt: u64) -> (r: Derived)
    ensures
        r.init_code_hash@ == init_code_hash_spec(*config, nonce@, salt),
        r.address@ == address_spec(*config, nonce@, salt),
{
    let code = init_code(config, nonce, salt);
    let init_code_hash = keccak256(code.as_slice());
    let input = create2_input(config, nonce, salt, &init_code_hash);
    let digest = keccak256(input.as_slice());
    let mut address = [0u8; 20];
    let mut i: usize = 0;
    while i < 20
        invariant
            i <= 20,
            digest@.len() == 32,
            forall|j: int| 0 <= j < i ==> address@[j] == digest@[12 + j],
        decreases 20 - i,
    {
        address[i] = digest[12 + i];
        i = i + 1;
    }
    assert(address@ =~= digest@.subrange(12, 32));
    Derived { init_code_hash, address }
}

/// Derivation is a function of its inputs: equal configuration, nonce and
/// salt give the same init code hash and the same address.
pub proof fn derive_is_deterministic(
    c1: Config,
    n1: Seq<u8>,
    s1: u64,
    c2: Config,
    n2: Seq<u8>,
    s2: u64,
)
    requires
        c1 == c2,
        n1 == n2,
        s1 == s2,
    ensures
        init_code_hash_spec(c1, n1, s1) == init_code_hash_spec(c2, n2, s2),
        address_spec(c1, n1, s1) == address_spec(c2, n2, s2),
{
}

} // verus!
