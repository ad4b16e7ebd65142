use vstd::prelude::*;
use vstd::string::StringSliceAdditionalSpecFns;
use crate::decimal::{be_bytes, decimal_value, is_id_text, parse_id, unsigned_digits};
use crate::hex::{decode_hex, hex_decoded, is_hex_text};

verus! {

/// The fixed inputs of a search: the registry that deploys the account, the
/// account implementation, and the token the account is bound to.
pub struct Config {
    pub resistry_address: [u8; 20],
    pub implement_address: [u8; 20],
    /// The chain id, big-endian in a 32-byte field.
    pub chain_id: [u8; 32],
    pub nft_address: [u8; 20],
    /// The token id, big-endian in a 32-byte field.
    pub token_id: [u8; 32],
}

/// Why a set of arguments does not make a `Config`.
#[derive(Clone, Copy, Debug, PartialEq, Eq, Structural)]
pub enum ConfigError {
    MissingRegistry,
    MissingImplementation,
    MissingChainId,
    MissingNft,
    MissingTokenId,
    RegistryNotHex,
    ImplementationNotHex,
    NftNotHex,
    RegistryLength,
    ImplementationLength,
    ChainIdNotDecimal,
    NftLength,
    TokenIdNotDecimal,
    PatternTooLong,
}

/// The description of each error.
pub open spec fn message_text(e: ConfigError) -> Seq<char> {
    match e {
        ConfigError::MissingRegistry => "didn't get a resistry_address argument"@,
        ConfigError::MissingImplementation => "didn't get a implement_address argument"@,
        ConfigError::MissingChainId => "didn't get a chain_id argument"@,
        ConfigError::MissingNft => "didn't get a nft_address argument"@,
        ConfigError::MissingTokenId => "didn't get a token_id argument"@,
        ConfigError::RegistryNotHex => "could not decode resistry address argument"@,
        ConfigError::ImplementationNotHex => "could not decode implement address argument"@,
        ConfigError::NftNotHex => "could not decode nft address argument"@,
        ConfigError::RegistryLength => "invalid length for resistry address argument"@,
        ConfigError::ImplementationLength => "invalid length for implement address argument"@,
        ConfigError::ChainIdNotDecimal => "could not parse chain id as decimal integer"@,
        ConfigError::NftLength => "invalid length for nft address argument"@,
        ConfigError::TokenIdNotDecimal => "could not parse token id as decimal integer"@,
        ConfigError::PatternTooLong => "pattern is longer than an address (40 hex characters)"@,
    }
}

impl ConfigError {
    /// A one-line description for the user.
    pub fn message(&self) -> (r: &'static str)
        ensures
            r@ == message_text(*self),
    {
        match self {
            ConfigError::MissingRegistry => "didn't get a resistry_address argument",
            ConfigError::MissingImplementation => "didn't get a implement_address argument",
            ConfigError::MissingChainId => "didn't get a chain_id argument",
            ConfigError::MissingNft => "didn't get a nft_address argument",
            ConfigError::MissingTokenId => "didn't get a token_id argument",
            ConfigError::RegistryNotHex => "could not decode resistry address argument",
            ConfigError::ImplementationNotHex => "could not decode implement address argument",
            ConfigError::NftNotHex => "could not decode nft address argument",
            ConfigError::RegistryLength => "invalid length for resistry address argument",
            ConfigError::ImplementationLength => "invalid length for implement address argument",
            ConfigError::ChainIdNotDecimal => "could not parse chain id as decimal integer",
            ConfigError::NftLength => "invalid length for nft address argument",
            ConfigError::TokenIdNotDecimal => "could not parse token id as decimal integer",
            ConfigError::PatternTooLong => "pattern is longer than an address (40 hex characters)",
        }
    }
}

/// The UTF-8 bytes of argument `i`.
pub open spec fn arg(args: Seq<String>, i: int) -> Seq<u8> {
    vstd::utf8::encode_utf8(args[i]@)
}

/// The first problem found in `args` (the program name, then registry,
/// implementation, chain id, NFT address and token id), in the order the
/// arguments are checked; `None` when they make a `Config`.
pub open spec fn config_error(args: Seq<String>) -> Option<ConfigError> {
    if args.len() < 2 {
        Some(ConfigError::MissingRegistry)
    } else if args.len() < 3 {
        Some(ConfigError::MissingImplementation)
    } else if args.len() < 4 {
        Some(ConfigError::MissingChainId)
    } else if args.len() < 5 {
        Some(ConfigError::MissingNft)
    } else if args.len() < 6 {
        Some(ConfigError::MissingTokenId)
    } else if !is_hex_text(arg(args, 1)) {
        Some(ConfigError::RegistryNotHex)
    } else if !is_hex_text(arg(args, 2)) {
        Some(ConfigError::ImplementationNotHex)
    } else if !is_hex_text(arg(args, 4)) {
        Some(ConfigError::NftNotHex)
    } else if hex_decoded(arg(args, 1)).len() != 20 {
        Some(ConfigError::RegistryLength)
    } else if hex_decoded(arg(args, 2)).len() != 20 {
        Some(ConfigError::ImplementationLength)
    } else if !is_id_text(arg(args, 3)) {
        Some(ConfigError::ChainIdNotDecimal)
    } else if hex_decoded(arg(args, 4)).len() != 20 {
        Some(ConfigError::NftLength)
    } else if !is_id_text(arg(args, 5)) {
        Some(ConfigError::TokenIdNotDecimal)
    } else {
        None
    }
}

/// A 32-byte field holding decimal text `s` big-endian.
pub open spec fn id_field(s: Seq<u8>) -> Seq<u8> {
    be_bytes(decimal_value(unsigned_digits(s)), 32)
}

/// Copies a slice of length `N` into an array.
pub fn to_array<const N: usize>(v: &[u8]) -> (r: [u8; N])
    requires
        v@.len() == N,
    ensures
        r@ == v@,
{
    let mut r = [0u8; N];
    let mut i: usize = 0;
    while i < N
        invariant
            v@.len() == N,
            i <= N,
            forall|j: int| 0 <= j < i ==> r@[j] == v@[j],
        decreases N - i,
    {
        r[i] = v[i];
        i = i + 1;
    }
    assert(r@ =~= v@);
    r
}

impl Config {
    /// Reads a configuration from the program's arguments: the program name,
    /// then registry, implementation and NFT addresses in hex (20 bytes each)
    /// and chain and token ids in decimal (below 2^256).
    pub fn new(args: Vec<String>) -> (r: Result<Config, ConfigError>)
        ensures
            r is Err <==> config_error(args@) is Some,
            r is Err ==> r->Err_0 == config_error(args@)->0,
            r is Ok ==> ({
                let c = r->Ok_0;
                &&& c.resistry_address@ == hex_decoded(arg(args@, 1))
                &&& c.implement_address@ == hex_decoded(arg(args@, 2))
                &&& c.chain_id@ == id_field(arg(args@, 3))
                &&& c.nft_address@ == hex_decoded(arg(args@, 4))
                &&& c.token_id@ == id_field(arg(args@, 5))
            }),
    {
        if args.len() < 2 {
            return Err(ConfigError::MissingRegistry);
        }
        if args.len() < 3 {
            return Err(ConfigError::MissingImplementation);
        }
        if args.len() < 4 {
            return Err(ConfigError::MissingChainId);
        }
        if args.len() < 5 {
            return Err(ConfigError::MissingNft);
        }
        if args.len() < 6 {
            return Err(ConfigError::MissingTokenId);
        }
        let registry_text = args[1].as_str();
        let implement_text = args[2].as_str();
        let chain_text = args[3].as_str();
        let nft_text = args[4].as_str();
        let token_text = args[5].as_str();
        let registry_vec = match decode_hex(registry_text.as_bytes()) {
            Some(v) => v,
            None => {
                return Err(ConfigError::RegistryNotHex);
            },
        };
        let implement_vec = match decode_hex(implement_text.as_bytes()) {
            Some(v) => v,
            None => {
                return Err(ConfigError::ImplementationNotHex);
            },
        };
        let nft_vec = match decode_hex(nft_text.as_bytes()) {
            Some(v) => v,
            None => {
                return Err(ConfigError::NftNotHex);
            },
        };
        if registry_vec.len() != 20 {
            return Err(ConfigError::RegistryLength);
        }
        if implement_vec.len() != 20 {
            return Err(ConfigError::ImplementationLength);
        }
        let chain_id = match parse_id(chain_text.as_bytes()) {
            Some(v) => v,
            None => {
                return Err(ConfigError::ChainIdNotDecimal);
            },
        };
        if nft_vec.len() != 20 {
            return Err(ConfigError::NftLength);
        }
        let token_id = match parse_id(token_text.as_bytes()) {
            Some(v) => v,
            None => {
                return Err(ConfigError::TokenIdNotDecimal);
            },
        };
        Ok(Config {
            resistry_address: to_array(registry_vec.as_slice()),
            implement_address: to_array(implement_vec.as_slice()),
            chain_id,
            nft_address: to_array(nft_vec.as_slice()),
            token_id,
        })
    }
}

} // verus!
