use vstd::prelude::*;
use crate::config::{to_array, Config};
use crate::address::{address_spec, init_code_hash_spec, Derived};
use crate::decimal::{decimal_text, to_decimal};
use crate::hex::{encode_hex, hex_of};
use crate::decimal::p256;
use crate::layout::{
    append_bytes, header, header_spec, le_bytes_len, le_bytes_of_value, le_field, le_value, salt_bytes,
};
use crate::matcher::{matches_spec, Matcher};

verus! {

/// A found account: its salt, the full 32-byte CREATE2 salt, the address and
/// the init code hash.
#[derive(Clone, Copy, Debug, PartialEq, Eq)]
pub struct MatchResult {
    pub salt: u64,
    pub create2_salt: [u8; 32],
    pub address: [u8; 20],
    pub init_code_hash: [u8; 32],
}

/// The 32-byte CREATE2 salt: implementation address, nonce, salt bytes.
pub open spec fn create2_salt_spec(c: Config, nonce: Seq<u8>, salt: u64) -> Seq<u8> {
    c.implement_address@ + nonce + salt_bytes(salt)
}

/// Whether `r` is what `salt` derives to under `c` and `nonce`.
pub open spec fn result_for(c: Config, nonce: Seq<u8>, salt: u64, r: MatchResult) -> bool {
    &&& r.salt == salt
    &&& r.create2_salt@ == create2_salt_spec(c, nonce, salt)
    &&& r.address@ == address_spec(c, nonce, salt)
    &&& r.init_code_hash@ == init_code_hash_spec(c, nonce, salt)
}

/// A logged result can be reproduced offline from its 32-byte CREATE2 salt
/// alone: its first 20 bytes are the implementation, the next 6 the nonce,
/// and the last 6 the salt, little-endian; deriving again from that nonce and
/// salt gives the logged address and init code hash.
pub proof fn logged_salt_reproduces_result(c: Config, nonce: Seq<u8>, salt: u64, r: MatchResult)
    requires
        nonce.len() == 6,
        result_for(c, nonce, salt, r),
    ensures
        r.create2_salt@.subrange(0, 20) == c.implement_address@,
        r.create2_salt@.subrange(20, 26) == nonce,
        le_value(r.create2_salt@.subrange(26, 32)) <= u64::MAX,
        address_spec(
            c,
            r.create2_salt@.subrange(20, 26),
            le_value(r.create2_salt@.subrange(26, 32)) as u64,
        ) == r.address@,
        init_code_hash_spec(
            c,
            r.create2_salt@.subrange(20, 26),
            le_value(r.create2_salt@.subrange(26, 32)) as u64,
        ) == r.init_code_hash@,
{
    let f = r.create2_salt@;
    let sb = salt_bytes(salt);
    le_bytes_len(salt as nat, 6);
    assert(f.subrange(0, 20) =~= c.implement_address@);
    assert(f.subrange(20, 26) =~= nonce);
    assert(f.subrange(26, 32) =~= sb);
    le_bytes_of_value(sb);
    assert(p256(0) == 1);
    assert(p256(1) == 256);
    assert(p256(2) == 65536);
    assert(p256(3) == 16777216);
    assert(p256(4) == 4294967296);
    assert(p256(5) == 1099511627776);
    assert(p256(6) == 281474976710656);
    let back = le_value(sb) as u64;
    assert(salt_bytes(back) == sb);
}

/// Whether `salt` yields an address that meets `m`.
pub open spec fn is_hit(c: Config, nonce: Seq<u8>, m: Matcher, salt: u64) -> bool {
    matches_spec(m, address_spec(c, nonce, salt))
}

/// The salts in `[lo, hi)` whose address meets `m`, in increasing order.
pub open spec fn hits(c: Config, nonce: Seq<u8>, m: Matcher, lo: int, hi: int) -> Seq<u64>
    decreases hi - lo,
{
    if hi <= lo {
        Seq::empty()
    } else {
        let h = hits(c, nonce, m, lo, hi - 1);
        if is_hit(c, nonce, m, (hi - 1) as u64) {
            h.push((hi - 1) as u64)
        } else {
            h
        }
    }
}

/// The hits of consecutive chunks `[b[0], b[1])`, `[b[1], b[2])`, ...,
/// one after the other.
pub open spec fn chunked_hits(c: Config, nonce: Seq<u8>, m: Matcher, b: Seq<int>) -> Seq<u64>
    decreases b.len(),
{
    if b.len() < 2 {
        Seq::empty()
    } else {
        chunked_hits(c, nonce, m, b.drop_last()) + hits(c, nonce, m, b[b.len() - 2], b.last())
    }
}

/// The salt of lane `lane` of a batch that starts at `offset` (64-bit wrapping).
pub open spec fn lane_salt(offset: u64, lane: int) -> u64 {
    if offset + lane > u64::MAX {
        (offset + lane - 0x1_0000_0000_0000_0000) as u64
    } else {
        (offset + lane) as u64
    }
}

/// The salts of the first `k` lanes whose address meets `m`, in lane order.
pub open spec fn lane_hits(c: Config, nonce: Seq<u8>, m: Matcher, offset: u64, k: int) -> Seq<u64>
    decreases k,
{
    if k <= 0 {
        Seq::empty()
    } else {
        let h = lane_hits(c, nonce, m, offset, k - 1);
        if is_hit(c, nonce, m, lane_salt(offset, k - 1)) {
            h.push(lane_salt(offset, k - 1))
        } else {
            h
        }
    }
}

/// Sweeping `[lo, hi)` finds the hits of `[lo, mid)` followed by those of
/// `[mid, hi)`.
pub proof fn hits_split(c: Config, nonce: Seq<u8>, m: Matcher, lo: int, mid: int, hi: int)
    requires
        lo <= mid <= hi,
    ensures
        hits(c, nonce, m, lo, hi) == hits(c, nonce, m, lo, mid) + hits(c, nonce, m, mid, hi),
    decreases hi - mid,
{
    if hi == mid {
        assert(hits(c, nonce, m, lo, mid) + hits(c, nonce, m, mid, hi) =~= hits(c, nonce, m, lo, mid));
    } else {
        hits_split(c, nonce, m, lo, mid, hi - 1);
        if is_hit(c, nonce, m, (hi - 1) as u64) {
            assert(hits(c, nonce, m, lo, hi) =~= hits(c, nonce, m, lo, mid) + hits(c, nonce, m, mid, hi));
        } else {
            assert(hits(c, nonce, m, lo, hi) =~= hits(c, nonce, m, lo, mid) + hits(c, nonce, m, mid, hi));
        }
    }
}

/// A salt is among the hits of `[lo, hi)` exactly when it lies in the range
/// and its address meets the rule.
pub proof fn hits_members(c: Config, nonce: Seq<u8>, m: Matcher, lo: int, hi: int, s: u64)
    requires
        0 <= lo,
        hi <= u64::MAX + 1,
    ensures
        hits(c, nonce, m, lo, hi).contains(s) <==> (lo <= s < hi && is_hit(c, nonce, m, s)),
    decreases hi - lo,
{
    if hi > lo {
        hits_members(c, nonce, m, lo, hi - 1, s);
        let h = hits(c, nonce, m, lo, hi - 1);
        if is_hit(c, nonce, m, (hi - 1) as u64) {
            let x = (hi - 1) as u64;
            let h2 = h.push(x);
            assert(h2[h.len() as int] == x);
            if h2.contains(s) {
                let k = choose|k: int| 0 <= k < h2.len() && #[trigger] h2[k] == s;
                if k < h.len() {
                    assert(h[k] == s);
                }
            }
            if h.contains(s) {
                let k = choose|k: int| 0 <= k < h.len() && #[trigger] h[k] == s;
                assert(h2[k] == s);
            }
        }
    }
}

/// Sweeping the range `[b[0], b.last())` in consecutive chunks, on any number
/// of workers and in any order, finds the same set of salts as one sweep of
/// the whole range: exactly the salts in range whose address meets the rule.
pub proof fn chunked_sweep_finds_same_set(c: Config, nonce: Seq<u8>, m: Matcher, b: Seq<int>)
    requires
        b.len() >= 1,
        forall|i: int| 0 <= i < b.len() - 1 ==> b[i] <= #[trigger] b[i + 1],
        0 <= b[0],
        b.last() <= u64::MAX + 1,
    ensures
        chunked_hits(c, nonce, m, b) == hits(c, nonce, m, b[0], b.last()),
        chunked_hits(c, nonce, m, b).to_set() == hits(c, nonce, m, b[0], b.last()).to_set(),
        forall|s: u64|
            #[trigger] chunked_hits(c, nonce, m, b).contains(s) <==> (b[0] <= s < b.last()
                && is_hit(c, nonce, m, s)),
    decreases b.len(),
{
    if b.len() == 1 {
        assert(hits(c, nonce, m, b[0], b.last()) =~= Seq::empty());
    } else {
        let p = b.drop_last();
        assert forall|i: int| 0 <= i < p.len() - 1 implies p[i] <= #[trigger] p[i + 1] by {
            assert(b[i] <= b[i + 1]);
        }
        assert(p[0] <= p.last()) by {
            chain_bounds(b, p.len() - 1);
        }
        assert(b[b.len() - 2] <= b.last()) by {
            assert(b[b.len() - 2] <= b[b.len() - 2 + 1]);
        }
        chunked_sweep_finds_same_set(c, nonce, m, p);
        hits_split(c, nonce, m, b[0], b[b.len() - 2], b.last());
    }
    assert forall|s: u64|
        #[trigger] chunked_hits(c, nonce, m, b).contains(s) <==> (b[0] <= s < b.last() && is_hit(
            c,
            nonce,
            m,
            s,
        )) by {
        hits_members(c, nonce, m, b[0], b.last(), s);
        assert(chunked_hits(c, nonce, m, b) == hits(c, nonce, m, b[0], b.last()));
    }
}

/// A batch of `k` lanes that starts at `offset` and does not wrap finds the
/// same salts, in the same order, as a host sweep of `[offset, offset + k)`.
pub proof fn batch_agrees_with_sweep(c: Config, nonce: Seq<u8>, m: Matcher, offset: u64, k: int)
    requires
        0 <= k,
        offset + k <= u64::MAX + 1,
    ensures
        lane_hits(c, nonce, m, offset, k) == hits(c, nonce, m, offset as int, offset + k),
    decreases k,
{
    if k > 0 {
        batch_agrees_with_sweep(c, nonce, m, offset, k - 1);
        assert(lane_salt(offset, k - 1) == (offset + k - 1) as u64);
    }
}

/// Chunk bounds that never decrease stay at or above the first one.
proof fn chain_bounds(b: Seq<int>, k: int)
    requires
        0 <= k < b.len(),
        forall|i: int| 0 <= i < b.len() - 1 ==> b[i] <= #[trigger] b[i + 1],
    ensures
        b[0] <= b[k],
    decreases k,
{
    if k > 0 {
        chain_bounds(b, k - 1);
        assert(b[k - 1] <= b[k - 1 + 1]);
    }
}

/// The EIP-55 mixed-case spelling of an address, with its `0x` prefix.
pub uninterp spec fn checksum_of(address: Seq<u8>) -> Seq<u8>;

/// Relies on alloy_primitives' `Address::to_checksum(None)`: the EIP-55
/// spelling of the address (no chain id), a function of its 20 bytes.
#[verifier::external_body]
fn checksum_text(address: &[u8; 20]) -> (r: Vec<u8>)
    ensures
        r@ == checksum_of(address@),
{
    alloy_primitives::Address::from(*address).to_checksum(None).into_bytes()
}

/// The reward log line: `salt: 0x<create2 salt hex> => init_code_hash:
/// 0x<hash hex> => address: <address> => reward: <amount>`.
pub open spec fn reward_line_spec(r: MatchResult, address_text: Seq<u8>, amount: u128) -> Seq<u8> {
    seq![115u8, 97, 108, 116, 58, 32, 48, 120] + hex_of(r.create2_salt@) + seq![32u8, 61, 62, 32, 105, 110, 105, 116, 95, 99, 111, 100, 101, 95, 104, 97, 115, 104, 58, 32, 48, 120] + hex_of(r.init_code_hash@)
        + seq![32u8, 61, 62, 32, 97, 100, 100, 114, 101, 115, 115, 58, 32] + address_text + seq![32u8, 61, 62, 32, 114, 101, 119, 97, 114, 100, 58, 32] + decimal_text(amount as nat)
}

/// Relies on alloy_primitives' `FixedBytes::<6>::random`: six bytes from the
/// system's cryptographic generator. Nothing is known of their value.
#[verifier::external_body]
fn random_nonce() -> (r: [u8; 6]) {
    alloy_primitives::FixedBytes::<6>::random().0
}

/// The nonce of one round (host) or one batch (accelerator), with the
/// CREATE2 header it gives.
pub struct Round {
    pub nonce: [u8; 6],
    pub header: Vec<u8>,
}

impl Round {
    /// A round under a fresh random nonce.
    pub fn new(config: &Config) -> (r: Round)
        ensures
            r.header@ == header_spec(*config, r.nonce@),
            r.header@.len() == 47,
    {
        let nonce = random_nonce();
        Round::with_nonce(config, nonce)
    }

    /// The round for a given nonce.
    pub fn with_nonce(config: &Config, nonce: [u8; 6]) -> (r: Round)
        ensures
            r.nonce == nonce,
            r.header@ == header_spec(*config, nonce@),
            r.header@.len() == 47,
    {
        let header = header(config, &nonce);
        Round { nonce, header }
    }
}

/// Copies `N` bytes of `src` from `start` into an array.
pub fn array_at<const N: usize>(src: &[u8], start: usize) -> (r: [u8; N])
    requires
        start + N <= src@.len(),
    ensures
        r@ == src@.subrange(start as int, start + N),
{
    let mut r = [0u8; N];
    let len = src.len();
    let mut i: usize = 0;
    while i < N
        invariant
            start + N <= src@.len(),
            len == src@.len(),
            i <= N,
            forall|j: int| 0 <= j < i ==> r@[j] == src@[start + j],
        decreases N - i,
    {
        r[i] = src[start + i];
        i = i + 1;
    }
    assert(r@ =~= src@.subrange(start as int, start + N));
    r
}

/// The 32-byte CREATE2 salt of `salt` under `nonce`.
pub fn create2_salt(config: &Config, nonce: &[u8; 6], salt: u64) -> (r: [u8; 32])
    ensures
        r@ == create2_salt_spec(*config, nonce@, salt),
{
    let mut v: Vec<u8> = Vec::new();
    let mut i: usize = 0;
    while i < 20
        invariant
            i <= 20,
            v@ == config.implement_address@.subrange(0, i as int),
        decreases 20 - i,
    {
        v.push(config.implement_address[i]);
        i = i + 1;
        assert(v@ =~= config.implement_address@.subrange(0, i as int));
    }
    let mut k: usize = 0;
    while k < 6
        invariant
            k <= 6,
            v@ == config.implement_address@ + nonce@.subrange(0, k as int),
        decreases 6 - k,
    {
        v.push(nonce[k]);
        k = k + 1;
        assert(v@ =~= config.implement_address@ + nonce@.subrange(0, k as int));
    }
    let s = le_field(salt, 6);
    let mut t: usize = 0;
    while t < 6
        invariant
            t <= 6,
            s@.len() == 6,
            v@ == config.implement_address@ + nonce@ + s@.subrange(0, t as int),
        decreases 6 - t,
    {
        v.push(s[t]);
        t = t + 1;
        assert(v@ =~= config.implement_address@ + nonce@ + s@.subrange(0, t as int));
    }
    assert(nonce@.subrange(0, 6) =~= nonce@);
    assert(s@.subrange(0, 6) =~= s@);
    to_array(v.as_slice())
}

/// The result record for a salt whose derivation is `d`.
fn result_of(config: &Config, nonce: &[u8; 6], salt: u64, d: &Derived) -> (r: MatchResult)
    requires
        d.address@ == address_spec(*config, nonce@, salt),
        d.init_code_hash@ == init_code_hash_spec(*config, nonce@, salt),
    ensures
        result_for(*config, nonce@, salt, r),
{
    MatchResult {
        salt,
        create2_salt: create2_salt(config, nonce, salt),
        address: d.address,
        init_code_hash: d.init_code_hash,
    }
}

/// Checks every salt in `[lo, hi)` under `nonce` and returns, in salt order,
/// the results of those whose address meets `matcher`.
pub fn sweep(config: &Config, nonce: &[u8; 6], matcher: &Matcher, lo: u64, hi: u64) -> (r: Vec<
    MatchResult,
>)
    ensures
        r@.len() == hits(*config, nonce@, *matcher, lo as int, hi as int).len(),
        forall|i: int|
            0 <= i < r@.len() ==> result_for(
                *config,
                nonce@,
                hits(*config, nonce@, *matcher, lo as int, hi as int)[i],
                #[trigger] r@[i],
            ),
{
    let mut out: Vec<MatchResult> = Vec::new();
    if hi <= lo {
        return out;
    }
    let mut salt: u64 = lo;
    while salt < hi
        invariant
            lo <= salt <= hi,
            out@.len() == hits(*config, nonce@, *matcher, lo as int, salt as int).len(),
            forall|i: int|
                0 <= i < out@.len() ==> result_for(
                    *config,
                    nonce@,
                    hits(*config, nonce@, *matcher, lo as int, salt as int)[i],
                    #[trigger] out@[i],
                ),
        decreases hi - salt,
    {
        let d = crate::address::derive(config, nonce, salt);
        if matcher.matches(&d.address) {
            out.push(result_of(config, nonce, salt, &d));
        }
        salt = salt + 1;
    }
    out
}

/// What one accelerator batch yields: the results kept, the number of lanes
/// that matched, and how many matches did not fit.
pub struct BatchOutcome {
    pub results: Vec<MatchResult>,
    pub matched: u64,
    pub dropped: u64,
}

/// Runs one batch of `batch_size` lanes, lane `i` on salt
/// `salt_offset + i`, collecting as the device does: each matching lane takes
/// the next slot number, and writes its result only when that slot is below
/// `capacity`.
pub fn run_batch(
    config: &Config,
    nonce: &[u8; 6],
    matcher: &Matcher,
    salt_offset: u64,
    batch_size: u64,
    capacity: usize,
) -> (r: BatchOutcome)
    ensures
        r.matched == lane_hits(*config, nonce@, *matcher, salt_offset, batch_size as int).len(),
        r.results@.len() == if r.matched <= capacity {
            r.matched as int
        } else {
            capacity as int
        },
        r.dropped == r.matched - r.results@.len(),
        forall|i: int|
            0 <= i < r.results@.len() ==> result_for(
                *config,
                nonce@,
                lane_hits(*config, nonce@, *matcher, salt_offset, batch_size as int)[i],
                #[trigger] r.results@[i],
            ),
{
    let mut results: Vec<MatchResult> = Vec::new();
    let mut counter: u64 = 0;
    let mut lane: u64 = 0;
    while lane < batch_size
        invariant
            lane <= batch_size,
            counter == lane_hits(*config, nonce@, *matcher, salt_offset, lane as int).len(),
            counter <= lane,
            results@.len() == if counter <= capacity {
                counter as int
            } else {
                capacity as int
            },
            forall|i: int|
                0 <= i < results@.len() ==> result_for(
                    *config,
                    nonce@,
                    lane_hits(*config, nonce@, *matcher, salt_offset, lane as int)[i],
                    #[trigger] results@[i],
                ),
        decreases batch_size - lane,
    {
        let salt = salt_offset.wrapping_add(lane);
        assert(salt == lane_salt(salt_offset, lane as int));
        let d = crate::address::derive(config, nonce, salt);
        if matcher.matches(&d.address) {
            let slot = counter;
            counter = counter + 1;
            if slot < capacity as u64 {
                results.push(result_of(config, nonce, salt, &d));
            }
        }
        lane = lane + 1;
    }
    let dropped = counter - results.len() as u64;
    BatchOutcome { results, matched: counter, dropped }
}

/// The number of results a device batch stored, from its raw counter.
pub open spec fn stored_spec(count: i32, capacity: usize) -> int {
    if count <= 0 {
        0
    } else if count as int > capacity as int {
        capacity as int
    } else {
        count as int
    }
}

/// The number of results a device batch stored: its counter, at most
/// `capacity`, and none for a counter that is not positive.
pub fn stored_count(count: i32, capacity: usize) -> (r: usize)
    ensures
        r == stored_spec(count, capacity),
{
    if count <= 0 {
        0
    } else if count as usize > capacity {
        capacity
    } else {
        count as usize
    }
}

/// Decodes the results a device batch stored under `nonce`: salt `i` is
/// `salts[i]`, its address `addrs[20 i .. 20 i + 20]` and its init code hash
/// `hashes[32 i .. 32 i + 32]`.
pub fn decode_results(
    config: &Config,
    nonce: &[u8; 6],
    count: i32,
    capacity: usize,
    salts: &[u64],
    addrs: &[u8],
    hashes: &[u8],
) -> (r: BatchOutcome)
    requires
        salts@.len() >= stored_spec(count, capacity),
        addrs@.len() >= 20 * stored_spec(count, capacity),
        hashes@.len() >= 32 * stored_spec(count, capacity),
    ensures
        r.results@.len() == stored_spec(count, capacity),
        r.matched == if count <= 0 {
            0
        } else {
            count as int
        },
        r.dropped == r.matched - r.results@.len(),
        forall|i: int|
            0 <= i < r.results@.len() ==> {
                let x = #[trigger] r.results@[i];
                &&& x.salt == salts@[i]
                &&& x.create2_salt@ == create2_salt_spec(*config, nonce@, salts@[i])
                &&& x.address@ == addrs@.subrange(20 * i, 20 * i + 20)
                &&& x.init_code_hash@ == hashes@.subrange(32 * i, 32 * i + 32)
            },
{
    let n = stored_count(count, capacity);
    let mut results: Vec<MatchResult> = Vec::new();
    let alen = addrs.len();
    let hlen = hashes.len();
    let mut i: usize = 0;
    while i < n
        invariant
            n == stored_spec(count, capacity),
            alen == addrs@.len(),
            hlen == hashes@.len(),
            i <= n,
            salts@.len() >= n,
            addrs@.len() >= 20 * n,
            hashes@.len() >= 32 * n,
            results@.len() == i,
            forall|k: int|
                0 <= k < i ==> {
                    let x = #[trigger] results@[k];
                    &&& x.salt == salts@[k]
                    &&& x.create2_salt@ == create2_salt_spec(*config, nonce@, salts@[k])
                    &&& x.address@ == addrs@.subrange(20 * k, 20 * k + 20)
                    &&& x.init_code_hash@ == hashes@.subrange(32 * k, 32 * k + 32)
                },
        decreases n - i,
    {
        let salt = salts[i];
        let address: [u8; 20] = array_at(addrs, 20 * i);
        let init_code_hash: [u8; 32] = array_at(hashes, 32 * i);
        results.push(
            MatchResult {
                salt,
                create2_salt: create2_salt(config, nonce, salt),
                address,
                init_code_hash,
            },
        );
        i = i + 1;
    }
    let matched: u64 = if count <= 0 {
        0
    } else {
        count as u64
    };
    BatchOutcome { results, matched, dropped: matched - n as u64 }
}

/// The batch cursor of the accelerator: where the next batch's salts start.
pub struct BatchCursor {
    pub salt_offset: u64,
}

impl BatchCursor {
    /// A cursor at salt zero.
    pub fn new() -> (r: BatchCursor)
        ensures
            r.salt_offset == 0,
    {
        BatchCursor { salt_offset: 0 }
    }

    /// Moves past a batch of `batch_size` lanes (64-bit wrapping).
    pub fn advance(&mut self, batch_size: u64)
        ensures
            final(self).salt_offset == lane_salt(old(self).salt_offset, batch_size as int),
    {
        self.salt_offset = self.salt_offset.wrapping_add(batch_size);
    }
}

impl MatchResult {
    /// The reward log line, with the address spelled as `address_text`.
    pub fn reward_line_with(&self, address_text: &[u8], amount: u128) -> (r: Vec<u8>)
        ensures
            r@ == reward_line_spec(*self, address_text@, amount),
    {
        let mut line: Vec<u8> = vec![115u8, 97, 108, 116, 58, 32, 48, 120];
        let mut s = encode_hex(self.create2_salt.as_slice());
        line.append(&mut s);
        let mut p1: Vec<u8> = vec![32u8, 61, 62, 32, 105, 110, 105, 116, 95, 99, 111, 100, 101, 95, 104, 97, 115, 104, 58, 32, 48, 120];
        line.append(&mut p1);
        let mut h = encode_hex(self.init_code_hash.as_slice());
        line.append(&mut h);
        let mut p2: Vec<u8> = vec![32u8, 61, 62, 32, 97, 100, 100, 114, 101, 115, 115, 58, 32];
        line.append(&mut p2);
        append_bytes(&mut line, address_text);
        let mut p3: Vec<u8> = vec![32u8, 61, 62, 32, 114, 101, 119, 97, 114, 100, 58, 32];
        line.append(&mut p3);
        let mut n = to_decimal(amount);
        line.append(&mut n);
        line
    }

    /// The reward log line, with the address in its EIP-55 spelling.
    pub fn reward_line(&self, amount: u128) -> (r: Vec<u8>)
        ensures
            r@ == reward_line_spec(*self, checksum_of(self.address@), amount),
    {
        let text = checksum_text(&self.address);
        self.reward_line_with(text.as_slice(), amount)
    }

    /// The log line: `0x<create2 salt hex> => 0x<address hex>`.
    pub fn log_line(&self) -> (r: Vec<u8>)
        ensures
            r@ == seq![48u8, 120u8] + hex_of(self.create2_salt@) + seq![
                32u8,
                61u8,
                62u8,
                32u8,
                48u8,
                120u8,
            ] + hex_of(self.address@),
    {
        let mut line: Vec<u8> = vec![48u8, 120];
        let mut s = encode_hex(self.create2_salt.as_slice());
        line.append(&mut s);
        let mut sep: Vec<u8> = vec![32u8, 61, 62, 32, 48, 120];
        line.append(&mut sep);
        let mut a = encode_hex(self.address.as_slice());
        line.append(&mut a);
        line
    }
}

} // verus!
