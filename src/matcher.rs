use vstd::prelude::*;
use vstd::string::StringSliceAdditionalSpecFns;
use crate::config::ConfigError;
use crate::hex::{hex_of, strip_0x};

verus! {

/// Number of hex characters in an address.
pub const ADDRESS_HEX_LEN: usize = 40;

/// The byte value that reward scoring counts.
pub const SENTINEL: u8 = 0x11;

/// Whether `pat` starts the lowercase hex text of `addr`.
pub open spec fn prefix_spec(pat: Seq<u8>, addr: Seq<u8>) -> bool {
    pat.len() <= 40 && hex_of(addr).subrange(0, pat.len() as int) == pat
}

/// Whether `pat` occurs in the hex text of `addr` starting at `i`.
pub open spec fn occurs_at(pat: Seq<u8>, addr: Seq<u8>, i: int) -> bool {
    hex_of(addr).subrange(i, i + pat.len()) == pat
}

/// Whether `pat` occurs anywhere in the lowercase hex text of `addr`.
pub open spec fn contains_spec(pat: Seq<u8>, addr: Seq<u8>) -> bool {
    pat.len() <= 40 && exists|i: int| 0 <= i <= 40 - pat.len() && #[trigger] occurs_at(pat, addr, i)
}

/// ASCII lowercase of one byte.
pub open spec fn lower(c: u8) -> u8 {
    if 65 <= c <= 90 {
        (c + 32) as u8
    } else {
        c
    }
}

/// A pattern as the matcher compares it: lowercased, without a `0x` prefix.
pub open spec fn normalized(p: Seq<u8>) -> Seq<u8> {
    strip_0x(p.map_values(|c: u8| lower(c)))
}

/// The number of sentinel bytes in `s`.
pub open spec fn sentinel_count(s: Seq<u8>) -> nat
    decreases s.len(),
{
    if s.len() == 0 {
        0
    } else {
        sentinel_count(s.drop_last()) + if s.last() == SENTINEL {
            1nat
        } else {
            0nat
        }
    }
}

/// The index of the first byte of `s` at or after `i` that is not the
/// sentinel; 21 when there is none.
pub open spec fn first_other(s: Seq<u8>, i: int) -> nat
    decreases s.len() - i,
{
    if i < 0 || i >= s.len() {
        21
    } else if s[i] != SENTINEL {
        i as nat
    } else {
        first_other(s, i + 1)
    }
}

/// The reward table key of an address: twenty times the position of its
/// first non-sentinel byte, plus its number of sentinel bytes.
pub open spec fn reward_key_spec(addr: Seq<u8>) -> nat {
    first_other(addr, 0) * 20 + sentinel_count(addr)
}

/// The amount of the first entry of `e` under `key`.
pub open spec fn lookup(e: Seq<(usize, u128)>, key: nat) -> Option<u128>
    decreases e.len(),
{
    if e.len() == 0 {
        None
    } else if e[0].0 as nat == key {
        Some(e[0].1)
    } else {
        lookup(e.drop_first(), key)
    }
}

/// A table of reward amounts by score key.
pub struct Reward {
    pub entries: Vec<(usize, u128)>,
}

/// The reward an address earns: none below three sentinel bytes, else the
/// table's amount for its key, if any.
pub open spec fn reward_spec(table: Seq<(usize, u128)>, addr: Seq<u8>) -> Option<u128> {
    if sentinel_count(addr) < 3 {
        None
    } else {
        lookup(table, reward_key_spec(addr))
    }
}

/// A rule an address must meet.
pub enum Matcher {
    /// The hex text starts with the (normalized) pattern.
    Prefix(Vec<u8>),
    /// The hex text contains the (normalized) pattern.
    Contains(Vec<u8>),
    /// The address earns a reward from the table.
    Reward(Reward),
}

/// Whether `addr` meets rule `m`.
pub open spec fn matches_spec(m: Matcher, addr: Seq<u8>) -> bool {
    match m {
        Matcher::Prefix(p) => prefix_spec(p@, addr),
        Matcher::Contains(p) => contains_spec(p@, addr),
        Matcher::Reward(t) => reward_spec(t.entries@, addr) is Some,
    }
}

/// Under substring matching the empty pattern occurs in every address.
pub proof fn empty_pattern_always_contained(addr: Seq<u8>)
    requires
        addr.len() == 20,
    ensures
        contains_spec(Seq::empty(), addr),
{
    assert(hex_of(addr).subrange(0, 0) =~= Seq::<u8>::empty());
    assert(occurs_at(Seq::empty(), addr, 0));
}

/// A pattern longer than the 40 hex characters of an address meets neither
/// the prefix nor the substring rule.
pub proof fn long_pattern_never_matches(pat: Seq<u8>, addr: Seq<u8>)
    requires
        pat.len() > 40,
    ensures
        !prefix_spec(pat, addr),
        !contains_spec(pat, addr),
{
}

/// Patterns that differ only in the case of their letters give the same
/// normalized pattern, hence the same rule.
pub proof fn pattern_case_insensitive(p: Seq<u8>, q: Seq<u8>)
    requires
        p.len() == q.len(),
        forall|i: int| 0 <= i < p.len() ==> lower(#[trigger] p[i]) == lower(q[i]),
    ensures
        normalized(p) == normalized(q),
{
    assert(p.map_values(|c: u8| lower(c)) =~= q.map_values(|c: u8| lower(c)));
}

/// A leading `0x` or `0X` on a pattern is ignored: prefixed and bare
/// patterns give the same normalized pattern (for a bare pattern that does not
/// itself start with `0x` once lowercased).
pub proof fn pattern_0x_prefix_ignored(p: Seq<u8>)
    requires
        !(p.len() >= 2 && p[0] == 48 && lower(p[1]) == 120),
    ensures
        normalized(seq![48u8, 120u8] + p) == normalized(p),
        normalized(seq![48u8, 88u8] + p) == normalized(p),
{
    let lp = p.map_values(|c: u8| lower(c));
    let a = (seq![48u8, 120u8] + p).map_values(|c: u8| lower(c));
    let b = (seq![48u8, 88u8] + p).map_values(|c: u8| lower(c));
    assert(a.subrange(2, a.len() as int) =~= lp);
    assert(b.subrange(2, b.len() as int) =~= lp);
    assert(strip_0x(lp) == lp);
}

/// The hex text of an address holds only lowercase hex digits, so patterns
/// are compared against lowercase text.
pub proof fn address_hex_is_lowercase(addr: Seq<u8>, i: int)
    requires
        0 <= i < 2 * addr.len(),
    ensures
        (48 <= hex_of(addr)[i] <= 57) || (97 <= hex_of(addr)[i] <= 102),
        lower(hex_of(addr)[i]) == hex_of(addr)[i],
{
}

/// Hex character `pos` of the address.
pub fn hex_char_at(addr: &[u8; 20], pos: usize) -> (r: u8)
    requires
        pos < 40,
    ensures
        r == hex_of(addr@)[pos as int],
{
    let b = addr[pos / 2];
    let n = if pos % 2 == 0 {
        b / 16
    } else {
        b % 16
    };
    if n < 10 {
        48 + n
    } else {
        87 + n
    }
}

/// Whether the hex text of `addr` starts with `pat`; never for a pattern
/// longer than an address.
pub fn prefix_match(addr: &[u8; 20], pat: &[u8]) -> (r: bool)
    ensures
        r == prefix_spec(pat@, addr@),
{
    if pat.len() > ADDRESS_HEX_LEN {
        return false;
    }
    let mut i: usize = 0;
    while i < pat.len()
        invariant
            pat@.len() <= 40,
            i <= pat@.len(),
            forall|j: int| 0 <= j < i ==> hex_of(addr@)[j] == pat@[j],
        decreases pat@.len() - i,
    {
        if hex_char_at(addr, i) != pat[i] {
            assert(hex_of(addr@).subrange(0, pat@.len() as int)[i as int] != pat@[i as int]);
            return false;
        }
        i = i + 1;
    }
    assert(hex_of(addr@).subrange(0, pat@.len() as int) =~= pat@);
    true
}

/// Whether `pat` occurs at `start` in the hex text of `addr`.
fn occurs_at_exec(addr: &[u8; 20], pat: &[u8], start: usize) -> (r: bool)
    requires
        start + pat@.len() <= 40,
    ensures
        r == occurs_at(pat@, addr@, start as int),
{
    let mut i: usize = 0;
    while i < pat.len()
        invariant
            start + pat@.len() <= 40,
            i <= pat@.len(),
            forall|j: int| 0 <= j < i ==> hex_of(addr@)[start + j] == pat@[j],
        decreases pat@.len() - i,
    {
        if hex_char_at(addr, start + i) != pat[i] {
            assert(hex_of(addr@).subrange(start as int, start + pat@.len())[i as int]
                != pat@[i as int]);
            return false;
        }
        i = i + 1;
    }
    assert(hex_of(addr@).subrange(start as int, start + pat@.len()) =~= pat@);
    true
}

/// Whether `pat` occurs anywhere in the hex text of `addr`; an empty pattern
/// always does, one longer than an address never.
pub fn contains_match(addr: &[u8; 20], pat: &[u8]) -> (r: bool)
    ensures
        r == contains_spec(pat@, addr@),
{
    if pat.len() > ADDRESS_HEX_LEN {
        return false;
    }
    let last = ADDRESS_HEX_LEN - pat.len();
    let mut start: usize = 0;
    while start <= last
        invariant
            pat@.len() <= 40,
            last == 40 - pat@.len(),
            start <= last + 1,
            forall|j: int| 0 <= j < start ==> !occurs_at(pat@, addr@, j),
        decreases last + 1 - start,
    {
        if occurs_at_exec(addr, pat, start) {
            return true;
        }
        start = start + 1;
    }
    false
}

/// Lowercases ASCII letters and drops a leading `0x`.
pub fn normalize_pattern(p: &[u8]) -> (r: Vec<u8>)
    ensures
        r@ == normalized(p@),
{
    let mut low: Vec<u8> = Vec::new();
    let mut i: usize = 0;
    while i < p.len()
        invariant
            i <= p@.len(),
            low@ == p@.subrange(0, i as int).map_values(|c: u8| lower(c)),
        decreases p@.len() - i,
    {
        let c = p[i];
        let l = if 65 <= c && c <= 90 {
            c + 32
        } else {
            c
        };
        low.push(l);
        i = i + 1;
        assert(low@ =~= p@.subrange(0, i as int).map_values(|c: u8| lower(c)));
    }
    assert(p@.subrange(0, p@.len() as int) =~= p@);
    if low.len() >= 2 && low[0] == 48 && (low[1] == 120 || low[1] == 88) {
        let mut r: Vec<u8> = Vec::new();
        let mut k: usize = 2;
        while k < low.len()
            invariant
                2 <= k <= low@.len(),
                r@ == low@.subrange(2, k as int),
            decreases low@.len() - k,
        {
            r.push(low[k]);
            k = k + 1;
            assert(r@ =~= low@.subrange(2, k as int));
        }
        r
    } else {
        low
    }
}

/// The position of the first non-sentinel byte (21 when there is none) and
/// the number of sentinel bytes.
pub fn reward_score(addr: &[u8; 20]) -> (r: (usize, usize))
    ensures
        r.0 == first_other(addr@, 0),
        r.1 == sentinel_count(addr@),
        r.0 <= 21,
        r.1 <= 20,
{
    let mut total: usize = 0;
    let mut leading: usize = 21;
    let mut i: usize = 0;
    while i < 20
        invariant
            i <= 20,
            total == sentinel_count(addr@.subrange(0, i as int)),
            total <= i,
            leading <= 21,
            leading == 21 ==> first_other(addr@, 0) == first_other(addr@, i as int),
            leading != 21 ==> leading == first_other(addr@, 0),
        decreases 20 - i,
    {
        assert(addr@.subrange(0, i + 1).drop_last() =~= addr@.subrange(0, i as int));
        if addr[i] == SENTINEL {
            total = total + 1;
        } else if leading == 21 {
            leading = i;
        }
        i = i + 1;
    }
    assert(addr@.subrange(0, 20) =~= addr@);
    (leading, total)
}

impl Reward {
    /// A table over the given (key, amount) entries; the first entry for a
    /// key wins.
    pub fn new(entries: Vec<(usize, u128)>) -> (r: Reward)
        ensures
            r.entries@ == entries@,
    {
        Reward { entries }
    }

    /// The amount of the first entry under `key`.
    pub fn get(&self, key: usize) -> (r: Option<u128>)
        ensures
            r == lookup(self.entries@, key as nat),
    {
        let mut i: usize = 0;
        assert(self.entries@.subrange(0, self.entries@.len() as int) =~= self.entries@);
        while i < self.entries.len()
            invariant
                i <= self.entries@.len(),
                lookup(self.entries@, key as nat) == lookup(
                    self.entries@.subrange(i as int, self.entries@.len() as int),
                    key as nat,
                ),
            decreases self.entries@.len() - i,
        {
            let e = self.entries[i];
            assert(self.entries@.subrange(i as int, self.entries@.len() as int).drop_first()
                =~= self.entries@.subrange(i + 1, self.entries@.len() as int));
            if e.0 == key {
                return Some(e.1);
            }
            i = i + 1;
        }
        None
    }

    /// The reward `addr` earns, if any.
    pub fn reward_of(&self, addr: &[u8; 20]) -> (r: Option<u128>)
        ensures
            r == reward_spec(self.entries@, addr@),
    {
        let (leading, count) = reward_score(addr);
        if count < 3 {
            return None;
        }
        self.get(leading * 20 + count)
    }
}

/// The rule a pattern gives: prefix, or substring when `contains`.
pub open spec fn pattern_rule(m: Matcher, pat: Seq<u8>, contains: bool) -> bool {
    match m {
        Matcher::Prefix(p) => !contains && p@ == normalized(pat),
        Matcher::Contains(p) => contains && p@ == normalized(pat),
        Matcher::Reward(_) => false,
    }
}

impl Matcher {
    /// A prefix rule (or a substring rule when `contains`) for `pattern`,
    /// compared lowercased and without a `0x` prefix. A pattern longer than an
    /// address is refused.
    pub fn from_pattern(pattern: &str, contains: bool) -> (r: Result<Matcher, ConfigError>)
        ensures
            r is Err <==> normalized(pattern.spec_bytes()).len() > 40,
            r is Err ==> r->Err_0 == ConfigError::PatternTooLong,
            r is Ok ==> pattern_rule(r->Ok_0, pattern.spec_bytes(), contains),
    {
        let p = normalize_pattern(pattern.as_bytes());
        if p.len() > ADDRESS_HEX_LEN {
            Err(ConfigError::PatternTooLong)
        } else if contains {
            Ok(Matcher::Contains(p))
        } else {
            Ok(Matcher::Prefix(p))
        }
    }

    /// Whether `addr` meets this rule.
    pub fn matches(&self, addr: &[u8; 20]) -> (r: bool)
        ensures
            r == matches_spec(*self, addr@),
    {
        match self {
            Matcher::Prefix(p) => prefix_match(addr, p.as_slice()),
            Matcher::Contains(p) => contains_match(addr, p.as_slice()),
            Matcher::Reward(t) => t.reward_of(addr).is_some(),
        }
    }
}

} // verus!
