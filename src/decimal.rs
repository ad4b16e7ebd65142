use vstd::prelude::*;

verus! {

/// The digits of decimal text, after one optional leading `+`.
pub open spec fn unsigned_digits(s: Seq<u8>) -> Seq<u8> {
    if s.len() > 0 && s[0] == 43 {
        s.subrange(1, s.len() as int)
    } else {
        s
    }
}

/// Whether every byte of `d` is an ASCII decimal digit.
pub open spec fn all_decimal(d: Seq<u8>) -> bool {
    forall|i: int| 0 <= i < d.len() ==> 48 <= #[trigger] d[i] <= 57
}

/// The value of a string of decimal digits, most significant first.
pub open spec fn decimal_value(d: Seq<u8>) -> nat
    decreases d.len(),
{
    if d.len() == 0 {
        0
    } else {
        decimal_value(d.drop_last()) * 10 + (d.last() - 48) as nat
    }
}

/// `256` to the power `k`.
pub open spec fn p256(k: nat) -> nat
    decreases k,
{
    if k == 0 {
        1
    } else {
        256 * p256((k - 1) as nat)
    }
}

/// The number that bytes `s` stand for, most significant first.
pub open spec fn be_value(s: Seq<u8>) -> nat
    decreases s.len(),
{
    if s.len() == 0 {
        0
    } else {
        be_value(s.drop_last()) * 256 + s.last() as nat
    }
}

/// Whether `s` is the decimal text of an id that fits a 32-byte field: one
/// optional `+`, then one or more ASCII digits whose value is below 2^256.
pub open spec fn is_id_text(s: Seq<u8>) -> bool {
    let d = unsigned_digits(s);
    d.len() > 0 && all_decimal(d) && decimal_value(d) < p256(32)
}

/// The `n` low-order bytes of `v`, most significant first.
pub open spec fn be_bytes(v: nat, n: nat) -> Seq<u8>
    decreases n,
{
    if n == 0 {
        Seq::empty()
    } else {
        be_bytes(v / 256, (n - 1) as nat).push((v % 256) as u8)
    }
}

proof fn be_value_prepend(a: u8, t: Seq<u8>)
    ensures
        be_value(seq![a] + t) == a as nat * p256(t.len()) + be_value(t),
    decreases t.len(),
{
    let u = seq![a] + t;
    if t.len() == 0 {
        assert(u.drop_last() =~= Seq::<u8>::empty());
        assert(u.last() == a);
        assert(be_value(u) == be_value(u.drop_last()) * 256 + a as nat);
        assert(be_value(u.drop_last()) == 0);
        assert(be_value(t) == 0);
        assert(p256(0) == 1);
        assert(a as nat * 1 == a as nat);
    } else {
        assert(u.drop_last() =~= seq![a] + t.drop_last());
        be_value_prepend(a, t.drop_last());
        let p = p256((t.len() - 1) as nat);
        let x = be_value(t.drop_last());
        assert(u.last() == t.last());
        assert(be_value(u) == be_value(u.drop_last()) * 256 + t.last() as nat);
        assert(be_value(u.drop_last()) == a as nat * p + x);
        assert((a as nat * p + x) * 256 == a as nat * (256 * p) + x * 256) by (nonlinear_arith);
        assert(p256(t.len()) == 256 * p);
    }
}

proof fn be_value_bound(s: Seq<u8>)
    ensures
        be_value(s) < p256(s.len()),
    decreases s.len(),
{
    if s.len() > 0 {
        be_value_bound(s.drop_last());
        let v = be_value(s.drop_last());
        let p = p256((s.len() - 1) as nat);
        let b = s.last() as nat;
        assert(v * 256 + b < 256 * p) by (nonlinear_arith)
            requires
                v < p,
                b < 256,
        ;
    }
}

proof fn be_value_zero(s: Seq<u8>)
    requires
        forall|i: int| 0 <= i < s.len() ==> s[i] == 0,
    ensures
        be_value(s) == 0,
    decreases s.len(),
{
    if s.len() > 0 {
        be_value_zero(s.drop_last());
    }
}

proof fn be_bytes_of_value(s: Seq<u8>)
    ensures
        be_bytes(be_value(s), s.len()) == s,
    decreases s.len(),
{
    if s.len() == 0 {
        assert(be_bytes(be_value(s), 0) =~= s);
    } else {
        let v = be_value(s.drop_last());
        let b = s.last() as nat;
        assert((v * 256 + b) / 256 == v && (v * 256 + b) % 256 == b) by (nonlinear_arith)
            requires
                b < 256,
        ;
        be_bytes_of_value(s.drop_last());
        assert(s.drop_last().push(s.last()) =~= s);
    }
}

proof fn decimal_prefix_le(d: Seq<u8>, k: int)
    requires
        0 <= k <= d.len(),
    ensures
        decimal_value(d.subrange(0, k)) <= decimal_value(d),
    decreases d.len(),
{
    if k < d.len() {
        assert(d.drop_last().subrange(0, k) =~= d.subrange(0, k));
        decimal_prefix_le(d.drop_last(), k);
    } else {
        assert(d.subrange(0, k) =~= d);
    }
}

/// Multiplies the 32-byte big-endian number `field` by ten and adds `d`;
/// returns what carries out of the top byte.
fn mul10_add(field: &mut [u8; 32], d: u8) -> (carry: u32)
    requires
        d < 10,
    ensures
        be_value(final(field)@) + carry as nat * p256(32) == be_value(old(field)@) * 10 + d as nat,
        carry < 10,
{
    let ghost orig = field@;
    let mut c: u32 = d as u32;
    let mut i: usize = 32;
    assert(field@.subrange(32, 32) =~= Seq::<u8>::empty());
    assert(orig.subrange(32, 32) =~= Seq::<u8>::empty());
    assert(be_value(field@.subrange(32, 32)) == 0);
    assert(be_value(orig.subrange(32, 32)) == 0);
    assert(p256(0) == 1);
    assert(c as nat * p256(0) == d as nat);
    while i > 0
        invariant
            i <= 32,
            c < 10,
            orig.len() == 32,
            forall|j: int| 0 <= j < i ==> field@[j] == orig[j],
            be_value(field@.subrange(i as int, 32)) + c as nat * p256((32 - i) as nat) == be_value(
                orig.subrange(i as int, 32),
            ) * 10 + d as nat,
        decreases i,
    {
        let ghost before = field@;
        let b = field[i - 1];
        let t: u32 = b as u32 * 10 + c;
        field[i - 1] = (t % 256) as u8;
        let q = t / 256;
        proof {
            let k = (32 - i) as nat;
            let p = p256(k);
            let v = be_value(field@.subrange(i as int, 32));
            let w = be_value(orig.subrange(i as int, 32));
            assert(field@.subrange(i as int, 32) =~= before.subrange(i as int, 32));
            assert(field@.subrange(i - 1, 32) =~= seq![(t % 256) as u8] + field@.subrange(
                i as int,
                32,
            ));
            assert(orig.subrange(i - 1, 32) =~= seq![b] + orig.subrange(i as int, 32));
            be_value_prepend((t % 256) as u8, field@.subrange(i as int, 32));
            be_value_prepend(b, orig.subrange(i as int, 32));
            assert(p256(k + 1) == 256 * p);
            let r = (t % 256) as nat;
            assert(t == 256 * q + r);
            assert(r * p + q as nat * (256 * p) == t as nat * p) by (nonlinear_arith)
                requires
                    t == 256 * q + r,
            ;
            assert(t as nat * p == (b as nat * 10 + c as nat) * p);
            assert((b as nat * 10 + c as nat) * p == 10 * (b as nat * p) + c as nat * p)
                by (nonlinear_arith);
            assert((b as nat * p + w) * 10 == 10 * (b as nat * p) + w * 10) by (nonlinear_arith);
        }
        c = q;
        i = i - 1;
    }
    assert(field@.subrange(0, 32) =~= field@);
    assert(orig.subrange(0, 32) =~= orig);
    c
}

/// Reads decimal text (one optional `+`, then ASCII digits) into a 32-byte
/// big-endian field; `None` for any other text or a value of 2^256 or more.
pub fn parse_id(s: &[u8]) -> (r: Option<[u8; 32]>)
    ensures
        r is Some <==> is_id_text(s@),
        r is Some ==> r->0@ == be_bytes(decimal_value(unsigned_digits(s@)), 32),
{
    let len = s.len();
    let start: usize = if len > 0 && s[0] == 43 {
        1
    } else {
        0
    };
    let ghost d = s@.subrange(start as int, len as int);
    assert(d =~= unsigned_digits(s@));
    if start == len {
        return None;
    }
    let mut i: usize = start;
    while i < len
        invariant
            start <= i <= len,
            len == s@.len(),
            d == s@.subrange(start as int, len as int),
            d == unsigned_digits(s@),
            forall|j: int| start <= j < i ==> 48 <= #[trigger] s@[j] <= 57,
        decreases len - i,
    {
        if s[i] < 48 || s[i] > 57 {
            assert(d[i - start] == s@[i as int]);
            assert(!all_decimal(d));
            assert(!is_id_text(s@));
            return None;
        }
        i = i + 1;
    }
    assert(all_decimal(d)) by {
        assert forall|j: int| 0 <= j < d.len() implies 48 <= #[trigger] d[j] <= 57 by {
            assert(d[j] == s@[start + j]);
        }
    }
    let mut field = [0u8; 32];
    proof {
        be_value_zero(field@);
        assert(d.subrange(0, 0) =~= Seq::<u8>::empty());
    }
    let mut k: usize = start;
    while k < len
        invariant
            start <= k <= len,
            len == s@.len(),
            d == s@.subrange(start as int, len as int),
            d == unsigned_digits(s@),
            all_decimal(d),
            be_value(field@) == decimal_value(d.subrange(0, k - start)),
        decreases len - k,
    {
        assert(d[k - start] == s@[k as int]);
        let digit = s[k] - 48;
        let ghost before = be_value(field@);
        let carry = mul10_add(&mut field, digit);
        proof {
            let pre = d.subrange(0, k + 1 - start);
            assert(pre.drop_last() =~= d.subrange(0, k - start));
            assert(pre.last() == s@[k as int]);
            assert(decimal_value(pre) == before * 10 + digit as nat);
        }
        if carry != 0 {
            proof {
                decimal_prefix_le(d, k + 1 - start);
                let big = p256(32);
                assert(carry as nat * big >= big) by (nonlinear_arith)
                    requires
                        carry >= 1,
                ;
                assert(decimal_value(d) >= big);
                assert(!is_id_text(s@));
            }
            return None;
        }
        k = k + 1;
    }
    proof {
        assert(d.subrange(0, len - start) =~= d);
        be_value_bound(field@);
        be_bytes_of_value(field@);
    }
    Some(field)
}

/// The decimal text of `v`, without leading zeros.
pub open spec fn decimal_text(v: nat) -> Seq<u8>
    decreases v,
{
    if v < 10 {
        seq![(48 + v) as u8]
    } else {
        decimal_text(v / 10).push((48 + v % 10) as u8)
    }
}

/// The decimal text of `v`.
pub fn to_decimal(v: u128) -> (r: Vec<u8>)
    ensures
        r@ == decimal_text(v as nat),
    decreases v,
{
    if v < 10 {
        vec![(48 + v) as u8]
    } else {
        let mut r = to_decimal(v / 10);
        r.push((48 + v % 10) as u8);
        r
    }
}

} // verus!
