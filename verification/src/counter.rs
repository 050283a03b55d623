//! CTR counter arithmetic.
//!
//! A counter is 16 bytes read as one big-endian unsigned integer. Adding a
//! block index wraps silently past the most-significant byte, so the value
//! is always taken modulo 256^16. Each block's counter is derived directly
//! from the base value and the block index, never from a running counter.

use vstd::prelude::*;

use vstd::arithmetic::div_mod::lemma_add_mod_noop;
use vstd::arithmetic::div_mod::lemma_breakdown;
use vstd::arithmetic::div_mod::lemma_fundamental_div_mod_converse;
use vstd::arithmetic::div_mod::lemma_mod_twice;
use vstd::arithmetic::mul::lemma_mul_is_distributive_add_other_way;

verus! {

/// 256 to the power `k`.
pub open spec fn pow256(k: nat) -> nat
    decreases k,
{
    if k == 0 {
        1
    } else {
        256 * pow256((k - 1) as nat)
    }
}

/// 256^k is positive.
pub proof fn lemma_pow256_pos(k: nat)
    ensures
        pow256(k) >= 1,
    decreases k,
{
    if k > 0 {
        lemma_pow256_pos((k - 1) as nat);
    }
}

/// The number a byte sequence stands for, read big-endian: the last byte
/// is least significant.
pub open spec fn be_nat(s: Seq<u8>) -> nat
    decreases s.len(),
{
    if s.len() == 0 {
        0
    } else {
        (be_nat(s.drop_last()) * 256 + s.last()) as nat
    }
}

/// The `k`-byte big-endian representation of `n`, dropping anything past
/// byte `k`.
pub open spec fn nat_to_be(n: nat, k: nat) -> Seq<u8>
    decreases k,
{
    if k == 0 {
        Seq::empty()
    } else {
        nat_to_be(n / 256, (k - 1) as nat).push((n % 256) as u8)
    }
}

/// The counter for block `delta` above base `counter`: their sum modulo
/// 256^16, as 16 big-endian bytes.
pub open spec fn spec_ctr_inc(counter: Seq<u8>, delta: nat) -> Seq<u8> {
    nat_to_be((be_nat(counter) + delta) % pow256(16), 16)
}

/// A big-endian number of `k` bytes is below 256^k.
pub proof fn lemma_be_nat_bound(s: Seq<u8>)
    ensures
        be_nat(s) < pow256(s.len()),
    decreases s.len(),
{
    if s.len() == 0 {
    } else {
        lemma_be_nat_bound(s.drop_last());
    }
}

/// Prepending a byte adds it at the most-significant position.
pub proof fn lemma_be_nat_prepend(b: u8, t: Seq<u8>)
    ensures
        be_nat(seq![b] + t) == b * pow256(t.len()) + be_nat(t),
    decreases t.len(),
{
    if t.len() == 0 {
        assert((seq![b] + t) =~= seq![b]);
        assert(seq![b].drop_last() =~= Seq::<u8>::empty());
        assert(seq![b].last() == b);
        assert(be_nat(seq![b]) == (be_nat(seq![b].drop_last()) * 256 + seq![b].last()) as nat);
        assert(pow256(0) == 1);
    } else {
        let s = seq![b] + t;
        assert(s.drop_last() =~= seq![b] + t.drop_last());
        lemma_be_nat_prepend(b, t.drop_last());
        assert(be_nat(s) == (b * pow256((t.len() - 1) as nat) + be_nat(t.drop_last())) * 256
            + t.last());
        assert((b * pow256((t.len() - 1) as nat) + be_nat(t.drop_last())) * 256 == b * (256
            * pow256((t.len() - 1) as nat)) + be_nat(t.drop_last()) * 256) by (nonlinear_arith);
    }
}

/// Reading back the `k`-byte representation of `n` gives `n` modulo 256^k.
pub proof fn lemma_nat_to_be_value(n: nat, k: nat)
    ensures
        nat_to_be(n, k).len() == k,
        be_nat(nat_to_be(n, k)) == n % pow256(k),
    decreases k,
{
    if k == 0 {
    } else {
        lemma_nat_to_be_value(n / 256, (k - 1) as nat);
        let s = nat_to_be(n, k);
        let prefix = nat_to_be(n / 256, (k - 1) as nat);
        assert(s.drop_last() =~= prefix);
        lemma_pow256_pos((k - 1) as nat);
        lemma_breakdown(n as int, 256, pow256((k - 1) as nat) as int);
    }
}

/// A byte sequence is exactly the representation of its own value.
pub proof fn lemma_be_nat_inverse(s: Seq<u8>)
    ensures
        nat_to_be(be_nat(s), s.len()) == s,
    decreases s.len(),
{
    if s.len() == 0 {
        assert(nat_to_be(be_nat(s), 0) =~= s);
    } else {
        lemma_be_nat_inverse(s.drop_last());
        let n = be_nat(s);
        lemma_fundamental_div_mod_converse(
            n as int,
            256,
            be_nat(s.drop_last()) as int,
            s.last() as int,
        );
        assert(nat_to_be(n, s.len()) =~= s);
    }
}

/// Deriving block `a + b` directly equals deriving block `a` and stepping
/// a further `b` blocks: per-block counters need no running counter.
pub proof fn lemma_ctr_inc_compose(iv: Seq<u8>, a: nat, b: nat)
    requires
        iv.len() == 16,
    ensures
        spec_ctr_inc(spec_ctr_inc(iv, a), b) == spec_ctr_inc(iv, a + b),
{
    let m = pow256(16) as int;
    lemma_pow256_pos(16);
    let x = (be_nat(iv) + a) as int;
    lemma_nat_to_be_value(((be_nat(iv) + a) as nat) % pow256(16), 16);
    lemma_mod_twice(x, m);
    assert(be_nat(spec_ctr_inc(iv, a)) == x % m);
    lemma_add_mod_noop(x, b as int, m);
    lemma_add_mod_noop(x % m, b as int, m);
    lemma_mod_twice(x, m);
    assert((x % m + b) % m == (x + b) % m);
}

/// Adds `c` to a 16-byte big-endian counter, propagating the carry from
/// the least-significant byte leftward and wrapping silently past the
/// most-significant byte.
pub fn ctr128_inc(counter: &Vec<u8>, c: u64) -> (count: Vec<u8>)
    requires
        counter.len() == 16,
    ensures
        count@.len() == 16,
        count@ == spec_ctr_inc(counter@, c as nat),
        be_nat(count@) == ((be_nat(counter@) + c) as nat) % pow256(16),
{
    let delta = c;
    let mut count: Vec<u8> = Vec::new();
    let mut i: usize = 0;
    while i < 16
        invariant
            counter.len() == 16,
            i <= 16,
            count@.len() == i,
            forall|k: int| 0 <= k < i ==> count@[k] == counter@[k],
        decreases 16 - i,
    {
        count.push(counter[i]);
        i += 1;
    }
    let mut carry: u128 = delta as u128;
    let mut n: usize = 16;
    proof {
        assert(count@.skip(16) =~= Seq::<u8>::empty());
        assert(counter@.skip(16) =~= Seq::<u8>::empty());
        assert(be_nat(Seq::<u8>::empty()) == 0);
        assert(pow256(0) == 1);
        assert(carry * pow256(0) == delta);
    }
    while n > 0
        invariant
            counter.len() == 16,
            count@.len() == 16,
            n <= 16,
            carry < 0x1_0000_0000_0000_0000,
            forall|k: int| 0 <= k < n ==> count@[k] == counter@[k],
            be_nat(count@.skip(n as int)) + carry * pow256((16 - n) as nat) == be_nat(
                counter@.skip(n as int),
            ) + delta,
        decreases n,
    {
        let ghost prev = count@;
        let ghost prev_carry = carry as int;
        n -= 1;
        carry += count[n] as u128;
        let byte: u8 = (carry % 256) as u8;
        count[n] = byte;
        carry = carry / 256;
        proof {
            let ni = n as int;
            let p = pow256((15 - ni) as nat) as int;
            lemma_pow256_pos((15 - ni) as nat);
            let c2 = prev_carry + counter@[ni];
            assert(count@.skip(ni) =~= seq![byte] + prev.skip(ni + 1));
            assert(counter@.skip(ni) =~= seq![counter@[ni]] + counter@.skip(ni + 1));
            lemma_be_nat_prepend(byte, prev.skip(ni + 1));
            lemma_be_nat_prepend(counter@[ni], counter@.skip(ni + 1));
            assert(pow256((16 - ni) as nat) == 256 * p);
            assert(c2 == 256 * (carry as int) + byte);
            assert(byte * p + (carry as int) * (256 * p) == c2 * p) by (nonlinear_arith)
                requires
                    c2 == 256 * (carry as int) + byte,
            ;
            assert(c2 * p == (counter@[ni]) * p + prev_carry * p) by {
                lemma_mul_is_distributive_add_other_way(p, counter@[ni] as int, prev_carry);
            }
        }
    }
    proof {
        assert(count@.skip(0) =~= count@);
        assert(counter@.skip(0) =~= counter@);
        lemma_pow256_pos(16);
        lemma_be_nat_bound(count@);
        lemma_fundamental_div_mod_converse(
            (be_nat(counter@) + delta) as int,
            pow256(16) as int,
            carry as int,
            be_nat(count@) as int,
        );
        lemma_be_nat_inverse(count@);
    }
    count
}

} // verus!
