use vstd::arithmetic::div_mod::*;
use vstd::arithmetic::power2::*;
use vstd::bits::*;
use vstd::prelude::*;

verus! {

/// The unsigned number that a bit sequence stands for, least significant bit first.
pub open spec fn seq_val(s: Seq<bool>) -> nat
    decreases s.len(),
{
    if s.len() == 0 {
        0
    } else {
        (if s[0] {
            1nat
        } else {
            0nat
        }) + 2 * seq_val(s.drop_first())
    }
}

/// Bit `i` of a natural number.
pub open spec fn nat_bit(v: nat, i: nat) -> bool {
    (v / pow2(i)) % 2 == 1
}

/// The low `n` bits of a natural number, least significant first.
pub open spec fn nat_bits(v: nat, n: nat) -> Seq<bool> {
    Seq::new(n, |i: int| nat_bit(v, i as nat))
}

/// Bit `i` of a 32-bit word.
pub open spec fn u32_bit(x: u32, i: int) -> bool {
    (x >> (i as u32)) & 1u32 == 1u32
}

/// The low `n` bits of a 32-bit word, least significant first.
pub open spec fn u32_bits(x: u32, n: nat) -> Seq<bool> {
    Seq::new(n, |i: int| u32_bit(x, i))
}

/// Shift towards the most significant end by `k`, zero filled, same length.
pub open spec fn shl_seq(s: Seq<bool>, k: nat) -> Seq<bool> {
    Seq::new(s.len(), |i: int| i >= k && s[i - k])
}

/// Shift towards the least significant end by `k`, zero filled, same length.
pub open spec fn shr_seq(s: Seq<bool>, k: nat) -> Seq<bool> {
    Seq::new(s.len(), |i: int| i + k < s.len() && s[i + k])
}

/// Pointwise combination of two bit sequences of equal length.
pub open spec fn and_seq(a: Seq<bool>, b: Seq<bool>) -> Seq<bool> {
    Seq::new(a.len(), |i: int| a[i] && b[i])
}

pub open spec fn or_seq(a: Seq<bool>, b: Seq<bool>) -> Seq<bool> {
    Seq::new(a.len(), |i: int| a[i] || b[i])
}

pub open spec fn xor_seq(a: Seq<bool>, b: Seq<bool>) -> Seq<bool> {
    Seq::new(a.len(), |i: int| a[i] != b[i])
}

pub open spec fn not_seq(a: Seq<bool>) -> Seq<bool> {
    Seq::new(a.len(), |i: int| !a[i])
}

/// The exclusive OR of all bits: true when an odd number of them are set.
pub open spec fn seq_parity(s: Seq<bool>) -> bool
    decreases s.len(),
{
    if s.len() == 0 {
        false
    } else {
        seq_parity(s.drop_last()) != s.last()
    }
}

/// The bits of `s` placed into `base` from bit `index` on.
pub open spec fn with_bits(base: Seq<bool>, index: nat, s: Seq<bool>) -> Seq<bool> {
    Seq::new(
        base.len(),
        |i: int|
            if index <= i < index + s.len() {
                s[i - index]
            } else {
                base[i]
            },
    )
}

/// Keep the low `m` bits, padding with zeros above the original length.
pub open spec fn resize_seq(s: Seq<bool>, m: nat) -> Seq<bool> {
    Seq::new(m, |i: int| i < s.len() && s[i])
}

pub proof fn lemma_seq_val_bound(s: Seq<bool>)
    ensures
        seq_val(s) < pow2(s.len()),
    decreases s.len(),
{
    if s.len() == 0 {
        lemma2_to64();
    } else {
        lemma_seq_val_bound(s.drop_first());
        lemma_pow2_unfold(s.len());
    }
}

/// Bits of `v` above the lowest one are the bits of `v / 2`.
proof fn lemma_nat_bit_succ(v: nat, i: nat)
    ensures
        nat_bit(v, i + 1) == nat_bit(v / 2, i),
        nat_bit(v, 0) == (v % 2 == 1),
{
    lemma_pow2_unfold(i + 1);
    lemma_pow2_pos(i);
    lemma_div_denominator(v as int, 2, pow2(i) as int);
    lemma2_to64();
}

/// The low `n` bits of `v` stand for `v mod 2^n`.
pub proof fn lemma_nat_bits_val(v: nat, n: nat)
    ensures
        seq_val(nat_bits(v, n)) == v % pow2(n),
    decreases n,
{
    lemma2_to64();
    if n == 0 {
    } else {
        assert(nat_bits(v, n).drop_first() =~= nat_bits(v / 2, (n - 1) as nat)) by {
            assert forall|i: int| 0 <= i < n - 1 implies #[trigger] nat_bits(v, n).drop_first()[i]
                == nat_bits(v / 2, (n - 1) as nat)[i] by {
                lemma_nat_bit_succ(v, i as nat);
            }
        }
        lemma_nat_bit_succ(v, 0);
        lemma_nat_bits_val(v / 2, (n - 1) as nat);
        lemma_pow2_unfold(n);
        lemma_pow2_pos((n - 1) as nat);
        lemma_mod_breakdown(v as int, 2, pow2((n - 1) as nat) as int);
    }
}

/// A sequence is the sequence of the low bits of its own value.
pub proof fn lemma_val_bits(s: Seq<bool>)
    ensures
        nat_bits(seq_val(s), s.len()) == s,
    decreases s.len(),
{
    lemma2_to64();
    if s.len() > 0 {
        let t = s.drop_first();
        lemma_val_bits(t);
        let v = seq_val(s);
        assert(v / 2 == seq_val(t) && v % 2 == (if s[0] { 1nat } else { 0nat })) by {
            lemma_fundamental_div_mod_converse(
                v as int,
                2,
                seq_val(t) as int,
                (if s[0] { 1int } else { 0int }),
            );
        }
        assert forall|i: int| 0 <= i < s.len() implies #[trigger] nat_bits(v, s.len())[i]
            == s[i] by {
            if i == 0 {
                lemma_nat_bit_succ(v, 0);
            } else {
                lemma_nat_bit_succ(v, (i - 1) as nat);
                assert(nat_bits(seq_val(t), t.len())[i - 1] == t[i - 1]);
            }
        }
        assert(nat_bits(v, s.len()) =~= s);
    }
}

/// Two sequences of one length with one value are the same sequence.
pub proof fn lemma_seq_val_injective(s: Seq<bool>, t: Seq<bool>)
    requires
        s.len() == t.len(),
        seq_val(s) == seq_val(t),
    ensures
        s == t,
{
    lemma_val_bits(s);
    lemma_val_bits(t);
}

/// The value is zero exactly when no bit is set.
pub proof fn lemma_seq_val_zero(s: Seq<bool>)
    ensures
        (seq_val(s) == 0) <==> (forall|i: int| 0 <= i < s.len() ==> !s[i]),
    decreases s.len(),
{
    if s.len() > 0 {
        lemma_seq_val_zero(s.drop_first());
        if seq_val(s) == 0 {
            assert forall|i: int| 0 <= i < s.len() implies !s[i] by {
                if i > 0 {
                    assert(s[i] == s.drop_first()[i - 1]);
                }
            }
        }
        if forall|i: int| 0 <= i < s.len() ==> !s[i] {
            assert forall|i: int| 0 <= i < s.len() - 1 implies !s.drop_first()[i] by {
                assert(s.drop_first()[i] == s[i + 1]);
            }
        }
    }
}

/// The value is `2^n - 1` exactly when every bit is set.
pub proof fn lemma_seq_val_ones(s: Seq<bool>)
    ensures
        (seq_val(s) == pow2(s.len()) - 1) <==> (forall|i: int| 0 <= i < s.len() ==> s[i]),
    decreases s.len(),
{
    lemma2_to64();
    if s.len() > 0 {
        lemma_seq_val_ones(s.drop_first());
        lemma_pow2_unfold(s.len());
        lemma_seq_val_bound(s.drop_first());
        lemma_pow2_pos((s.len() - 1) as nat);
        if seq_val(s) == pow2(s.len()) - 1 {
            assert forall|i: int| 0 <= i < s.len() implies s[i] by {
                if i > 0 {
                    assert(s[i] == s.drop_first()[i - 1]);
                }
            }
        }
        if forall|i: int| 0 <= i < s.len() ==> s[i] {
            assert forall|i: int| 0 <= i < s.len() - 1 implies s.drop_first()[i] by {
                assert(s.drop_first()[i] == s[i + 1]);
            }
        }
    }
}

/// Adding one more bit on top of a prefix.
pub proof fn lemma_seq_val_take(s: Seq<bool>, i: int)
    requires
        0 <= i < s.len(),
    ensures
        seq_val(s.take(i + 1)) == seq_val(s.take(i)) + (if s[i] {
            pow2(i as nat)
        } else {
            0
        }),
    decreases i,
{
    lemma2_to64();
    if i > 0 {
        let t = s.drop_first();
        lemma_seq_val_take(t, i - 1);
        assert(s.take(i + 1).drop_first() =~= t.take(i));
        assert(s.take(i).drop_first() =~= t.take(i - 1));
        assert(s.take(i + 1)[0] == s[0]);
        assert(s.take(i)[0] == s[0]);
        assert(t[i - 1] == s[i]);
        assert(seq_val(s.take(i + 1)) == (if s[0] { 1nat } else { 0nat }) + 2 * seq_val(t.take(i)));
        assert(seq_val(s.take(i)) == (if s[0] { 1nat } else { 0nat }) + 2 * seq_val(t.take(i - 1)));
        lemma_pow2_unfold(i as nat);
    } else {
        assert(s.take(1).drop_first() =~= Seq::<bool>::empty());
        assert(s.take(1)[0] == s[0]);
        assert(s.take(0) =~= Seq::<bool>::empty());
        assert(seq_val(Seq::<bool>::empty()) == 0);
    }
}

/// The whole sequence is its longest prefix.
pub proof fn lemma_take_all(s: Seq<bool>)
    ensures
        s.take(s.len() as int) == s,
{
    assert(s.take(s.len() as int) =~= s);
}

proof fn lemma_u32_bit_is_nat_bit_step(x: u32, i: u32)
    by (bit_vector)
    requires
        i < 32,
    ensures
        ((x >> i) & 1u32 == 1u32) == ((x >> i) % 2 == 1),
{
}

/// Bit `i` of a word is bit `i` of its value.
pub proof fn lemma_u32_bit_is_nat_bit(x: u32, i: int)
    requires
        0 <= i < 32,
    ensures
        u32_bit(x, i) == nat_bit(x as nat, i as nat),
{
    lemma_u32_shr_is_div(x, i as u32);
    lemma_u32_bit_is_nat_bit_step(x, i as u32);
}

/// The low `n` bits of a word stand for the word reduced mod `2^n`.
pub proof fn lemma_u32_bits_nat(x: u32, n: nat)
    requires
        n <= 32,
    ensures
        u32_bits(x, n) == nat_bits(x as nat, n),
        seq_val(u32_bits(x, n)) == x as nat % pow2(n),
{
    assert forall|i: int| 0 <= i < n implies #[trigger] u32_bits(x, n)[i] == nat_bits(
        x as nat,
        n,
    )[i] by {
        lemma_u32_bit_is_nat_bit(x, i);
    }
    assert(u32_bits(x, n) =~= nat_bits(x as nat, n));
    lemma_nat_bits_val(x as nat, n);
}

/// A word below `2^n` is the value of its low `n` bits.
pub proof fn lemma_u32_bits_val(x: u32, n: nat)
    requires
        n <= 32,
        x < pow2(n),
    ensures
        seq_val(u32_bits(x, n)) == x,
{
    lemma_u32_bits_nat(x, n);
    lemma_small_mod(x as nat, pow2(n));
}

} // verus!

verus! {

pub proof fn lemma_bv_and(x: u32, y: u32, i: u32)
    by (bit_vector)
    requires
        i < 32,
    ensures
        (((x & y) >> i) & 1u32 == 1u32) == (((x >> i) & 1u32 == 1u32) && ((y >> i) & 1u32
            == 1u32)),
{
}

pub proof fn lemma_bv_or(x: u32, y: u32, i: u32)
    by (bit_vector)
    requires
        i < 32,
    ensures
        (((x | y) >> i) & 1u32 == 1u32) == (((x >> i) & 1u32 == 1u32) || ((y >> i) & 1u32
            == 1u32)),
{
}

pub proof fn lemma_bv_xor(x: u32, y: u32, i: u32)
    by (bit_vector)
    requires
        i < 32,
    ensures
        (((x ^ y) >> i) & 1u32 == 1u32) == (((x >> i) & 1u32 == 1u32) != ((y >> i) & 1u32
            == 1u32)),
{
}

pub proof fn lemma_bv_not(x: u32, i: u32)
    by (bit_vector)
    requires
        i < 32,
    ensures
        (((!x) >> i) & 1u32 == 1u32) == !((x >> i) & 1u32 == 1u32),
{
}

pub proof fn lemma_bv_shl(x: u32, k: u32, i: u32)
    by (bit_vector)
    requires
        k < 32,
        i < 32,
    ensures
        (((x << k) >> i) & 1u32 == 1u32) == (i >= k && ((x >> ((i - k) as u32)) & 1u32
            == 1u32)),
{
}

pub proof fn lemma_bv_shr(x: u32, k: u32, i: u32)
    by (bit_vector)
    requires
        k < 32,
        i < 32,
    ensures
        (((x >> k) >> i) & 1u32 == 1u32) == (i + k < 32 && ((x >> ((i + k) as u32)) & 1u32
            == 1u32)),
{
}

pub proof fn lemma_bv_set(x: u32, k: u32, i: u32)
    by (bit_vector)
    requires
        k < 32,
        i < 32,
    ensures
        (((x | (1u32 << k)) >> i) & 1u32 == 1u32) == (i == k || ((x >> i) & 1u32 == 1u32)),
        (((x & !(1u32 << k)) >> i) & 1u32 == 1u32) == (i != k && ((x >> i) & 1u32 == 1u32)),
        ((x & (1u32 << k)) != 0u32) == ((x >> k) & 1u32 == 1u32),
{
}

pub proof fn lemma_bv_low_bit(x: u32)
    by (bit_vector)
    ensures
        ((x & 1u32) != 0u32) == ((x >> 0u32) & 1u32 == 1u32),
        ((x >> 1u32) >> 0u32) == x >> 1u32,
{
}

pub proof fn lemma_bv_shift_step(x: u32, i: u32)
    by (bit_vector)
    requires
        i < 32,
    ensures
        (x >> i) >> 1u32 == x >> ((i + 1) as u32),
        ((x >> i) & 1u32 != 0u32) == ((x >> i) & 1u32 == 1u32),
{
}

/// Bits of a word at or above `n` are clear when the word is below `2^n`.
pub proof fn lemma_u32_high_bits_clear(x: u32, n: nat, j: int)
    requires
        n <= j < 32,
        x < pow2(n),
    ensures
        !u32_bit(x, j),
{
    lemma_u32_bit_is_nat_bit(x, j);
    if n < j {
        lemma_pow2_strictly_increases(n, j as nat);
    }
    lemma_pow2_pos(j as nat);
    lemma_basic_div(x as int, pow2(j as nat) as int);
}

/// `x & (2^n - 1)` is `x mod 2^n`, and keeps the low `n` bits.
pub proof fn lemma_u32_mask(x: u32, m: u32, n: nat)
    requires
        n <= 32,
        m as nat == pow2(n) - 1,
    ensures
        (x & m) as nat == x as nat % pow2(n),
        u32_bits(x & m, n) == u32_bits(x, n),
{
    lemma2_to64();
    if n < 32 {
        lemma_u32_low_bits_mask_is_mod(x, n);
        lemma_u32_pow2_no_overflow(n);
    } else {
        assert(m == 0xffffffffu32);
        assert(x & 0xffffffffu32 == x) by (bit_vector);
        lemma_small_mod(x as nat, pow2(n));
    }
    lemma_u32_bits_nat(x & m, n);
    lemma_u32_bits_nat(x, n);
    lemma_pow2_pos(n);
    lemma_mod_twice(x as int, pow2(n) as int);
    lemma_nat_bits_val(x as nat, n);
    lemma_nat_bits_val((x & m) as nat, n);
    lemma_val_bits(u32_bits(x & m, n));
    lemma_val_bits(u32_bits(x, n));
}

} // verus!

verus! {

/// Adding or removing `2^m` does not change a value mod `2^n` when `n <= m`.
pub proof fn lemma_mod_pow2_shift(x: int, n: nat, m: nat)
    requires
        n <= m,
    ensures
        (x + pow2(m)) % (pow2(n) as int) == x % (pow2(n) as int),
        (x - pow2(m)) % (pow2(n) as int) == x % (pow2(n) as int),
{
    lemma_pow2_adds(n, (m - n) as nat);
    lemma_pow2_pos(n);
    lemma_mod_multiples_vanish(pow2((m - n) as nat) as int, x, pow2(n) as int);
    let a = pow2(n) as int;
    let b = pow2((m - n) as nat) as int;
    assert(a * (-b) == -(a * b)) by (nonlinear_arith);
    lemma_mod_multiples_vanish(-b, x, a);
}

/// Reducing mod `2^m` and then mod `2^n` is reducing mod `2^n`, when `n <= m`.
pub proof fn lemma_mod_pow2_mod(x: int, n: nat, m: nat)
    requires
        n <= m,
    ensures
        (x % (pow2(m) as int)) % (pow2(n) as int) == x % (pow2(n) as int),
{
    lemma_pow2_adds(n, (m - n) as nat);
    lemma_pow2_pos(n);
    lemma_pow2_pos((m - n) as nat);
    lemma_mod_mod(x, pow2(n) as int, pow2((m - n) as nat) as int);
}

} // verus!

verus! {

/// Inverting every bit of an `n`-bit value `v` gives `2^n - 1 - v`.
pub proof fn lemma_seq_val_not(s: Seq<bool>)
    ensures
        seq_val(not_seq(s)) == pow2(s.len()) - 1 - seq_val(s),
    decreases s.len(),
{
    lemma2_to64();
    if s.len() > 0 {
        assert(not_seq(s).drop_first() =~= not_seq(s.drop_first()));
        lemma_seq_val_not(s.drop_first());
        lemma_pow2_unfold(s.len());
    }
}

/// The value of a slice is its lowest bit plus twice the value of the rest.
pub proof fn lemma_seq_val_subrange_step(s: Seq<bool>, k: int, e: int)
    requires
        0 <= k < e <= s.len(),
    ensures
        seq_val(s.subrange(k, e)) == (if s[k] {
            1nat
        } else {
            0nat
        }) + 2 * seq_val(s.subrange(k + 1, e)),
{
    assert(s.subrange(k, e).drop_first() =~= s.subrange(k + 1, e));
}

/// A value splits into its low `k` bits and the bits from `k` on.
pub proof fn lemma_seq_val_split(s: Seq<bool>, k: int)
    requires
        0 <= k <= s.len(),
    ensures
        seq_val(s) == seq_val(s.take(k)) + pow2(k as nat) * seq_val(s.skip(k)),
    decreases k,
{
    lemma2_to64();
    if k == 0 {
        assert(s.take(0) =~= Seq::<bool>::empty());
        assert(s.skip(0) =~= s);
        let v = seq_val(s) as int;
        assert(pow2(k as nat) == 1);
        assert(seq_val(s.skip(k)) == v);
        assert(pow2(k as nat) * seq_val(s.skip(k)) == v) by (nonlinear_arith)
            requires
                pow2(k as nat) == 1,
                seq_val(s.skip(k)) == v,
        ;
    } else {
        lemma_seq_val_split(s, k - 1);
        lemma_seq_val_take(s, k - 1);
        assert(s.skip(k - 1).drop_first() =~= s.skip(k));
        assert(s.skip(k - 1)[0] == s[k - 1]);
        let p = pow2((k - 1) as nat) as int;
        let y = seq_val(s.skip(k)) as int;
        let b: int = if s[k - 1] {
            1
        } else {
            0
        };
        lemma_pow2_unfold(k as nat);
        assert(seq_val(s.skip(k - 1)) == b + 2 * y);
        assert(seq_val(s.take(k)) == seq_val(s.take(k - 1)) + p * b);
        assert(p * (b + 2 * y) == p * b + (2 * p) * y) by (nonlinear_arith);
        assert(pow2((k - 1) as nat) * seq_val(s.skip(k - 1)) == p * (b + 2 * y));
        assert(pow2(k as nat) * seq_val(s.skip(k)) == (2 * p) * y);
    }
}

/// The low `k` bits hold the value mod `2^k`.
pub proof fn lemma_seq_val_take_mod(s: Seq<bool>, k: int)
    requires
        0 <= k <= s.len(),
    ensures
        seq_val(s.take(k)) == seq_val(s) % pow2(k as nat),
{
    lemma_seq_val_split(s, k);
    lemma_seq_val_bound(s.take(k));
    lemma_pow2_pos(k as nat);
    vstd::arithmetic::mul::lemma_mul_is_commutative(
        pow2(k as nat) as int,
        seq_val(s.skip(k)) as int,
    );
    lemma_fundamental_div_mod_converse(
        seq_val(s) as int,
        pow2(k as nat) as int,
        seq_val(s.skip(k)) as int,
        seq_val(s.take(k)) as int,
    );
}

} // verus!

verus! {

/// Keeping the low `m` bits (padding with clear bits) keeps the value mod `2^m`.
pub proof fn lemma_seq_val_resize(s: Seq<bool>, m: nat)
    ensures
        seq_val(resize_seq(s, m)) == seq_val(s) % pow2(m),
{
    lemma_pow2_pos(m);
    if m <= s.len() {
        assert(resize_seq(s, m) =~= s.take(m as int));
        lemma_seq_val_take_mod(s, m as int);
    } else {
        let r = resize_seq(s, m);
        let n = s.len() as int;
        lemma_seq_val_split(r, n);
        assert(r.take(n) =~= s);
        lemma_seq_val_zero(r.skip(n));
        let z = seq_val(r.skip(n)) as int;
        assert(z == 0);
        assert(pow2(n as nat) * z == 0) by (nonlinear_arith)
            requires
                z == 0,
        ;
        lemma_seq_val_bound(s);
        lemma_pow2_strictly_increases(n as nat, m);
        lemma_small_mod(seq_val(s), pow2(m));
    }
}

/// Shifting a one left by `k < 128` places gives `2^k`.
pub proof fn lemma_u128_one_shl(k: u32)
    requires
        k < 128,
    ensures
        (1u128 << k) as nat == pow2(k as nat),
    decreases k,
{
    if k == 0 {
        assert(1u128 << 0u32 == 1u128) by (bit_vector);
        lemma2_to64();
    } else {
        lemma_u128_one_shl((k - 1) as u32);
        let j = (k - 1) as u32;
        assert((1u128 << ((j + 1) as u32)) as int == 2 * ((1u128 << j) as int)) by (bit_vector)
            requires
                j < 127,
        ;
        lemma_pow2_unfold(k as nat);
    }
}

} // verus!

verus! {

/// `n < 2^n`.
pub proof fn lemma_lt_pow2(n: nat)
    ensures
        n < pow2(n),
    decreases n,
{
    lemma2_to64();
    if n > 0 {
        lemma_lt_pow2((n - 1) as nat);
        lemma_pow2_unfold(n);
        lemma_pow2_pos((n - 1) as nat);
    }
}

} // verus!

verus! {

/// Of two sequences of one length that agree above bit `p`, the one with bit
/// `p` set holds the larger value.
pub proof fn lemma_seq_val_greater_at(s: Seq<bool>, t: Seq<bool>, p: int)
    requires
        s.len() == t.len(),
        0 <= p < s.len(),
        s.skip(p + 1) == t.skip(p + 1),
        s[p],
        !t[p],
    ensures
        seq_val(s) > seq_val(t),
{
    lemma_seq_val_split(s, p);
    lemma_seq_val_split(t, p);
    assert(s.skip(p).drop_first() =~= s.skip(p + 1));
    assert(t.skip(p).drop_first() =~= t.skip(p + 1));
    assert(s.skip(p)[0] == s[p]);
    assert(t.skip(p)[0] == t[p]);
    lemma_seq_val_bound(t.take(p));
    let h = seq_val(s.skip(p + 1)) as int;
    let q = pow2(p as nat) as int;
    assert(seq_val(s.skip(p)) == 1 + 2 * h);
    assert(seq_val(t.skip(p)) == 2 * h);
    assert(q * (1 + 2 * h) == q + q * (2 * h)) by (nonlinear_arith);
}

} // verus!

verus! {

/// Shifting towards bit 0 by `k` divides the value by `2^k`.
pub proof fn lemma_seq_val_shr(s: Seq<bool>, k: nat)
    requires
        k <= s.len(),
    ensures
        seq_val(shr_seq(s, k)) == seq_val(s) / pow2(k),
{
    let n = s.len() as int;
    let t = shr_seq(s, k);
    lemma_seq_val_split(t, n - k);
    assert(t.take(n - k) =~= s.skip(k as int));
    lemma_seq_val_zero(t.skip(n - k));
    let z = seq_val(t.skip(n - k)) as int;
    assert(pow2((n - k) as nat) * z == 0) by (nonlinear_arith)
        requires
            z == 0,
    ;
    lemma_seq_val_split(s, k as int);
    lemma_seq_val_bound(s.take(k as int));
    lemma_pow2_pos(k);
    vstd::arithmetic::mul::lemma_mul_is_commutative(
        pow2(k) as int,
        seq_val(s.skip(k as int)) as int,
    );
    lemma_fundamental_div_mod_converse(
        seq_val(s) as int,
        pow2(k) as int,
        seq_val(s.skip(k as int)) as int,
        seq_val(s.take(k as int)) as int,
    );
}

} // verus!

verus! {

/// Shifting `s` up by `k` and setting the freed low bits to a value
/// `v < 2^k` gives `v` plus `2^k` times the low `len - k` bits of `s`.
pub proof fn lemma_shift_in_val(s: Seq<bool>, v: nat, k: nat)
    requires
        k <= s.len(),
        v < pow2(k),
    ensures
        seq_val(or_seq(shl_seq(s, k), nat_bits(v, s.len()))) == v + pow2(k) * (seq_val(s) % pow2(
            (s.len() - k) as nat,
        )),
{
    let n = s.len() as int;
    let r = or_seq(shl_seq(s, k), nat_bits(v, s.len()));
    lemma_seq_val_split(r, k as int);
    assert(r.take(k as int) =~= nat_bits(v, k));
    lemma_nat_bits_val(v, k);
    lemma_small_mod(v, pow2(k));
    assert forall|i: int| 0 <= i < n - k implies #[trigger] r.skip(k as int)[i] == s.take(n - k)[i] by {
        let j = (k + i) as nat;
        if k < j {
            lemma_pow2_strictly_increases(k, j);
        }
        lemma_basic_div(v as int, pow2(j) as int);
        assert(!nat_bit(v, j));
    }
    assert(r.skip(k as int) =~= s.take(n - k));
    lemma_seq_val_take_mod(s, n - k);
}

} // verus!
