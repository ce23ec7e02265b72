//! The mathematics the scheme is stated in: little-endian byte strings as
//! natural numbers, and exponentiation and inverses modulo a natural number.

use vstd::arithmetic::div_mod::*;
use vstd::arithmetic::mul::*;
use vstd::arithmetic::power::*;
use vstd::prelude::*;

verus! {

/// The natural number that a byte string denotes, least significant byte
/// first. The empty string denotes zero.
pub open spec fn le_value(bytes: Seq<u8>) -> nat
    decreases bytes.len(),
{
    if bytes.len() == 0 {
        0
    } else {
        bytes[0] as nat + 256 * le_value(bytes.drop_first())
    }
}

/// The shortest little-endian byte string that denotes `n`; zero is the
/// single byte `0`.
pub open spec fn le_encoding(n: nat) -> Seq<u8>
    decreases n,
{
    if n < 256 {
        seq![n as u8]
    } else {
        seq![(n % 256) as u8] + le_encoding(n / 256)
    }
}

/// The fewest bits that express `n`: zero for zero.
pub open spec fn bit_length(n: nat) -> nat
    decreases n,
{
    if n == 0 {
        0
    } else {
        1 + bit_length(n / 2)
    }
}

/// `c` is one of the ten decimal digits.
pub open spec fn is_digit(c: char) -> bool {
    '0' as int <= c as int <= '9' as int
}

/// The number that a string of digits denotes in base ten; underscores
/// between the digits are passed over.
pub open spec fn digits_value(s: Seq<char>) -> nat
    decreases s.len(),
{
    if s.len() == 0 {
        0
    } else if s.last() == '_' {
        digits_value(s.drop_last())
    } else {
        (10 * digits_value(s.drop_last()) + (s.last() as int - '0' as int)) as nat
    }
}

/// `s` is a non-empty string of digits and underscores that starts with a
/// digit.
pub open spec fn is_unsigned_decimal(s: Seq<char>) -> bool {
    &&& s.len() > 0
    &&& s[0] != '_'
    &&& forall|k: int| 0 <= k < s.len() ==> is_digit(#[trigger] s[k]) || s[k] == '_'
}

/// The number that a decimal string denotes: digits, with underscores
/// allowed after the first digit and one `+` allowed in front. `None` for a
/// string of any other form.
pub open spec fn decimal_value(s: Seq<char>) -> Option<nat> {
    let signed = s.len() > 0 && s[0] == '+' && !(s.len() > 1 && s[1] == '+');
    let digits = if signed {
        s.drop_first()
    } else {
        s
    };
    if is_unsigned_decimal(digits) {
        Some(digits_value(digits))
    } else {
        None
    }
}

/// `base` to the power `exp`, reduced modulo `modulus`.
pub open spec fn mod_pow(base: nat, exp: nat, modulus: nat) -> nat {
    (pow(base as int, exp) % (modulus as int)) as nat
}

/// `x` is the inverse of `a` modulo `m`, taken in `[0, m)`.
pub open spec fn is_inverse(a: nat, x: nat, m: nat) -> bool {
    x < m && (a * x) % m == 1nat % m
}

/// `a` has an inverse modulo `m`.
pub open spec fn invertible(a: nat, m: nat) -> bool {
    exists|x: nat| is_inverse(a, x, m)
}

/// The inverse of `a` modulo `m`, where there is one.
pub open spec fn mod_inverse(a: nat, m: nat) -> nat {
    choose|x: nat| is_inverse(a, x, m)
}

/// `n` is a prime number.
pub open spec fn is_prime(n: nat) -> bool {
    n >= 2 && forall|d: nat| 1 < d < n ==> #[trigger] (n % d) != 0
}

/// `b` lies in the subgroup of order dividing `q` of the integers modulo `p`.
pub open spec fn in_subgroup(b: nat, q: nat, p: nat) -> bool {
    mod_pow(b, q, p) == 1
}

/// The encoding of a number denotes that number.
pub proof fn lemma_le_encoding_value(n: nat)
    ensures
        le_value(le_encoding(n)) == n,
    decreases n,
{
    let enc = le_encoding(n);
    if n < 256 {
        assert(enc.drop_first() =~= Seq::<u8>::empty());
        assert(le_value(enc.drop_first()) == 0);
        assert(enc[0] as nat == n);
    } else {
        let rest = le_encoding(n / 256);
        assert(enc.drop_first() =~= rest);
        assert(enc[0] as nat == n % 256);
        lemma_le_encoding_value(n / 256);
        lemma_fundamental_div_mod(n as int, 256);
    }
}

/// One more byte at the significant end adds that byte times the weight of
/// its place.
pub proof fn lemma_le_value_push(bytes: Seq<u8>, last: u8)
    ensures
        le_value(bytes.push(last)) == le_value(bytes) + last * pow(256, bytes.len()),
    decreases bytes.len(),
{
    let longer = bytes.push(last);
    if bytes.len() == 0 {
        assert(longer.drop_first() =~= Seq::<u8>::empty());
        assert(le_value(longer.drop_first()) == 0);
        lemma_pow0(256);
    } else {
        let rest = bytes.drop_first();
        assert(longer.drop_first() =~= rest.push(last));
        lemma_le_value_push(rest, last);
        let high = pow(256, rest.len());
        assert(pow(256, bytes.len()) == 256 * high) by {
            reveal(pow);
        }
        assert(256 * (le_value(rest) + last * high) == 256 * le_value(rest) + last * (256 * high))
            by (nonlinear_arith);
    }
}

/// A byte string that ends in a non-zero byte denotes a positive number.
pub proof fn lemma_le_value_positive(bytes: Seq<u8>)
    requires
        bytes.len() > 0,
        bytes.last() != 0,
    ensures
        le_value(bytes) > 0,
    decreases bytes.len(),
{
    let rest = bytes.drop_first();
    if rest.len() > 0 {
        assert(rest.last() == bytes.last());
        lemma_le_value_positive(rest);
    }
}

/// A byte string that ends in a non-zero byte is the encoding of the number
/// it denotes.
pub proof fn lemma_le_encoding_of_trimmed(bytes: Seq<u8>)
    requires
        bytes.len() > 0,
        bytes.last() != 0,
    ensures
        le_encoding(le_value(bytes)) == bytes,
    decreases bytes.len(),
{
    let rest = bytes.drop_first();
    let n = le_value(bytes);
    if rest.len() == 0 {
        assert(le_value(rest) == 0);
        assert(le_encoding(n) =~= bytes);
    } else {
        assert(rest.last() == bytes.last());
        lemma_le_value_positive(rest);
        lemma_le_encoding_of_trimmed(rest);
        assert(n % 256 == bytes[0] as nat);
        assert(n / 256 == le_value(rest));
        assert(le_encoding(n) =~= bytes);
    }
}

/// Zero bytes at the significant end do not change the number.
pub proof fn lemma_le_value_trailing_zero(bytes: Seq<u8>)
    requires
        bytes.len() > 0,
        bytes.last() == 0,
    ensures
        le_value(bytes.drop_last()) == le_value(bytes),
{
    assert(bytes.drop_last().push(0u8) =~= bytes);
    lemma_le_value_push(bytes.drop_last(), 0u8);
}

/// A power reduced modulo `m` lies below `m`.
pub proof fn lemma_mod_pow_bound(b: nat, e: nat, m: nat)
    requires
        m > 0,
    ensures
        mod_pow(b, e, m) < m,
{
    lemma_mod_bound(pow(b as int, e), m as int);
}

/// Every power of one is one.
pub proof fn lemma_mod_pow_of_one(e: nat, m: nat)
    requires
        m > 1,
    ensures
        mod_pow(1, e, m) == 1,
{
    lemma1_pow(e);
    lemma_small_mod(1, m);
}

/// A sum in the exponent is a product of powers.
pub proof fn lemma_mod_pow_add(b: nat, e1: nat, e2: nat, m: nat)
    requires
        m > 0,
    ensures
        mod_pow(b, e1 + e2, m) == (mod_pow(b, e1, m) * mod_pow(b, e2, m)) % m,
{
    lemma_pow_adds(b as int, e1, e2);
    lemma_mul_mod_noop(pow(b as int, e1), pow(b as int, e2), m as int);
}

/// A power of a product is the product of the powers.
pub proof fn lemma_mod_pow_of_product(a: nat, b: nat, e: nat, m: nat)
    requires
        m > 0,
    ensures
        mod_pow(a * b, e, m) == (mod_pow(a, e, m) * mod_pow(b, e, m)) % m,
{
    lemma_pow_distributes(a as int, b as int, e);
    lemma_mul_mod_noop(pow(a as int, e), pow(b as int, e), m as int);
}

/// A power of a power multiplies the exponents.
pub proof fn lemma_mod_pow_of_power(b: nat, e1: nat, e2: nat, m: nat)
    requires
        m > 0,
    ensures
        mod_pow(mod_pow(b, e1, m), e2, m) == mod_pow(b, e1 * e2, m),
{
    lemma_pow_mod_noop(pow(b as int, e1), e2, m as int);
    lemma_pow_multiplies(b as int, e1, e2);
}

/// `a` and `b` leave the same remainder modulo `m`.
pub open spec fn congruent(a: int, b: int, m: int) -> bool {
    a % m == b % m
}

/// A remainder is congruent to what it was taken of.
pub proof fn lemma_congruent_mod(a: int, m: int)
    requires
        m > 0,
    ensures
        congruent(a % m, a, m),
{
    lemma_mod_twice(a, m);
}

/// Congruences add.
pub proof fn lemma_congruent_add(a: int, b: int, c: int, d: int, m: int)
    requires
        m > 0,
        congruent(a, b, m),
        congruent(c, d, m),
    ensures
        congruent(a + c, b + d, m),
{
    lemma_add_mod_noop(a, c, m);
    lemma_add_mod_noop(b, d, m);
}

/// Congruences subtract.
pub proof fn lemma_congruent_sub(a: int, b: int, c: int, d: int, m: int)
    requires
        m > 0,
        congruent(a, b, m),
        congruent(c, d, m),
    ensures
        congruent(a - c, b - d, m),
{
    lemma_sub_mod_noop(a, c, m);
    lemma_sub_mod_noop(b, d, m);
}

/// Congruences multiply.
pub proof fn lemma_congruent_mul(a: int, b: int, c: int, d: int, m: int)
    requires
        m > 0,
        congruent(a, b, m),
        congruent(c, d, m),
    ensures
        congruent(a * c, b * d, m),
{
    lemma_mul_mod_noop(a, c, m);
    lemma_mul_mod_noop(b, d, m);
}

/// In the subgroup only the remainder of the exponent modulo `q` counts.
pub proof fn lemma_subgroup_exponent_reduce(b: nat, e: nat, q: nat, p: nat)
    requires
        p > 1,
        q > 0,
        in_subgroup(b, q, p),
    ensures
        mod_pow(b, e % q, p) == mod_pow(b, e, p),
{
    let k = e / q;
    let r = e % q;
    lemma_fundamental_div_mod(e as int, q as int);
    assert(e == q * k + r);
    lemma_mod_pow_of_power(b, q, k, p);
    lemma_mod_pow_of_one(k, p);
    lemma_mod_pow_add(b, q * k, r, p);
    lemma_mod_pow_bound(b, r, p);
    lemma_small_mod(mod_pow(b, r, p), p);
    assert(1 * mod_pow(b, r, p) == mod_pow(b, r, p));
}

/// In the subgroup congruent exponents give the same power.
pub proof fn lemma_subgroup_exponent(b: nat, e1: nat, e2: nat, q: nat, p: nat)
    requires
        p > 1,
        q > 0,
        in_subgroup(b, q, p),
        congruent(e1 as int, e2 as int, q as int),
    ensures
        mod_pow(b, e1, p) == mod_pow(b, e2, p),
{
    lemma_subgroup_exponent_reduce(b, e1, q, p);
    lemma_subgroup_exponent_reduce(b, e2, q, p);
}

/// The subgroup is closed under products.
pub proof fn lemma_subgroup_product(a: nat, b: nat, q: nat, p: nat)
    requires
        p > 1,
        in_subgroup(a, q, p),
        in_subgroup(b, q, p),
    ensures
        in_subgroup(a * b, q, p),
{
    lemma_mod_pow_of_product(a, b, q, p);
    lemma_small_mod(1, p);
}

/// The subgroup is closed under powers.
pub proof fn lemma_subgroup_power(b: nat, e: nat, q: nat, p: nat)
    requires
        p > 1,
        in_subgroup(b, q, p),
    ensures
        in_subgroup(mod_pow(b, e, p), q, p),
{
    lemma_mod_pow_of_power(b, e, q, p);
    lemma_mod_pow_of_power(b, q, e, p);
    lemma_mul_is_commutative(e as int, q as int);
    lemma_mod_pow_of_one(e, p);
}

/// A number has at most one inverse in `[0, m)`.
pub proof fn lemma_inverse_unique(a: nat, x: nat, y: nat, m: nat)
    requires
        is_inverse(a, x, m),
        is_inverse(a, y, m),
    ensures
        x == y,
{
    let mi = m as int;
    // x = x * 1 = x * (a * y) = (a * x) * y = 1 * y = y, all modulo m
    lemma_congruent_mul(x as int, x as int, (a * y) as int, 1, mi);
    lemma_congruent_mul((a * x) as int, 1, y as int, y as int, mi);
    assert(x * (a * y) == (a * x) * y) by (nonlinear_arith);
    assert(congruent(x as int, y as int, mi));
    lemma_small_mod(x, m);
    lemma_small_mod(y, m);
}

/// Where a number is invertible, `mod_inverse` is its inverse.
pub proof fn lemma_mod_inverse(a: nat, m: nat)
    requires
        invertible(a, m),
    ensures
        is_inverse(a, mod_inverse(a, m), m),
{
}

/// An inverse that was found is the inverse.
pub proof fn lemma_mod_inverse_found(a: nat, x: nat, m: nat)
    requires
        is_inverse(a, x, m),
    ensures
        invertible(a, m),
        mod_inverse(a, m) == x,
{
    lemma_inverse_unique(a, x, mod_inverse(a, m), m);
}

/// Below a prime every positive number has an inverse.
proof fn lemma_prime_inverse_below(a: nat, q: nat)
    requires
        is_prime(q),
        0 < a < q,
    ensures
        invertible(a, q),
    decreases a,
{
    let qi = q as int;
    if a == 1 {
        lemma_small_mod(1, q);
        assert(is_inverse(a, 1, q));
    } else {
        let k = q / a;
        let r = q % a;
        lemma_fundamental_div_mod(qi, a as int);
        assert(q == a * k + r);
        assert(r != 0);
        lemma_mod_bound(qi, a as int);
        lemma_prime_inverse_below(r, q);
        let y = choose|y: nat| is_inverse(r, y, q);
        let x = ((-(k * y)) % qi) as nat;
        lemma_mod_bound(-(k * y), qi);
        // a * x = a * -(k y) = r y - q y = r y = 1, all modulo q
        lemma_congruent_mod(-(k * y), qi);
        lemma_congruent_mul(a as int, a as int, x as int, -(k * y), qi);
        assert(a * (-(k * y)) == r * y + q * (-(y as int))) by (nonlinear_arith)
            requires
                q == a * k + r,
        ;
        lemma_mod_multiples_vanish(-(y as int), (r * y) as int, qi);
        assert(congruent((a * x) as int, (r * y) as int, qi));
        assert(is_inverse(a, x, q));
    }
}

/// Modulo a prime every number that is not a multiple of it has an inverse.
pub proof fn lemma_prime_invertible(a: nat, q: nat)
    requires
        is_prime(q),
        a % q != 0,
    ensures
        invertible(a, q),
{
    let r = a % q;
    lemma_mod_bound(a as int, q as int);
    lemma_prime_inverse_below(r, q);
    let x = choose|x: nat| is_inverse(r, x, q);
    lemma_congruent_mod(a as int, q as int);
    lemma_congruent_mul(r as int, a as int, x as int, x as int, q as int);
    assert(is_inverse(a, x, q));
}

/// A prime that divides a product divides one of its factors.
pub proof fn lemma_prime_product_nonzero(a: int, b: int, q: nat)
    requires
        is_prime(q),
        a % (q as int) != 0,
        b % (q as int) != 0,
    ensures
        (a * b) % (q as int) != 0,
{
    let qi = q as int;
    let r = (a % qi) as nat;
    lemma_mod_bound(a, qi);
    lemma_prime_inverse_below(r, q);
    let x = choose|x: nat| is_inverse(r, x, q);
    if (a * b) % qi == 0 {
        // b = 1 * b = (x a) b = x (a b) = 0, all modulo q
        lemma_congruent_mod(a, qi);
        lemma_congruent_mul(r as int, a, x as int, x as int, qi);
        lemma_small_mod(1, q);
        assert(congruent(a * x, 1, qi));
        lemma_congruent_mul(a * x, 1, b, b, qi);
        assert((a * x) * b == x * (a * b)) by (nonlinear_arith);
        lemma_small_mod(0, q);
        lemma_congruent_mul(x as int, x as int, a * b, 0, qi);
        assert(x * 0 == 0);
        assert(b % qi == 0);
    }
}

} // verus!
