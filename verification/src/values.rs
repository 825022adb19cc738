//! Machine values: byte strings read as big-endian unsigned integers.
//!
//! A register's raw bytes denote the natural number `be_value(bytes)`.
//! Arithmetic produces the *canonical* encoding of its result: the shortest
//! big-endian form, with a single zero byte standing for zero.

use vstd::prelude::*;

verus! {

/// The natural number denoted by a big-endian byte string.
pub open spec fn be_value(s: Seq<u8>) -> nat
    decreases s.len(),
{
    if s.len() == 0 {
        0
    } else {
        (be_value(s.drop_last()) * 256 + s.last()) as nat
    }
}

/// A canonical big-endian encoding: non-empty, and without a leading zero
/// byte except for the one-byte encoding of zero itself.
pub open spec fn canonical(s: Seq<u8>) -> bool {
    s.len() >= 1 && (s.len() == 1 || s[0] != 0)
}

/// The shortest big-endian encoding of `n`; empty for zero.
pub open spec fn min_be_bytes(n: nat) -> Seq<u8>
    decreases n,
{
    if n == 0 {
        Seq::empty()
    } else {
        min_be_bytes(n / 256) + seq![(n % 256) as u8]
    }
}

/// The canonical big-endian encoding of `n` (a single zero byte for zero).
pub open spec fn be_bytes_of(n: nat) -> Seq<u8> {
    if n == 0 {
        seq![0u8]
    } else {
        min_be_bytes(n)
    }
}

/// 256 raised to the power `k`: the number of values a `k`-byte string can hold.
pub open spec fn pow256(k: nat) -> nat
    decreases k,
{
    if k == 0 {
        1
    } else {
        256 * pow256((k - 1) as nat)
    }
}

/// The `w`-byte big-endian encoding of `n mod 256^w`.
pub open spec fn fixed_be_bytes(n: nat, w: nat) -> Seq<u8> {
    Seq::new(w, |i: int| ((n / pow256((w - 1 - i) as nat)) % 256) as u8)
}

pub proof fn lemma_pow256_pos(k: nat)
    ensures
        pow256(k) >= 1,
    decreases k,
{
    if k > 0 {
        lemma_pow256_pos((k - 1) as nat);
    }
}

/// Appending a byte multiplies the value by 256 and adds the byte.
pub proof fn lemma_be_value_snoc(s: Seq<u8>, b: u8)
    ensures
        be_value(s.push(b)) == be_value(s) * 256 + b,
{
    assert(s.push(b).drop_last() =~= s);
    assert(s.push(b).last() == b);
}

pub proof fn lemma_be_value_bound(s: Seq<u8>)
    ensures
        be_value(s) < pow256(s.len()),
    decreases s.len(),
{
    if s.len() == 0 {
    } else {
        let d = s.drop_last();
        lemma_be_value_bound(d);
        assert(be_value(d) <= pow256(d.len()) - 1);
        assert(be_value(d) * 256 <= (pow256(d.len()) - 1) * 256) by (nonlinear_arith)
            requires
                be_value(d) <= pow256(d.len()) - 1,
        ;
        assert(pow256(s.len()) == 256 * pow256(d.len()));
    }
}

/// A byte string with a nonzero leading byte denotes at least `256^(len-1)`.
pub proof fn lemma_be_value_lower_bound(s: Seq<u8>)
    requires
        s.len() >= 1,
        s[0] != 0,
    ensures
        be_value(s) >= pow256((s.len() - 1) as nat),
    decreases s.len(),
{
    if s.len() == 1 {
        assert(be_value(s) == be_value(s.drop_last()) * 256 + s.last());
        assert(s.last() == s[0]);
    } else {
        let d = s.drop_last();
        lemma_be_value_lower_bound(d);
        let p = pow256((d.len() - 1) as nat);
        assert(be_value(d) * 256 >= p * 256) by (nonlinear_arith)
            requires
                be_value(d) >= p,
        ;
        assert(pow256((s.len() - 1) as nat) == 256 * p);
    }
}

/// The minimal encoding really denotes `n`, and has no leading zero.
pub proof fn lemma_min_be_bytes_value(n: nat)
    ensures
        be_value(min_be_bytes(n)) == n,
        n > 0 ==> min_be_bytes(n).len() >= 1 && min_be_bytes(n)[0] != 0,
    decreases n,
{
    if n > 0 {
        lemma_min_be_bytes_value(n / 256);
        let d = min_be_bytes(n / 256);
        let b = (n % 256) as u8;
        assert(min_be_bytes(n) =~= d.push(b));
        lemma_be_value_snoc(d, b);
        assert((n / 256) * 256 + n % 256 == n) by {
            vstd::arithmetic::div_mod::lemma_fundamental_div_mod(n as int, 256);
        }
        if n / 256 > 0 {
            assert(min_be_bytes(n)[0] == d[0]);
        } else {
            assert(min_be_bytes(n).len() == 1);
            assert(min_be_bytes(n)[0] == b);
            assert(b != 0);
        }
    }
}

/// The canonical encoding denotes `n` and is canonical.
pub proof fn lemma_be_bytes_of_value(n: nat)
    ensures
        be_value(be_bytes_of(n)) == n,
        canonical(be_bytes_of(n)),
{
    if n == 0 {
        assert(be_bytes_of(0) =~= seq![0u8]);
        assert(be_value(seq![0u8]) == be_value(seq![0u8].drop_last()) * 256 + 0);
        assert(seq![0u8].drop_last() =~= Seq::<u8>::empty());
    } else {
        lemma_min_be_bytes_value(n);
        if min_be_bytes(n).len() == 0 {
            assert(be_value(min_be_bytes(n)) == 0);
        }
    }
}

/// Canonical encodings are unique: a canonical byte string is the canonical
/// encoding of its own value.
pub proof fn lemma_canonical_unique(s: Seq<u8>)
    requires
        canonical(s),
    ensures
        be_bytes_of(be_value(s)) == s,
    decreases s.len(),
{
    let v = be_value(s);
    if s.len() == 1 {
        let b = s[0];
        assert(s.drop_last() =~= Seq::<u8>::empty());
        assert(v == b);
        if b == 0 {
            assert(be_bytes_of(v) =~= seq![0u8]);
            assert(be_bytes_of(v) =~= s);
        } else {
            assert(v / 256 == 0 && v % 256 == v) by {
                vstd::arithmetic::div_mod::lemma_basic_div(v as int, 256);
                vstd::arithmetic::div_mod::lemma_small_mod(v, 256);
            }
            assert(min_be_bytes(v) =~= min_be_bytes(0) + seq![b]);
            assert(be_bytes_of(v) =~= s);
        }
    } else {
        let d = s.drop_last();
        let b = s.last();
        assert(d[0] == s[0]);
        assert(canonical(d));
        lemma_canonical_unique(d);
        lemma_be_value_lower_bound(d);
        lemma_pow256_pos((d.len() - 1) as nat);
        let dv = be_value(d);
        assert(v == dv * 256 + b);
        assert(dv >= 1);
        assert(v / 256 == dv && v % 256 == b) by {
            vstd::arithmetic::div_mod::lemma_fundamental_div_mod_converse(
                v as int,
                256,
                dv as int,
                b as int,
            );
        }
        assert(v > 0) by (nonlinear_arith)
            requires
                v == dv * 256 + b,
                dv >= 1,
        ;
        assert(be_bytes_of(dv) == d);
        assert(min_be_bytes(dv) == d);
        assert(min_be_bytes(v) =~= min_be_bytes(dv) + seq![b]);
        assert(be_bytes_of(v) =~= s);
    }
}

/// Splitting a byte string splits its value by place value.
pub proof fn lemma_be_value_decompose(s: Seq<u8>, i: int)
    requires
        0 <= i <= s.len(),
    ensures
        be_value(s) == be_value(s.take(i)) * pow256((s.len() - i) as nat) + be_value(s.skip(i)),
    decreases s.len() - i,
{
    if i == s.len() {
        assert(s.take(i) =~= s);
        assert(s.skip(i) =~= Seq::<u8>::empty());
        assert(pow256((s.len() - i) as nat) == 1);
        assert(be_value(s.take(i)) * pow256((s.len() - i) as nat) == be_value(s))
            by (nonlinear_arith)
            requires
                s.take(i) == s,
                pow256((s.len() - i) as nat) == 1,
        ;
    } else {
        let d = s.drop_last();
        let b = s.last();
        lemma_be_value_decompose(d, i);
        assert(d.take(i) =~= s.take(i));
        assert(d.skip(i).push(b) =~= s.skip(i));
        lemma_be_value_snoc(d.skip(i), b);
        let t = be_value(s.take(i));
        let p = pow256((d.len() - i) as nat);
        assert(pow256((s.len() - i) as nat) == 256 * p);
        assert(be_value(s) == be_value(d) * 256 + b);
        assert(be_value(d) == t * p + be_value(d.skip(i)));
        assert(be_value(s.skip(i)) == be_value(d.skip(i)) * 256 + b);
        assert((t * p + be_value(d.skip(i))) * 256 + b == t * (256 * p) + (be_value(d.skip(i)) * 256
            + b)) by (nonlinear_arith);
    }
}

/// An all-zero byte string denotes zero.
pub proof fn lemma_be_value_zero(s: Seq<u8>)
    requires
        forall|j: int| 0 <= j < s.len() ==> s[j] == 0,
    ensures
        be_value(s) == 0,
    decreases s.len(),
{
    if s.len() > 0 {
        lemma_be_value_zero(s.drop_last());
    }
}

/// Leading zero bytes do not change the value.
pub proof fn lemma_be_value_skip_zeros(s: Seq<u8>, i: int)
    requires
        0 <= i <= s.len(),
        forall|j: int| 0 <= j < i ==> s[j] == 0,
    ensures
        be_value(s) == be_value(s.skip(i)),
{
    lemma_be_value_decompose(s, i);
    lemma_be_value_zero(s.take(i));
}

/// A one-byte string denotes its byte.
pub proof fn lemma_be_value_single(b: u8)
    ensures
        be_value(seq![b]) == b,
{
    assert(seq![b].drop_last() =~= Seq::<u8>::empty());
    assert(seq![b].last() == b);
    assert(be_value(Seq::<u8>::empty()) == 0);
    assert(be_value(seq![b]) == be_value(Seq::<u8>::empty()) * 256 + b);
}

/// A value's low byte is its string's last byte.
pub proof fn lemma_be_value_low_byte(s: Seq<u8>)
    requires
        s.len() >= 1,
    ensures
        be_value(s) % 256 == s.last(),
{
    let d = be_value(s.drop_last()) as int;
    let b = s.last() as int;
    assert((256 * d + b) % 256 == b % 256) by {
        vstd::arithmetic::div_mod::lemma_mod_multiples_vanish(d, b, 256);
    }
    vstd::arithmetic::div_mod::lemma_small_mod(s.last() as nat, 256);
}

/// The fixed-width encoding denotes the value reduced modulo `256^w`.
pub proof fn lemma_fixed_be_bytes_value(n: nat, w: nat)
    ensures
        be_value(fixed_be_bytes(n, w)) == n % pow256(w),
        fixed_be_bytes(n, w).len() == w,
    decreases w,
{
    if w == 0 {
        assert(fixed_be_bytes(n, 0) =~= Seq::<u8>::empty());
        assert(n % 1 == 0) by (nonlinear_arith);
    } else {
        let s = fixed_be_bytes(n, w);
        let d = fixed_be_bytes(n / 256, (w - 1) as nat);
        assert(s.drop_last() =~= d) by {
            assert forall|i: int| 0 <= i < w - 1 implies s[i] == d[i] by {
                let k = (w - 2 - i) as nat;
                assert((n / 256) / pow256(k) == n / (256 * pow256(k))) by {
                    lemma_pow256_pos(k);
                    vstd::arithmetic::div_mod::lemma_div_denominator(
                        n as int,
                        256,
                        pow256(k) as int,
                    );
                }
                assert(pow256((w - 1 - i) as nat) == 256 * pow256(k));
            }
        }
        assert(s.last() == ((n / pow256(0)) % 256) as u8);
        assert(n / pow256(0) == n) by {
            vstd::arithmetic::div_mod::lemma_div_basics(n as int);
        }
        lemma_fixed_be_bytes_value(n / 256, (w - 1) as nat);
        let m = pow256((w - 1) as nat);
        lemma_pow256_pos((w - 1) as nat);
        assert(be_value(s) == ((n / 256) % m) * 256 + n % 256);
        assert(n % (256 * m) == 256 * ((n / 256) % m) + n % 256) by {
            vstd::arithmetic::div_mod::lemma_mod_breakdown(n as int, 256, m as int);
        }
        assert(pow256(w) == 256 * m);
    }
}

/// When `n` fits in `w` bytes the fixed-width encoding is exact.
pub proof fn lemma_fixed_be_bytes_exact(n: nat, w: nat)
    requires
        n < pow256(w),
    ensures
        be_value(fixed_be_bytes(n, w)) == n,
{
    lemma_fixed_be_bytes_value(n, w);
    vstd::arithmetic::div_mod::lemma_small_mod(n, pow256(w));
}

/// A byte string is the fixed-width encoding of its own value: two byte
/// strings of one length denoting one value are equal.
pub proof fn lemma_fixed_width_unique(s: Seq<u8>)
    ensures
        s == fixed_be_bytes(be_value(s), s.len()),
    decreases s.len(),
{
    lemma_be_value_bound(s);
    if s.len() == 0 {
        assert(s =~= fixed_be_bytes(be_value(s), 0));
    } else {
        let v = be_value(s);
        let d = s.drop_last();
        lemma_be_value_low_byte(s);
        assert(v == be_value(d) * 256 + s.last());
        assert(v / 256 == be_value(d) && v % 256 == s.last()) by {
            vstd::arithmetic::div_mod::lemma_fundamental_div_mod_converse(
                v as int,
                256,
                be_value(d) as int,
                s.last() as int,
            );
        }
        lemma_fixed_width_unique(d);
        let f = fixed_be_bytes(v, s.len());
        assert(f.len() == s.len());
        assert(f.last() == ((v / pow256(0)) % 256) as u8);
        assert(v / pow256(0) == v) by {
            vstd::arithmetic::div_mod::lemma_div_basics(v as int);
        }
        assert(f.last() == s.last());
        assert(f.drop_last() =~= fixed_be_bytes(v / 256, d.len())) by {
            assert forall|i: int| 0 <= i < d.len() implies f[i] == fixed_be_bytes(
                v / 256,
                d.len(),
            )[i] by {
                let k = (d.len() - 1 - i) as nat;
                assert((v / 256) / pow256(k) == v / (256 * pow256(k))) by {
                    lemma_pow256_pos(k);
                    vstd::arithmetic::div_mod::lemma_div_denominator(
                        v as int,
                        256,
                        pow256(k) as int,
                    );
                }
                assert(pow256((s.len() - 1 - i) as nat) == 256 * pow256(k));
            }
        }
        assert(fixed_be_bytes(v / 256, d.len()) == d);
        assert(f.drop_last() == d);
        assert forall|i: int| 0 <= i < s.len() implies s[i] == f[i] by {
            if i < s.len() - 1 {
                assert(s[i] == d[i]);
                assert(f[i] == f.drop_last()[i]);
            } else {
                assert(s[i] == s.last());
                assert(f[i] == f.last());
            }
        }
        assert(s =~= f);
    }
}

/// Converts a big-endian byte string to a `usize`, refusing values that do
/// not fit.
pub fn be_to_usize(s: &[u8]) -> (r: Option<usize>)
    ensures
        match r {
            Some(v) => v == be_value(s@),
            None => be_value(s@) > usize::MAX,
        },
{
    let mut acc: usize = 0;
    let mut i: usize = 0;
    let len = s.len();
    while i < len
        invariant
            0 <= i <= len,
            len == s@.len(),
            acc == be_value(s@.take(i as int)),
        decreases len - i,
    {
        let b = *vstd::slice::slice_index_get(s, i);
        proof {
            assert(s@.take(i + 1).drop_last() =~= s@.take(i as int));
            assert(s@.take(i + 1).last() == s@[i as int]);
        }
        if acc > (usize::MAX - b as usize) / 256 {
            proof {
                let t = s@.take(i + 1);
                assert(be_value(t) == acc * 256 + b);
                assert(acc * 256 + b > usize::MAX) by (nonlinear_arith)
                    requires
                        acc > (usize::MAX - b as usize) / 256,
                        b < 256,
                ;
                lemma_be_value_decompose(s@, i + 1);
                lemma_pow256_pos((s@.len() - i - 1) as nat);
                assert(be_value(t) * pow256((s@.len() - i - 1) as nat) >= be_value(t))
                    by (nonlinear_arith)
                    requires
                        pow256((s@.len() - i - 1) as nat) >= 1,
                ;
            }
            return None;
        }
        proof {
            assert(acc * 256 + b <= usize::MAX) by (nonlinear_arith)
                requires
                    acc <= (usize::MAX - b as usize) / 256,
                    b < 256,
            ;
        }
        acc = acc * 256 + b as usize;
        i = i + 1;
    }
    proof {
        assert(s@.take(len as int) =~= s@);
    }
    Some(acc)
}

/// The canonical encoding of the value a byte string denotes: leading zero
/// bytes stripped, with a single zero byte left for zero.
pub fn canonical_bytes(s: &[u8]) -> (r: Vec<u8>)
    ensures
        r@ == be_bytes_of(be_value(s@)),
{
    let len = s.len();
    let mut i: usize = 0;
    while i < len && *vstd::slice::slice_index_get(s, i) == 0
        invariant
            0 <= i <= len,
            len == s@.len(),
            forall|j: int| 0 <= j < i ==> s@[j] == 0,
        decreases len - i,
    {
        i = i + 1;
    }
    if i == len {
        proof {
            lemma_be_value_zero(s@);
        }
        let mut v: Vec<u8> = Vec::new();
        v.push(0);
        proof {
            assert(v@ =~= be_bytes_of(be_value(s@)));
        }
        v
    } else {
        let rest = vstd::slice::slice_subrange(s, i, len);
        let v = vstd::slice::slice_to_vec(rest);
        proof {
            lemma_be_value_skip_zeros(s@, i as int);
            assert(canonical(s@.skip(i as int)));
            lemma_canonical_unique(s@.skip(i as int));
        }
        v
    }
}

/// The `w`-byte big-endian encoding of `n` (low bytes of `n` if `w` is
/// narrower than `n`'s encoding).
pub fn fixed_bytes_of_usize(n: usize, w: usize) -> (r: Vec<u8>)
    ensures
        r@ == fixed_be_bytes(n as nat, w as nat),
{
    let mut v: Vec<u8> = Vec::new();
    let mut k: usize = 0;
    while k < w
        invariant
            0 <= k <= w,
            v@.len() == k,
            forall|j: int| 0 <= j < k ==> v@[j] == 0,
        decreases w - k,
    {
        v.push(0);
        k = k + 1;
    }
    let mut i: usize = w;
    let mut cur: usize = n;
    proof {
        vstd::arithmetic::div_mod::lemma_div_basics(n as int);
    }
    while i > 0
        invariant
            0 <= i <= w,
            v@.len() == w,
            cur == n as nat / pow256((w - i) as nat),
            forall|j: int|
                i <= j < w ==> v@[j] == ((n as nat / pow256((w - 1 - j) as nat)) % 256) as u8,
        decreases i,
    {
        i = i - 1;
        v.set(i, (cur % 256) as u8);
        proof {
            let k = (w - 1 - i) as nat;
            assert(cur / 256 == n as nat / pow256((k + 1) as nat)) by {
                lemma_pow256_pos(k);
                vstd::arithmetic::div_mod::lemma_div_denominator(n as int, pow256(k) as int, 256);
                assert(pow256((k + 1) as nat) == 256 * pow256(k));
                vstd::arithmetic::mul::lemma_mul_is_commutative(256, pow256(k) as int);
            }
        }
        cur = cur / 256;
    }
    proof {
        assert(v@ =~= fixed_be_bytes(n as nat, w as nat));
    }
    v
}

/// A byte buffer with `src` written over the window starting at `at`.
pub open spec fn write_window(dst: Seq<u8>, at: int, src: Seq<u8>) -> Seq<u8> {
    Seq::new(
        dst.len(),
        |i: int|
            if at <= i < at + src.len() {
                src[i - at]
            } else {
                dst[i]
            },
    )
}

/// A window disjoint from the written one reads as before.
pub proof fn lemma_write_window_frame(dst: Seq<u8>, at: int, src: Seq<u8>, lo: int, hi: int)
    requires
        0 <= lo <= hi <= dst.len(),
        hi <= at || at + src.len() <= lo,
    ensures
        write_window(dst, at, src).subrange(lo, hi) == dst.subrange(lo, hi),
{
    assert(write_window(dst, at, src).subrange(lo, hi) =~= dst.subrange(lo, hi));
}

/// The written window reads back as what was written.
pub proof fn lemma_write_window_image(dst: Seq<u8>, at: int, src: Seq<u8>)
    requires
        0 <= at,
        at + src.len() <= dst.len(),
    ensures
        write_window(dst, at, src).subrange(at, at + src.len()) == src,
{
    assert(write_window(dst, at, src).subrange(at, at + src.len()) =~= src);
}

/// Relies on `num_bigint::BigUint`: `from_bytes_be` reads a big-endian byte
/// string, `+` adds the two numbers, and `to_bytes_be` writes the shortest
/// big-endian form, a single zero byte for zero.
#[verifier::external_body]
fn big_add(a: &[u8], b: &[u8]) -> (r: Vec<u8>)
    ensures
        be_value(r@) == be_value(a@) + be_value(b@),
        canonical(r@),
{
    (num_bigint::BigUint::from_bytes_be(a) + num_bigint::BigUint::from_bytes_be(b)).to_bytes_be()
}

/// Relies on `num_bigint::BigUint`: `from_bytes_be` reads a big-endian byte
/// string, `-` subtracts (it panics when the subtrahend is larger, which the
/// precondition rules out), and `to_bytes_be` writes the shortest big-endian
/// form, a single zero byte for zero.
#[verifier::external_body]
fn big_sub(a: &[u8], b: &[u8]) -> (r: Vec<u8>)
    requires
        be_value(b@) <= be_value(a@),
    ensures
        be_value(r@) == be_value(a@) - be_value(b@),
        canonical(r@),
{
    (num_bigint::BigUint::from_bytes_be(a) - num_bigint::BigUint::from_bytes_be(b)).to_bytes_be()
}

/// Relies on `num_bigint::BigUint`: `from_bytes_be` reads a big-endian byte
/// string and `Ord` orders the numbers it denotes numerically.
#[verifier::external_body]
pub(crate) fn big_lt(a: &[u8], b: &[u8]) -> (r: bool)
    ensures
        r == (be_value(a@) < be_value(b@)),
{
    num_bigint::BigUint::from_bytes_be(a) < num_bigint::BigUint::from_bytes_be(b)
}

/// The canonical encoding of the sum of two machine values.
pub fn value_add(a: &[u8], b: &[u8]) -> (r: Vec<u8>)
    ensures
        r@ == be_bytes_of(be_value(a@) + be_value(b@)),
{
    let r = big_add(a, b);
    proof {
        lemma_canonical_unique(r@);
    }
    r
}

/// The canonical encoding of the difference of two machine values.
pub fn value_sub(a: &[u8], b: &[u8]) -> (r: Vec<u8>)
    requires
        be_value(b@) <= be_value(a@),
    ensures
        r@ == be_bytes_of((be_value(a@) - be_value(b@)) as nat),
{
    let r = big_sub(a, b);
    proof {
        lemma_canonical_unique(r@);
    }
    r
}

} // verus!
