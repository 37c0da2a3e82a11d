use vstd::prelude::*;
use crate::musig::{
    apk_val, challenge_val, coefficient, commitment_spec, derived_nonce_val, dlogs, partial_ok,
    sign_val, verify_ok, EphemeralKey, KeyAgg,
};
use crate::point::{base_mul, sub_q, x_of, Point};
use crate::scalar::group_order;

verus! {

use vstd::arithmetic::div_mod::{
    lemma_add_mod_noop, lemma_add_mod_noop_right, lemma_mod_add_multiples_vanish, lemma_mod_bound,
    lemma_mod_sub_multiples_vanish, lemma_mul_mod_noop_right, lemma_small_mod, lemma_sub_mod_noop,
};
use vstd::arithmetic::mul::lemma_mul_is_commutative;

/// Sum mod the group order of the first n entries: the discrete log of
/// a combined nonce, or an accumulated signature value.
pub open spec fn nonce_sum(rs: Seq<nat>, n: int) -> nat
    decreases n,
{
    if n <= 0 {
        0
    } else {
        (nonce_sum(rs, n - 1) + rs[n - 1]) % group_order()
    }
}

/// Sum mod the group order of the first n honestly computed partial
/// signatures under challenge c, each coefficient taken over the full
/// ordered key list xs.
pub open spec fn partial_sum(rs: Seq<nat>, xs: Seq<nat>, c: nat, n: int) -> nat
    decreases n,
{
    if n <= 0 {
        0
    } else {
        (partial_sum(rs, xs, c, n - 1) + sign_val(
            rs[n - 1],
            c,
            coefficient(xs, n - 1),
            xs[n - 1],
        )) % group_order()
    }
}

/// A remainder below twice the divisor is either kept or shifted once.
proof fn lemma_mod_in_range(v: int)
    requires
        0 <= v < 2 * group_order(),
    ensures
        v % (group_order() as int) == if v < group_order() {
            v
        } else {
            v - group_order()
        },
{
    let q = group_order() as int;
    if v < q {
        lemma_small_mod(v as nat, group_order());
    } else {
        lemma_mod_sub_multiples_vanish(v, q);
        assert((-q + v) % q == (v - q) % q);
        lemma_small_mod((v - q) as nat, group_order());
    }
}

/// Adding a fixed reduced value mod the order is injective on reduced
/// values.
proof fn lemma_add_mod_injective(a: nat, b: nat, k: nat)
    requires
        a < group_order(),
        b < group_order(),
        k < group_order(),
        (a + k) % group_order() == (b + k) % group_order(),
    ensures
        a == b,
{
    lemma_mod_in_range((a + k) as int);
    lemma_mod_in_range((b + k) as int);
}

/// Subtracting u mod the order from (v + u) mod the order recovers a
/// reduced v.
proof fn lemma_fold_cancel(v: nat, u: nat)
    requires
        v < group_order(),
    ensures
        sub_q((v + u) % group_order(), u % group_order()) == v,
{
    let q = group_order() as int;
    let a = ((v + u) % group_order()) as int;
    let b = (u % group_order()) as int;
    lemma_mod_add_multiples_vanish(a - b, q);
    assert((a + q - b) % q == (a - b) % q);
    lemma_sub_mod_noop((v + u) as int, u as int, q);
    assert((a - b) % q == ((v + u) - u) % q);
    lemma_small_mod(v, group_order());
}

/// A commitment binds what it was built from: the values a well-formed
/// ephemeral key reveals in the second round always re-verify against
/// the commitment it broadcast in the first.
pub proof fn lemma_commitment_binding(e: EphemeralKey)
    requires
        e.wf(),
    ensures
        e.commitment@ == commitment_spec(e.keypair.public_val(), e.blind_factor.bytes_view()),
{
}

/// Aggregation is deterministic: two aggregation results over the same
/// ordered key list and the same index agree on the aggregated key
/// value and the coefficient, and their aggregated keys share one
/// encoding.
pub proof fn lemma_aggregation_determinism(pks: Seq<Point>, i: int, k1: KeyAgg, k2: KeyAgg)
    requires
        k1.apk@ == apk_val(dlogs(pks), pks.len() as int),
        k2.apk@ == apk_val(dlogs(pks), pks.len() as int),
        k1.hash@ == coefficient(dlogs(pks), i),
        k2.hash@ == coefficient(dlogs(pks), i),
    ensures
        k1.apk@ == k2.apk@,
        k1.hash@ == k2.hash@,
        base_mul(k1.apk@) == base_mul(k2.apk@),
{
}

/// Partial-signature correctness: an honestly computed partial
/// signature passes partial verification against the signer's revealed
/// nonce x-coordinate, public key, and coefficient.
pub proof fn lemma_partial_signature_correct(r: nat, c: nat, a: nat, x: nat)
    requires
        0 < r < group_order(),
        c < group_order(),
        a < group_order(),
        x < group_order(),
    ensures
        partial_ok(sign_val(r, c, a, x), x_of(base_mul(r)), c, a, x),
{
    let q = group_order() as int;
    let ac = ((a * c) % group_order()) as int;
    lemma_mul_mod_noop_right(x as int, (a * c) as int, q);
    assert(x * ((a * c) as int) == (c * a * x) as int) by (nonlinear_arith);
    assert(((x as int) * ac) % q == ((c * a * x) as int) % q);
    lemma_mul_mod_noop_right(x as int, ac, q);
    assert(((x * ((a * c) % group_order())) % group_order()) as int == ((c * a * x) % group_order()) as int);
    lemma_fold_cancel(r, c * a * x);
}

/// Altering a partial signature moves the verifier's derived point: two
/// distinct reduced signature values derive two distinct group elements
/// under one challenge, coefficient, and key. A doctored partial
/// signature is therefore rejected unless its derived point happens to
/// share an x-coordinate with the honest one.
pub proof fn lemma_partial_soundness(s1: nat, s2: nat, w: nat)
    requires
        s1 < group_order(),
        s2 < group_order(),
        s1 != s2,
    ensures
        sub_q(s1, w % group_order()) != sub_q(s2, w % group_order()),
{
    let q = group_order() as int;
    let t = w % group_order();
    lemma_mod_bound(w as int, q);
    if t == 0 {
        lemma_small_mod(s1, group_order());
        lemma_small_mod(s2, group_order());
        lemma_mod_add_multiples_vanish(s1 as int, q);
        lemma_mod_add_multiples_vanish(s2 as int, q);
        assert(sub_q(s1, t) == s1);
        assert(sub_q(s2, t) == s2);
    } else {
        let k = (group_order() - t) as nat;
        assert(sub_q(s1, t) == (s1 + k) % group_order());
        assert(sub_q(s2, t) == (s2 + k) % group_order());
        if sub_q(s1, t) == sub_q(s2, t) {
            lemma_add_mod_injective(s1, s2, k);
        }
    }
}

/// The sum of the first n honest partial signatures splits into the
/// nonce sum plus the challenge times the aggregated key value.
proof fn lemma_partial_sum_split(rs: Seq<nat>, xs: Seq<nat>, c: nat, n: int)
    requires
        0 <= n,
        n <= rs.len(),
        n <= xs.len(),
    ensures
        partial_sum(rs, xs, c, n) == (nonce_sum(rs, n) + c * apk_val(xs, n)) % group_order(),
    decreases n,
{
    let q = group_order() as int;
    if n <= 0 {
        lemma_small_mod(0, group_order());
    } else {
        lemma_partial_sum_split(rs, xs, c, n - 1);
        let bigr = nonce_sum(rs, n - 1);
        let biga = apk_val(xs, n - 1);
        let a = coefficient(xs, n - 1);
        let x = xs[n - 1];
        let r = rs[n - 1];
        // Left side: (partial_sum(n-1) + sign_val)%q == (bigr + c*biga + r + c*a*x)%q
        lemma_add_mod_noop((bigr + c * apk_val(xs, n - 1)) as int, (r + c * a * x) as int, q);
        assert(partial_sum(rs, xs, c, n) == ((bigr + c * biga + r + c * a * x) as int) % q);
        // Right side: (nonce_sum(n) + c*apk_val(n))%q
        let v = (c * ((biga + x * a) % group_order())) as int;
        lemma_add_mod_noop_right(v, (bigr + r) as int, q);
        assert(((nonce_sum(rs, n) + v) as int) % q == (((bigr + r) + v) as int) % q);
        lemma_mul_mod_noop_right(c as int, (biga + x * a) as int, q);
        assert(v % q == ((c * (biga + x * a)) as int) % q);
        lemma_add_mod_noop_right((bigr + r) as int, v, q);
        lemma_add_mod_noop_right((bigr + r) as int, (c * (biga + x * a)) as int, q);
        assert((((bigr + r) + v) as int) % q == (((bigr + r) + c * (biga + x * a)) as int) % q);
        assert((c as int) * ((biga + x * a) as int) == (c * biga + c * a * x) as int)
            by (nonlinear_arith);
        assert(((bigr + r) + c * (biga + x * a)) as int == (bigr + c * biga + r + c * a * x) as int);
    }
}

/// Aggregate correctness: folding every honest partial signature yields
/// a signature that passes full verification against the aggregated key
/// and the combined nonce, whenever that nonce is not the identity.
pub proof fn lemma_aggregate_correct(
    rs: Seq<nat>,
    xs: Seq<nat>,
    msg: Seq<u8>,
    musig_bit: bool,
    n: int,
)
    requires
        1 <= n,
        n <= rs.len(),
        n <= xs.len(),
        nonce_sum(rs, n) != 0,
    ensures
        ({
            let rx = x_of(base_mul(nonce_sum(rs, n)));
            let apk = apk_val(xs, n);
            let c = challenge_val(rx, apk, msg, musig_bit);
            verify_ok(partial_sum(rs, xs, c, n), rx, apk, msg, musig_bit)
        }),
{
    let q = group_order() as int;
    let bigr = nonce_sum(rs, n);
    let rx = x_of(base_mul(bigr));
    let apk = apk_val(xs, n);
    let c = challenge_val(rx, apk, msg, musig_bit);
    lemma_mod_bound((nonce_sum(rs, n - 1) + rs[n - 1]) as int, q);
    lemma_partial_sum_split(rs, xs, c, n);
    lemma_mul_is_commutative(apk as int, c as int);
    lemma_fold_cancel(bigr, c * apk);
    assert(derived_nonce_val(partial_sum(rs, xs, c, n), apk, c) == bigr);
}

/// Adaptor property: with the hidden scalar folded into the combined
/// nonce, verification succeeds exactly once that same scalar has also
/// been folded into the signature sum; folding any other reduced scalar
/// leaves the verifier's derived point a different group element from
/// the combined nonce.
pub proof fn lemma_adaptor_property(
    rs: Seq<nat>,
    xs: Seq<nat>,
    t: nat,
    msg: Seq<u8>,
    musig_bit: bool,
    n: int,
)
    requires
        1 <= n,
        n <= rs.len(),
        n <= xs.len(),
        t < group_order(),
        (nonce_sum(rs, n) + t) % group_order() != 0,
    ensures
        ({
            let rpr = (nonce_sum(rs, n) + t) % group_order();
            let rx = x_of(base_mul(rpr));
            let apk = apk_val(xs, n);
            let c = challenge_val(rx, apk, msg, musig_bit);
            let s = partial_sum(rs, xs, c, n);
            verify_ok((s + t) % group_order(), rx, apk, msg, musig_bit) && (forall|t2: nat|
                t2 < group_order() && t2 != t ==> #[trigger] derived_nonce_val(
                    (s + t2) % group_order(),
                    apk,
                    c,
                ) != rpr)
        }),
{
    let q = group_order() as int;
    let bigr = nonce_sum(rs, n);
    let rpr = (bigr + t) % group_order();
    let rx = x_of(base_mul(rpr));
    let apk = apk_val(xs, n);
    let c = challenge_val(rx, apk, msg, musig_bit);
    let s = partial_sum(rs, xs, c, n);
    lemma_mod_bound((nonce_sum(rs, n - 1) + rs[n - 1]) as int, q);
    lemma_mod_bound((bigr + t) as int, q);
    lemma_partial_sum_split(rs, xs, c, n);
    lemma_mul_is_commutative(apk as int, c as int);
    assert forall|t2: nat| t2 < group_order() implies #[trigger] derived_nonce_val(
        (s + t2) % group_order(),
        apk,
        c,
    ) == (bigr + t2) % group_order() by {
        // (s + t2)%q == ((bigr + t2)%q + c*apk)%q, then cancel the key term
        lemma_add_mod_noop_right(t2 as int, (bigr + c * apk) as int, q);
        assert(((t2 + s) as int) % q == ((t2 + (bigr + c * apk)) as int) % q);
        lemma_mod_bound((bigr + t2) as int, q);
        let v = (bigr + t2) % group_order();
        lemma_add_mod_noop((bigr + t2) as int, (c * apk) as int, q);
        lemma_small_mod(c * apk % group_order(), group_order());
        lemma_add_mod_noop_right(v as int, (c * apk) as int, q);
        assert(((v + c * apk) as int) % q == (((bigr + t2) + c * apk) as int) % q);
        lemma_fold_cancel(v, c * apk);
        assert(sub_q((v + c * apk) % group_order(), (c * apk) % group_order()) == v);
        assert(((s + t2) as int) % q == ((v + c * apk) as int) % q);
    }
    assert(derived_nonce_val((s + t) % group_order(), apk, c) == rpr);
    assert forall|t2: nat| t2 < group_order() && t2 != t implies #[trigger] derived_nonce_val(
        (s + t2) % group_order(),
        apk,
        c,
    ) != rpr by {
        if derived_nonce_val((s + t2) % group_order(), apk, c) == rpr {
            lemma_add_mod_injective(t2, t, bigr);
        }
    }
}

} // verus!
