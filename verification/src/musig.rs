use vstd::prelude::*;
use crate::bytes::{be_val, bytes_eq, copy_bytes, extend_bytes};
use crate::hashing::{sha256, sha256_of};
use crate::point::{base_mul, base_point_mul, point_add, point_scalar_mul, point_sub, sub_q, x_of, Point};
use crate::scalar::{group_order, scalar_add, scalar_mul, scalar_random, Scalar};
use crate::Error;

verus! {

use vstd::arithmetic::div_mod::{lemma_add_mod_noop_right, lemma_mul_mod_noop_left};

/// Commitment binding an ephemeral public key to a blinding factor:
/// the hash of the key's encoding followed by the blinding bytes.
pub open spec fn commitment_spec(pk: nat, blind_bytes: Seq<u8>) -> Seq<u8> {
    sha256_of(base_mul(pk) + blind_bytes)
}

/// Discrete logs of a sequence of points.
pub open spec fn dlogs(pks: Seq<Point>) -> Seq<nat> {
    pks.map_values(|p: Point| p@)
}

/// Concatenation of the compressed encodings of an ordered key list.
pub open spec fn keys_concat(pks: Seq<nat>) -> Seq<u8>
    decreases pks.len(),
{
    if pks.len() == 0 {
        Seq::empty()
    } else {
        keys_concat(pks.drop_last()) + base_mul(pks.last())
    }
}

/// Binding value over the whole ordered key list.
pub open spec fn binding_hash(pks: Seq<nat>) -> Seq<u8> {
    sha256_of(keys_concat(pks))
}

/// Aggregation coefficient of the key at position i: a hash of the
/// binding value and that key, so it is bound to the entire key set.
pub open spec fn coefficient(pks: Seq<nat>, i: int) -> nat {
    be_val(sha256_of(binding_hash(pks) + base_mul(pks[i]))) % group_order()
}

/// Discrete log of the aggregated key of the first n keys:
/// the sum of each key times its coefficient.
pub open spec fn apk_val(pks: Seq<nat>, n: int) -> nat
    decreases n,
{
    if n <= 0 {
        0
    } else {
        (apk_val(pks, n - 1) + pks[n - 1] * coefficient(pks, n - 1)) % group_order()
    }
}

/// Challenge preimage: domain tag, nonce x-coordinate, aggregated key
/// encoding, message.
pub open spec fn challenge_preimage(rx: Seq<u8>, apk: nat, msg: Seq<u8>, musig_bit: bool) -> Seq<u8> {
    seq![if musig_bit { 1u8 } else { 0u8 }] + rx + base_mul(apk) + msg
}

/// The Fiat–Shamir challenge, reduced into the scalar field.
pub open spec fn challenge_val(rx: Seq<u8>, apk: nat, msg: Seq<u8>, musig_bit: bool) -> nat {
    be_val(sha256_of(challenge_preimage(rx, apk, msg, musig_bit))) % group_order()
}

/// Partial signature value: s = r + c·a·x mod the group order.
pub open spec fn sign_val(r: nat, c: nat, a: nat, x: nat) -> nat {
    (r + c * a * x) % group_order()
}

/// Discrete log of the point a verifier derives from a claimed
/// signature value s and a key of value k weighted by c: s·G - c·(k·G).
pub open spec fn derived_nonce_val(s: nat, k: nat, c: nat) -> nat {
    sub_q(s, (k * c) % group_order())
}

/// Acceptance condition of partial verification: s·G - (a·c)·pk is not
/// the identity and its x-coordinate equals the claimed nonce x.
pub open spec fn partial_ok(s: nat, rx: Seq<u8>, c: nat, a: nat, pk: nat) -> bool {
    let d = derived_nonce_val(s, pk, (a * c) % group_order());
    d != 0 && x_of(base_mul(d)) == rx
}

/// Acceptance condition of full verification: s·G - c·apk is not the
/// identity and its x-coordinate equals the claimed nonce x.
pub open spec fn verify_ok(s: nat, rx: Seq<u8>, apk: nat, msg: Seq<u8>, musig_bit: bool) -> bool {
    let c = challenge_val(rx, apk, msg, musig_bit);
    let d = derived_nonce_val(s, apk, c);
    d != 0 && x_of(base_mul(d)) == rx
}

/// A party's long-term identity key: a secret scalar and its public
/// group element, public = secret·G.
pub struct KeyPair {
    pub public_key: Point,
    secret: Scalar,
}

impl KeyPair {
    /// Value of the secret scalar (spec-level only; the field is private).
    pub closed spec fn secret_val(&self) -> nat {
        self.secret@
    }

    /// Discrete log of the public element.
    pub closed spec fn public_val(&self) -> nat {
        self.public_key@
    }

    pub open spec fn wf(&self) -> bool {
        self.public_val() == self.secret_val() && self.secret_val() != 0
    }

    /// Draws a random nonzero secret and derives its public element.
    pub fn create() -> (r: KeyPair)
        ensures
            r.wf(),
    {
        let secret = scalar_random();
        let public_key = base_point_mul(&secret);
        KeyPair { public_key, secret }
    }
}

/// A per-session ephemeral key: a fresh keypair, a random blinding
/// factor, and a hiding commitment to the ephemeral public key.
pub struct EphemeralKey {
    pub keypair: KeyPair,
    pub blind_factor: Scalar,
    pub commitment: Vec<u8>,
}

impl EphemeralKey {
    pub open spec fn wf(&self) -> bool {
        self.keypair.wf() && self.commitment@ == commitment_spec(
            self.keypair.public_val(),
            self.blind_factor.bytes_view(),
        )
    }

    /// Fresh ephemeral keypair, blinding factor, and commitment.
    pub fn create() -> (r: EphemeralKey)
        ensures
            r.wf(),
    {
        let keypair = KeyPair::create();
        let blind_factor = scalar_random();
        let mut buf = keypair.public_key.to_bytes();
        extend_bytes(&mut buf, &blind_factor.to_bytes());
        let commitment = sha256(&buf);
        EphemeralKey { keypair, blind_factor, commitment }
    }

    /// Recomputes the commitment from a revealed key and blinding factor
    /// and compares it with the commitment received in the first round.
    pub fn test_com(r_to_test: &Point, blind_factor: &Scalar, comm: &Vec<u8>) -> (r: bool)
        ensures
            r == (comm@ == commitment_spec(r_to_test@, blind_factor.bytes_view())),
    {
        let mut buf = r_to_test.to_bytes();
        extend_bytes(&mut buf, &blind_factor.to_bytes());
        let h = sha256(&buf);
        bytes_eq(&h, comm)
    }

    /// Folds one revealed ephemeral public key into the combined nonce.
    pub fn add_ephemeral_pub_keys(r1: &Point, r2: &Point) -> (r: Point)
        ensures
            r@ == (r1@ + r2@) % group_order(),
    {
        point_add(r1, r2)
    }

    /// The Fiat–Shamir challenge of a session: a hash binding the
    /// combined nonce's x-coordinate, the aggregated key, the message,
    /// and the protocol mode, reduced into the scalar field.
    pub fn hash_0(r_hat: &Point, apk: &Point, message: &Vec<u8>, musig_bit: bool) -> (r: Scalar)
        requires
            r_hat@ != 0,
        ensures
            r@ == challenge_val(x_of(base_mul(r_hat@)), apk@, message@, musig_bit),
    {
        match r_hat.x_coor() {
            Some(rx) => {
                let mut buf: Vec<u8> = Vec::new();
                if musig_bit {
                    buf.push(1u8);
                } else {
                    buf.push(0u8);
                }
                extend_bytes(&mut buf, &rx);
                extend_bytes(&mut buf, &apk.to_bytes());
                extend_bytes(&mut buf, message);
                proof {
                    assert(buf@ =~= challenge_preimage(rx@, apk@, message@, musig_bit));
                }
                Scalar::from_bytes_mod_order(&sha256(&buf))
            },
            None => vstd::pervasive::unreached(),
        }
    }

    /// A party's partial signature: s = r + c·a·x mod the group order,
    /// from its ephemeral secret r, the challenge c, its aggregation
    /// coefficient a, and its long-term secret x.
    pub fn sign(r: &EphemeralKey, c: &Scalar, x: &KeyPair, a: &Scalar) -> (s: Scalar)
        ensures
            s@ == sign_val(r.keypair.secret_val(), c@, a@, x.secret_val()),
    {
        let ca = scalar_mul(c, a);
        let cax = scalar_mul(&ca, &x.secret);
        let s = scalar_add(&r.keypair.secret, &cax);
        proof {
            let q = group_order() as int;
            let rr = r.keypair.secret_val() as int;
            let cc = c@ as int;
            let aa = a@ as int;
            let xx = x.secret_val() as int;
            lemma_mul_mod_noop_left(cc * aa, xx, q);
            lemma_add_mod_noop_right(rr, cc * aa * xx, q);
        }
        s
    }

    /// Folds one verified partial signature into the accumulated sum,
    /// returning the combined nonce's x-coordinate alongside.
    pub fn add_signature_parts(s1: Scalar, s2: &Scalar, r_tag: &Point) -> (r: (Vec<u8>, Scalar))
        requires
            r_tag@ != 0,
        ensures
            r.0@ == x_of(base_mul(r_tag@)),
            r.1@ == (s1@ + s2@) % group_order(),
    {
        match r_tag.x_coor() {
            Some(rx) => (rx, scalar_add(&s1, s2)),
            None => vstd::pervasive::unreached(),
        }
    }

    /// Folds the designated party's hidden scalar into the accumulated
    /// sum: the adaptor step, an additive combination like any other,
    /// but of a secret that was never broadcast as a partial signature.
    pub fn add_signature_parts_with_secret(
        s: Scalar,
        sec_eph: &EphemeralKey,
        r_tag: &Point,
    ) -> (r: (Vec<u8>, Scalar))
        requires
            r_tag@ != 0,
        ensures
            r.0@ == x_of(base_mul(r_tag@)),
            r.1@ == (s@ + sec_eph.keypair.secret_val()) % group_order(),
    {
        match r_tag.x_coor() {
            Some(rx) => (rx, scalar_add(&s, &sec_eph.keypair.secret)),
            None => vstd::pervasive::unreached(),
        }
    }
}

/// The aggregated public key and the calling party's own coefficient.
pub struct KeyAgg {
    pub apk: Point,
    pub hash: Scalar,
}

/// Coefficient of one key under a given binding value: the reduced hash
/// of the binding value followed by the key's encoding.
fn coef_for(l: &Vec<u8>, pk: &Point) -> (r: Scalar)
    ensures
        r@ == be_val(sha256_of(l@ + base_mul(pk@))) % group_order(),
{
    let mut buf = copy_bytes(l);
    extend_bytes(&mut buf, &pk.to_bytes());
    Scalar::from_bytes_mod_order(&sha256(&buf))
}

impl KeyAgg {
    /// Aggregates an ordered list of public keys: every party that
    /// supplies the same list obtains the same aggregated key, and each
    /// obtains its own coefficient for the key at its index.
    pub fn key_aggregation_n(pks: &Vec<Point>, party_index: usize) -> (r: KeyAgg)
        requires
            pks@.len() >= 1,
            party_index < pks@.len(),
        ensures
            r.apk@ == apk_val(dlogs(pks@), pks@.len() as int),
            r.hash@ == coefficient(dlogs(pks@), party_index as int),
    {
        let n = pks.len();
        let mut buf: Vec<u8> = Vec::new();
        let mut i: usize = 0;
        while i < n
            invariant
                i <= n,
                n == pks@.len(),
                buf@ == keys_concat(dlogs(pks@).take(i as int)),
            decreases n - i,
        {
            let pkb = pks[i].to_bytes();
            extend_bytes(&mut buf, &pkb);
            proof {
                let s = dlogs(pks@);
                assert(s.take(i + 1).drop_last() =~= s.take(i as int));
                assert(s.take(i + 1).last() == s[i as int]);
            }
            i += 1;
        }
        proof {
            assert(dlogs(pks@).take(n as int) =~= dlogs(pks@));
        }
        let l = sha256(&buf);
        let a0 = coef_for(&l, &pks[0]);
        let mut acc = point_scalar_mul(&pks[0], &a0);
        proof {
            let s = dlogs(pks@);
            assert(s[0] == pks@[0]@);
            assert(a0@ == coefficient(s, 0));
            assert(apk_val(s, 0) == 0);
            assert(apk_val(s, 1) == (s[0] * coefficient(s, 0)) % group_order());
            assert(acc@ == apk_val(s, 1));
        }
        let mut j: usize = 1;
        while j < n
            invariant
                1 <= j <= n,
                n == pks@.len(),
                l@ == binding_hash(dlogs(pks@)),
                acc@ == apk_val(dlogs(pks@), j as int),
            decreases n - j,
        {
            let aj = coef_for(&l, &pks[j]);
            let term = point_scalar_mul(&pks[j], &aj);
            acc = point_add(&acc, &term);
            proof {
                let s = dlogs(pks@);
                let q = group_order() as int;
                lemma_add_mod_noop_right(
                    apk_val(s, j as int) as int,
                    (s[j as int] * coefficient(s, j as int)) as int,
                    q,
                );
            }
            j += 1;
        }
        let my_coef = coef_for(&l, &pks[party_index]);
        KeyAgg { apk: acc, hash: my_coef }
    }
}

/// Checks one party's partial signature: s·G must differ from (a·c)·pk
/// by a non-identity point whose x-coordinate is the party's revealed
/// nonce x. A failure is reported, never raised.
pub fn verify_partial(
    signature: &Scalar,
    r_x: &Vec<u8>,
    c: &Scalar,
    a: &Scalar,
    key_pub: &Point,
) -> (res: Result<(), Error>)
    ensures
        res is Ok <==> partial_ok(signature@, r_x@, c@, a@, key_pub@),
{
    let ac = scalar_mul(a, c);
    let c_y = point_scalar_mul(key_pub, &ac);
    let s_g = base_point_mul(signature);
    let d = point_sub(&s_g, &c_y);
    match d.x_coor() {
        Some(x) => {
            if bytes_eq(&x, r_x) {
                Ok(())
            } else {
                Err(Error::InvalidSS)
            }
        },
        None => Err(Error::InvalidSS),
    }
}

/// Checks an assembled signature against the aggregated key and the
/// message: recomputes the challenge and requires s·G - c·apk to be a
/// non-identity point whose x-coordinate is the claimed nonce x.
pub fn verify(
    signature: &Scalar,
    r_x: &Vec<u8>,
    apk: &Point,
    message: &Vec<u8>,
    musig_bit: bool,
) -> (res: Result<(), Error>)
    ensures
        res is Ok <==> verify_ok(signature@, r_x@, apk@, message@, musig_bit),
{
    let mut buf: Vec<u8> = Vec::new();
    if musig_bit {
        buf.push(1u8);
    } else {
        buf.push(0u8);
    }
    extend_bytes(&mut buf, r_x);
    extend_bytes(&mut buf, &apk.to_bytes());
    extend_bytes(&mut buf, message);
    proof {
        assert(buf@ =~= challenge_preimage(r_x@, apk@, message@, musig_bit));
    }
    let c = Scalar::from_bytes_mod_order(&sha256(&buf));
    let c_y = point_scalar_mul(apk, &c);
    let s_g = base_point_mul(signature);
    let d = point_sub(&s_g, &c_y);
    match d.x_coor() {
        Some(x) => {
            if bytes_eq(&x, r_x) {
                Ok(())
            } else {
                Err(Error::InvalidSig)
            }
        },
        None => Err(Error::InvalidSig),
    }
}

} // verus!
