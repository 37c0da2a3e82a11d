use curv::arithmetic::Converter;
use curv::elliptic::curves::{Point as CurvePoint, Scalar as FieldElem, Secp256k1};
use musig_adaptor::musig::{EphemeralKey, KeyAgg, KeyPair};
use musig_adaptor::point::Point;
use musig_adaptor::scalar::Scalar;
use sha2::Digest;

const ORDER_BYTES: [u8; 32] = [
    0xFF, 0xFF, 0xFF, 0xFF, 0xFF, 0xFF, 0xFF, 0xFF, 0xFF, 0xFF, 0xFF, 0xFF, 0xFF, 0xFF, 0xFF,
    0xFE, 0xBA, 0xAE, 0xDC, 0xE6, 0xAF, 0x48, 0xA0, 0x3B, 0xBF, 0xD2, 0x5E, 0x8C, 0xD0, 0x36,
    0x41, 0x41,
];

fn curv_scalar(bytes: &[u8]) -> FieldElem<Secp256k1> {
    FieldElem::from_bigint(&curv::BigInt::from_bytes(bytes))
}

fn curv_point(p: &Point) -> CurvePoint<Secp256k1> {
    CurvePoint::from_bytes(&p.to_bytes()).unwrap()
}

#[test]
fn scalar_reduction_exact_values() {
    // a small value is kept as it is
    let mut five = vec![0u8; 32];
    five[31] = 5;
    let s = Scalar::from_bytes_mod_order(&five);
    assert_eq!(s.to_bytes(), five);

    // the group order itself reduces to zero
    let order: Vec<u8> = ORDER_BYTES.to_vec();
    let z = Scalar::from_bytes_mod_order(&order);
    assert_eq!(z.to_bytes(), vec![0u8; 32]);

    // one above the order reduces to one
    let mut above = ORDER_BYTES.to_vec();
    above[31] += 1;
    let o = Scalar::from_bytes_mod_order(&above);
    let mut one = vec![0u8; 32];
    one[31] = 1;
    assert_eq!(o.to_bytes(), one);
}

#[test]
fn commitment_is_hash_of_key_and_blind() {
    let e = EphemeralKey::create();
    let mut buf = e.keypair.public_key.to_bytes();
    buf.extend_from_slice(&e.blind_factor.to_bytes());
    let expected: Vec<u8> = sha2::Sha256::digest(&buf).to_vec();
    assert_eq!(e.commitment, expected);
}

#[test]
fn challenge_is_reduced_hash() {
    let k1 = KeyPair::create();
    let k2 = KeyPair::create();
    let pks: Vec<Point> = vec![k1.public_key.clone(), k2.public_key.clone()];
    let agg = KeyAgg::key_aggregation_n(&pks, 0);
    let e = EphemeralKey::create();
    let tag = &e.keypair.public_key;
    let msg: Vec<u8> = vec![79, 77, 69, 82];

    for (bit, tag_byte) in [(true, 1u8), (false, 0u8)] {
        let c = EphemeralKey::hash_0(tag, &agg.apk, &msg, bit);
        let mut buf = vec![tag_byte];
        buf.extend_from_slice(&tag.x_coor().unwrap());
        buf.extend_from_slice(&agg.apk.to_bytes());
        buf.extend_from_slice(&msg);
        let digest = sha2::Sha256::digest(&buf);
        let expected = curv_scalar(&digest).to_bytes().to_vec();
        assert_eq!(c.to_bytes(), expected);
    }
}

#[test]
fn aggregation_matches_direct_computation() {
    let k1 = KeyPair::create();
    let k2 = KeyPair::create();
    let pks: Vec<Point> = vec![k1.public_key.clone(), k2.public_key.clone()];
    let agg0 = KeyAgg::key_aggregation_n(&pks, 0);
    let agg1 = KeyAgg::key_aggregation_n(&pks, 1);

    let mut l_pre: Vec<u8> = Vec::new();
    l_pre.extend_from_slice(&pks[0].to_bytes());
    l_pre.extend_from_slice(&pks[1].to_bytes());
    let l = sha2::Sha256::digest(&l_pre);

    let mut coefs: Vec<FieldElem<Secp256k1>> = Vec::new();
    for pk in &pks {
        let mut pre = l.to_vec();
        pre.extend_from_slice(&pk.to_bytes());
        coefs.push(curv_scalar(&sha2::Sha256::digest(&pre)));
    }
    assert_eq!(agg0.hash.to_bytes(), coefs[0].to_bytes().to_vec());
    assert_eq!(agg1.hash.to_bytes(), coefs[1].to_bytes().to_vec());

    let apk = curv_point(&pks[0]) * &coefs[0] + curv_point(&pks[1]) * &coefs[1];
    assert_eq!(agg0.apk.to_bytes(), apk.to_bytes(true).to_vec());
}

#[test]
fn combined_nonce_is_group_sum() {
    let e1 = EphemeralKey::create();
    let e2 = EphemeralKey::create();
    let tag = EphemeralKey::add_ephemeral_pub_keys(
        &e1.keypair.public_key,
        &e2.keypair.public_key,
    );
    let expected = curv_point(&e1.keypair.public_key) + curv_point(&e2.keypair.public_key);
    assert_eq!(tag.to_bytes(), expected.to_bytes(true).to_vec());
}

#[test]
fn combine_adds_mod_order() {
    let k1 = KeyPair::create();
    let k2 = KeyPair::create();
    let pks: Vec<Point> = vec![k1.public_key.clone(), k2.public_key.clone()];
    let agg = KeyAgg::key_aggregation_n(&pks, 0);
    let e1 = EphemeralKey::create();
    let e2 = EphemeralKey::create();
    let tag = EphemeralKey::add_ephemeral_pub_keys(
        &e1.keypair.public_key,
        &e2.keypair.public_key,
    );
    let msg: Vec<u8> = vec![79, 77, 69, 82];
    let c = EphemeralKey::hash_0(&tag, &agg.apk, &msg, true);
    let s1 = EphemeralKey::sign(&e1, &c, &k1, &agg.hash);
    let s2 = EphemeralKey::sign(&e2, &c, &k2, &agg.hash);
    let (r, s) = EphemeralKey::add_signature_parts(s1.clone(), &s2, &tag);
    let expected = curv_scalar(&s1.to_bytes()) + curv_scalar(&s2.to_bytes());
    assert_eq!(s.to_bytes(), expected.to_bytes().to_vec());
    assert_eq!(
        r,
        curv_point(&tag).x_coord().unwrap().to_bytes_array::<32>().unwrap().to_vec()
    );
}

#[test]
fn x_coordinate_matches_curv() {
    let k = KeyPair::create();
    let x = k.public_key.x_coor().unwrap();
    let expected = curv_point(&k.public_key)
        .x_coord()
        .unwrap()
        .to_bytes_array::<32>()
        .unwrap()
        .to_vec();
    assert_eq!(x, expected);
}

#[test]
fn point_from_bytes_roundtrip_and_rejection() {
    let k = KeyPair::create();
    let enc = k.public_key.to_bytes();
    let back = Point::from_bytes(&enc).unwrap();
    assert_eq!(back.to_bytes(), enc);

    // an invalid prefix is not a point encoding
    let garbage = vec![1u8; 33];
    assert!(Point::from_bytes(&garbage).is_none());
}

#[test]
fn rogue_key_cannot_force_target() {
    // a party who injects target - honest_key, without knowing its
    // discrete log, must not drive the aggregate onto the target key
    for _ in 0..8 {
        let honest = KeyPair::create();
        let target = KeyPair::create();
        let adv = curv_point(&target.public_key) - curv_point(&honest.public_key);
        let adv_pt = Point::from_bytes(&adv.to_bytes(true).to_vec()).unwrap();
        let pks: Vec<Point> = vec![honest.public_key.clone(), adv_pt];
        let agg = KeyAgg::key_aggregation_n(&pks, 0);
        assert_ne!(agg.apk.to_bytes(), target.public_key.to_bytes());
    }
}

#[test]
fn random_scalars_are_fresh() {
    let a = EphemeralKey::create();
    let b = EphemeralKey::create();
    assert_ne!(a.blind_factor.to_bytes(), vec![0u8; 32]);
    assert_ne!(a.blind_factor.to_bytes(), b.blind_factor.to_bytes());
    assert_ne!(
        a.keypair.public_key.to_bytes(),
        b.keypair.public_key.to_bytes()
    );
}
