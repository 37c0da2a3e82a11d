use vstd::prelude::*;
use crate::bytes::copy_bytes;
use crate::scalar::{group_order, Scalar};
use curv::arithmetic::Converter;
use curv::elliptic::curves::{Point as CurvePoint, Scalar as FieldElem, Secp256k1};

verus! {

/// Compressed 33-byte encoding of the group element k·G, for G the
/// generator (the identity, k = 0, encodes as 33 zero bytes).
pub uninterp spec fn base_mul(k: nat) -> Seq<u8>;

/// Big-endian 32-byte x-coordinate of the encoded group element.
pub uninterp spec fn x_of(enc: Seq<u8>) -> Seq<u8>;

/// Shorthand for subtraction mod the group order.
pub open spec fn sub_q(a: nat, b: nat) -> nat {
    ((a + group_order() - b) % group_order() as int) as nat
}

/// A point of the secp256k1 group, held by its compressed encoding.
/// Every group element is k·G for exactly one k below the group order;
/// that k is carried alongside as the ghost model of the point.
pub struct Point {
    enc: Vec<u8>,
    dlog: Ghost<nat>,
}

impl Clone for Point {
    fn clone(&self) -> (r: Self)
        ensures
            r@ == self@,
    {
        proof {
            use_type_invariant(self);
        }
        Point { enc: copy_bytes(&self.enc), dlog: Ghost(self.dlog@) }
    }
}

impl View for Point {
    type V = nat;

    closed spec fn view(&self) -> nat {
        self.dlog@
    }
}

impl Point {
    #[verifier::type_invariant]
    pub closed spec fn wf(self) -> bool {
        self.enc@.len() == 33 && self.dlog@ < group_order() && self.enc@ == base_mul(self.dlog@)
    }

    /// The 33-byte compressed encoding.
    pub fn to_bytes(&self) -> (r: Vec<u8>)
        ensures
            r@ == base_mul(self@),
            r@.len() == 33,
            self@ < group_order(),
    {
        proof {
            use_type_invariant(self);
        }
        copy_bytes(&self.enc)
    }

    /// Parses an encoded point received from another party; accepts
    /// exactly the encodings of group elements. A compressed input is
    /// kept bit for bit as the accepted point's encoding.
    pub fn from_bytes(bytes: &Vec<u8>) -> (r: Option<Point>)
        ensures
            (r matches Some(p) ==> p@ < group_order()),
            (r matches Some(p) ==> (bytes@.len() == 33 ==> base_mul(p@) == bytes@)),
    {
        match point_from_bytes_raw(bytes) {
            Some(enc) => {
                let ghost k: nat = choose|k: nat| k < group_order() && enc@ == base_mul(k);
                Some(Point { enc, dlog: Ghost(k) })
            },
            None => None,
        }
    }

    /// Relies on curv's Point::x_coord: the big-endian x-coordinate,
    /// absent exactly for the identity element.
    #[verifier::external_body]
    pub fn x_coor(&self) -> (r: Option<Vec<u8>>)
        ensures
            r is Some <==> self@ != 0,
            (r matches Some(v) ==> v@ == x_of(base_mul(self@)) && v@.len() == 32),
    {
        let p = CurvePoint::<Secp256k1>::from_bytes(self.enc.as_slice()).unwrap();
        match p.x_coord() {
            Some(x) => Some(x.to_bytes_array::<32>().unwrap().to_vec()),
            None => None,
        }
    }
}

/// Relies on curv's Point::from_bytes: accepts exactly the valid point
/// encodings, and the group is cyclic of prime order, so any accepted
/// point is k·G for some k below the group order; returns its
/// compressed encoding, which for a compressed input is the input.
#[verifier::external_body]
fn point_from_bytes_raw(bytes: &Vec<u8>) -> (r: Option<Vec<u8>>)
    ensures
        (r matches Some(enc) ==> enc@.len() == 33 && exists|k: nat|
            k < group_order() && enc@ == base_mul(k)),
        (r matches Some(enc) ==> (bytes@.len() == 33 ==> enc@ == bytes@)),
{
    match CurvePoint::<Secp256k1>::from_bytes(bytes.as_slice()) {
        Ok(p) => Some(p.to_bytes(true).to_vec()),
        Err(_) => None,
    }
}

/// Relies on curv's generator multiplication: the encoding of s·G.
#[verifier::external_body]
fn base_point_mul_raw(s: &Scalar) -> (r: Vec<u8>)
    ensures
        r@ == base_mul(s@),
        r@.len() == 33,
{
    let fe = FieldElem::<Secp256k1>::from_bytes(s.to_bytes().as_slice()).unwrap();
    let p = CurvePoint::<Secp256k1>::generator() * &fe;
    p.to_bytes(true).to_vec()
}

/// The point s·G, whose discrete log is exactly the scalar.
pub(crate) fn base_point_mul(s: &Scalar) -> (r: Point)
    ensures
        r@ == s@,
{
    proof {
        use_type_invariant(s);
        s.lemma_wf();
    }
    let enc = base_point_mul_raw(s);
    let ghost k: nat = s@;
    Point { enc, dlog: Ghost(k) }
}

/// Relies on curv's point addition: a·G + b·G = (a + b)·G, so the
/// discrete logs add mod the group order.
#[verifier::external_body]
fn point_add_raw(a: &Point, b: &Point) -> (r: Vec<u8>)
    ensures
        r@ == base_mul((a@ + b@) % group_order()),
        r@.len() == 33,
{
    let x = CurvePoint::<Secp256k1>::from_bytes(a.enc.as_slice()).unwrap();
    let y = CurvePoint::<Secp256k1>::from_bytes(b.enc.as_slice()).unwrap();
    (x + y).to_bytes(true).to_vec()
}

/// Sum of two group elements; the discrete logs add mod the group order.
pub(crate) fn point_add(a: &Point, b: &Point) -> (r: Point)
    ensures
        r@ == (a@ + b@) % group_order(),
{
    let enc = point_add_raw(a, b);
    let ghost k: nat = (a@ + b@) % group_order();
    Point { enc, dlog: Ghost(k) }
}

/// Relies on curv's point subtraction: a·G - b·G = (a - b)·G, so the
/// discrete logs subtract mod the group order.
#[verifier::external_body]
fn point_sub_raw(a: &Point, b: &Point) -> (r: Vec<u8>)
    ensures
        r@ == base_mul(sub_q(a@, b@)),
        r@.len() == 33,
{
    let x = CurvePoint::<Secp256k1>::from_bytes(a.enc.as_slice()).unwrap();
    let y = CurvePoint::<Secp256k1>::from_bytes(b.enc.as_slice()).unwrap();
    (x - y).to_bytes(true).to_vec()
}

/// Difference of two group elements; discrete logs subtract mod the order.
pub(crate) fn point_sub(a: &Point, b: &Point) -> (r: Point)
    ensures
        r@ == sub_q(a@, b@),
{
    let enc = point_sub_raw(a, b);
    let ghost k: nat = sub_q(a@, b@);
    Point { enc, dlog: Ghost(k) }
}

/// Relies on curv's scalar multiplication of a point: k·(a·G) = (k·a)·G,
/// so the discrete log is multiplied mod the group order.
#[verifier::external_body]
fn point_scalar_mul_raw(a: &Point, k: &Scalar) -> (r: Vec<u8>)
    ensures
        r@ == base_mul((a@ * k@) % group_order()),
        r@.len() == 33,
{
    let x = CurvePoint::<Secp256k1>::from_bytes(a.enc.as_slice()).unwrap();
    let fe = FieldElem::<Secp256k1>::from_bytes(k.to_bytes().as_slice()).unwrap();
    (x * fe).to_bytes(true).to_vec()
}

/// The scalar multiple of a group element; discrete logs multiply mod
/// the group order.
pub(crate) fn point_scalar_mul(a: &Point, k: &Scalar) -> (r: Point)
    ensures
        r@ == (a@ * k@) % group_order(),
{
    let enc = point_scalar_mul_raw(a, k);
    let ghost m: nat = (a@ * k@) % group_order();
    Point { enc, dlog: Ghost(m) }
}

} // verus!
