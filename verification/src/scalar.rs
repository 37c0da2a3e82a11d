use vstd::prelude::*;
use crate::bytes::{be_val, copy_bytes};
use curv::arithmetic::Converter;
use curv::elliptic::curves::{Scalar as FieldElem, Secp256k1};

verus! {

/// Order of the secp256k1 group; every scalar is reduced mod this prime.
pub open spec fn group_order() -> nat {
    0xFFFFFFFFFFFFFFFFFFFFFFFFFFFFFFFEBAAEDCE6AF48A03BBFD25E8CD0364141nat
}

/// An element of the scalar field, held as 32 big-endian bytes of a
/// value already reduced mod the group order.
pub struct Scalar {
    bytes: Vec<u8>,
}

impl Clone for Scalar {
    fn clone(&self) -> (r: Self)
        ensures
            r@ == self@,
            r.bytes_view() == self.bytes_view(),
    {
        proof {
            use_type_invariant(self);
        }
        Scalar { bytes: copy_bytes(&self.bytes) }
    }
}

impl View for Scalar {
    type V = nat;

    closed spec fn view(&self) -> nat {
        be_val(self.bytes@)
    }
}

impl Scalar {
    #[verifier::type_invariant]
    pub closed spec fn wf(self) -> bool {
        self.bytes@.len() == 32 && be_val(self.bytes@) < group_order()
    }

    /// The byte serialization, as a spec-level sequence.
    pub closed spec fn bytes_view(&self) -> Seq<u8> {
        self.bytes@
    }

    /// The big-endian bytes of a well-formed scalar read back as its value.
    pub proof fn lemma_wf(&self)
        requires
            self.wf(),
        ensures
            self@ < group_order(),
            self.bytes_view().len() == 32,
            be_val(self.bytes_view()) == self@,
    {
    }

    /// The 32-byte big-endian serialization of the value.
    pub fn to_bytes(&self) -> (r: Vec<u8>)
        ensures
            r@ == self.bytes_view(),
            r@.len() == 32,
            be_val(r@) == self@,
            self@ < group_order(),
    {
        proof {
            use_type_invariant(self);
        }
        copy_bytes(&self.bytes)
    }

    /// Relies on curv's Scalar::from_bigint: the big-endian value of the
    /// input reduced mod the group order, serialized back to 32 bytes.
    #[verifier::external_body]
    pub fn from_bytes_mod_order(bytes: &Vec<u8>) -> (r: Scalar)
        ensures
            r@ == be_val(bytes@) % group_order(),
    {
        let n = curv::BigInt::from_bytes(bytes.as_slice());
        let s = FieldElem::<Secp256k1>::from_bigint(&n);
        Scalar { bytes: s.to_bytes().to_vec() }
    }
}

/// Relies on curv's Scalar::random: rejection-samples a uniformly random
/// nonzero scalar below the group order.
#[verifier::external_body]
pub(crate) fn scalar_random() -> (r: Scalar)
    ensures
        r@ != 0,
{
    let s = FieldElem::<Secp256k1>::random();
    Scalar { bytes: s.to_bytes().to_vec() }
}

/// Relies on curv's scalar addition: the sum mod the group order.
#[verifier::external_body]
pub(crate) fn scalar_add(a: &Scalar, b: &Scalar) -> (r: Scalar)
    ensures
        r@ == (a@ + b@) % group_order(),
{
    let x = FieldElem::<Secp256k1>::from_bytes(a.bytes.as_slice()).unwrap();
    let y = FieldElem::<Secp256k1>::from_bytes(b.bytes.as_slice()).unwrap();
    Scalar { bytes: (x + y).to_bytes().to_vec() }
}

/// Relies on curv's scalar multiplication: the product mod the group order.
#[verifier::external_body]
pub(crate) fn scalar_mul(a: &Scalar, b: &Scalar) -> (r: Scalar)
    ensures
        r@ == (a@ * b@) % group_order(),
{
    let x = FieldElem::<Secp256k1>::from_bytes(a.bytes.as_slice()).unwrap();
    let y = FieldElem::<Secp256k1>::from_bytes(b.bytes.as_slice()).unwrap();
    Scalar { bytes: (x * y).to_bytes().to_vec() }
}

} // verus!
