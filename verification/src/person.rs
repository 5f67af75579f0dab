use vstd::prelude::*;

use crate::codec::IBincodeSerializable;

verus! {

/// A record type bound to the queue's serialization contract: a named person
/// with an age. Its content, for specification purposes, is the pair of its
/// name's characters and its age.
#[derive(Clone, Debug, PartialEq)]
pub struct Person {
    pub name: String,
    pub age: u32,
}

impl View for Person {
    type V = (Seq<char>, u32);

    open spec fn view(&self) -> (Seq<char>, u32) {
        (self.name@, self.age)
    }
}

/// The bytes bincode's fixed-width-integer format produces for a name and an
/// age, serialized in field order.
pub uninterp spec fn person_encoding(name: Seq<char>, age: u32) -> Seq<u8>;

/// The name and age bincode recovers from a byte sequence, or `None` where
/// the bytes are not a valid encoding of such a pair.
pub uninterp spec fn person_decoding(b: Seq<u8>) -> Option<(Seq<char>, u32)>;

/// Relies on bincode::serialize: a deterministic, total encoding of the
/// name and age field pair, from which bincode::deserialize recovers exactly
/// the content that was serialized.
#[verifier::external_body]
fn person_encode(p: &Person) -> (r: Vec<u8>)
    ensures
        r@ == person_encoding(p.name@, p.age),
        person_decoding(r@) == Some((p.name@, p.age)),
{
    bincode::serialize(&(&p.name, p.age)).unwrap()
}

/// Relies on bincode::deserialize: recovers the name and age pair encoded in
/// the bytes, and reports failure on bytes that encode no such pair instead
/// of crashing.
#[verifier::external_body]
fn person_decode(b: &[u8]) -> (r: Option<Person>)
    ensures
        match r {
            Some(p) => person_decoding(b@) == Some((p.name@, p.age)),
            None => person_decoding(b@) is None,
        },
{
    match bincode::deserialize::<(String, u32)>(b) {
        Ok((name, age)) => Some(Person { name, age }),
        Err(_) => None,
    }
}

impl IBincodeSerializable for Person {
    open spec fn encoding(&self) -> Seq<u8> {
        person_encoding(self.name@, self.age)
    }

    open spec fn decoded_view(b: Seq<u8>) -> Option<(Seq<char>, u32)> {
        person_decoding(b)
    }

    fn to_bincode(&self) -> (r: Vec<u8>) {
        person_encode(self)
    }

    fn from_bincode(b: &[u8]) -> (r: Option<Person>) {
        person_decode(b)
    }
}

} // verus!
