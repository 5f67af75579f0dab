use vstd::prelude::*;

verus! {

/// The serialization binding: the contract a value type enters into with the
/// queue. A value owns a canonical byte encoding, and decoding those bytes
/// either recovers a value carrying exactly the encoded content or reports a
/// distinguishable failure.
///
/// `encoding` and `decoded_view` are the mathematical faces of the two
/// executable methods. Decoding is pinned down over the value's view: the
/// bytes determine the content of the recovered value, not its allocation.
pub trait IBincodeSerializable: Sized + Clone + Send + View {
    /// The canonical byte form of this value.
    spec fn encoding(&self) -> Seq<u8>;

    /// What a byte sequence decodes to, if anything: the content of the
    /// recovered value.
    spec fn decoded_view(b: Seq<u8>) -> Option<Self::V>;

    /// Serializes the value. The bytes produced are the value's canonical
    /// encoding, and they decode back to this value's content.
    fn to_bincode(&self) -> (r: Vec<u8>)
        ensures
            r@ == self.encoding(),
            Self::decoded_view(r@) == Some(self@),
    ;

    /// Deserializes bytes into a value. Bytes that are not a valid encoding
    /// yield `None`, never a crash.
    fn from_bincode(b: &[u8]) -> (r: Option<Self>)
        ensures
            match r {
                Some(v) => Self::decoded_view(b@) == Some(v@),
                None => Self::decoded_view(b@) is None,
            },
    ;
}

/// Round trip: decoding an encoded value always succeeds and recovers a
/// value with the same content, for every value of every bound type.
pub fn encode_decode_round_trip<T: IBincodeSerializable>(v: &T) -> (r: Option<T>)
    ensures
        r matches Some(w) && w@ == v@,
{
    let bytes = v.to_bincode();
    T::from_bincode(bytes.as_slice())
}

} // verus!
