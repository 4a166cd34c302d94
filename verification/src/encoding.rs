use vstd::prelude::*;

verus! {

/// The text that the standard base64 alphabet assigns to a byte string.
pub uninterp spec fn b64_of(data: Seq<u8>) -> Seq<char>;

/// What the standard base64 decoder accepts, and the bytes it yields.
pub uninterp spec fn b64_decode_of(text: Seq<char>) -> Option<Seq<u8>>;

#[verifier::external_type_specification]
#[verifier::external_body]
pub struct ExDecodeError(base64::DecodeError);

/// Relies on base64's standard engine `encode`: the text depends on the
/// bytes alone, and the standard `decode` inverts it.
#[verifier::external_body]
pub fn encode(data: &[u8]) -> (r: String)
    ensures
        r@ == b64_of(data@),
        b64_decode_of(r@) == Some(data@),
{
    base64::Engine::encode(&base64::engine::general_purpose::STANDARD, data)
}

/// Relies on base64's standard engine `decode`: deterministic in the text;
/// it fails exactly on text that is not valid base64.
#[verifier::external_body]
pub fn decode(data: &str) -> (r: Result<Vec<u8>, base64::DecodeError>)
    ensures
        r is Ok <==> b64_decode_of(data@) is Some,
        r is Ok ==> Some(r->Ok_0@) == b64_decode_of(data@),
{
    base64::Engine::decode(&base64::engine::general_purpose::STANDARD, data)
}

} // verus!
