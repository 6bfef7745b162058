use vstd::prelude::*;

verus! {

/// The MIME type name the detector assigns to a byte buffer: a pure
/// function of the bytes, so the result only gets a name here.
pub uninterp spec fn mime_of(bytes: Seq<u8>) -> Seq<char>;

/// Sniffs the content type of a byte buffer, for hosts that want to label
/// what they feed the pipeline. Relies on mimetype_detector::detect and the
/// Display rendering of its MimeType: the detected type depends on the
/// input bytes alone.
#[verifier::external_body]
pub fn detect_mime(input: &[u8]) -> (r: String)
    ensures
        r@ == mime_of(input@),
{
    mimetype_detector::detect(input).to_string()
}

} // verus!
