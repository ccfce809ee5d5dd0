//! Byte sizes, parsed from and rendered to human-readable text by the `bytesize` crate.
use vstd::prelude::*;

verus! {

/// What `"<s>".parse::<bytesize::ByteSize>()` yields for the characters `s`: the byte count,
/// or `None` where the text is refused.
pub uninterp spec fn byte_size_parse(s: Seq<char>) -> Option<u64>;

/// What `bytesize::ByteSize(n).to_string()` renders for `n` bytes (such as "4.1 KiB").
pub uninterp spec fn byte_size_text(n: u64) -> Seq<char>;

/// `<bytesize::ByteSize as FromStr>::from_str`, mapped to its byte count; its error text is
/// dropped. The parse goes through floating point inside the crate, so its result is named,
/// not described.
#[verifier::external_body]
pub(crate) fn parse_byte_size(s: &str) -> (r: Option<u64>)
    ensures
        r == byte_size_parse(s@),
{
    match s.parse::<bytesize::ByteSize>() {
        Ok(b) => Some(b.as_u64()),
        Err(_) => None,
    }
}

/// `<bytesize::ByteSize as Display>::fmt` through `to_string`; the rendering rounds in
/// floating point inside the crate, so its result is named, not described.
#[verifier::external_body]
pub(crate) fn byte_size_display(n: u64) -> (r: String)
    ensures
        r@ == byte_size_text(n),
{
    bytesize::ByteSize(n).to_string()
}

} // verus!
