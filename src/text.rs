use vstd::prelude::*;

verus! {

/// What UTF-8 decoding makes of `bytes`: the characters, or `None` for
/// bytes that are not valid UTF-8.
pub uninterp spec fn utf8_text(bytes: Seq<u8>) -> Option<Seq<char>>;

/// What UTF-16 decoding makes of `units`: the characters, or `None` for
/// units that hold an unpaired surrogate.
pub uninterp spec fn utf16_text(units: Seq<u16>) -> Option<Seq<char>>;

/// Relies on `core::str::from_utf8`: it accepts exactly the valid UTF-8
/// sequences, and its result depends on the bytes alone.
#[verifier::external_body]
pub(crate) fn decode_utf8(bytes: &[u8]) -> (r: Option<String>)
    ensures
        match r {
            Some(s) => utf8_text(bytes@) == Some(s@),
            None => utf8_text(bytes@) is None,
        },
{
    core::str::from_utf8(bytes).ok().map(|s| s.to_owned())
}

/// Relies on `widestring::U16Str::to_string`: it decodes UTF-16 and fails
/// on an unpaired surrogate; its result depends on the units alone.
#[verifier::external_body]
pub(crate) fn decode_utf16(units: &[u16]) -> (r: Option<String>)
    ensures
        match r {
            Some(s) => utf16_text(units@) == Some(s@),
            None => utf16_text(units@) is None,
        },
{
    widestring::U16Str::from_slice(units).to_string().ok()
}

} // verus!
