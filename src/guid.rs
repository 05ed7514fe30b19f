use vstd::bytes::*;
use vstd::prelude::*;

verus! {

/// The OS-native 16-byte identifier: a 4-byte field, two 2-byte fields and
/// an 8-byte tail.
#[derive(Debug, Clone, Copy, PartialEq, Eq)]
pub struct Guid {
    pub data1: u32,
    pub data2: u16,
    pub data3: u16,
    pub data4: [u8; 8],
}

/// The byte image of an identifier. Every field is laid out least
/// significant byte first, the byte order of each platform the OS runs on.
pub open spec fn guid_bytes(g: Guid) -> Seq<u8> {
    spec_u32_to_le_bytes(g.data1) + spec_u16_to_le_bytes(g.data2) + spec_u16_to_le_bytes(g.data3)
        + g.data4@
}

/// The identifier whose byte image is `b` (16 bytes).
pub open spec fn guid_of_bytes(b: Seq<u8>) -> Guid {
    Guid {
        data1: spec_u32_from_le_bytes(b.subrange(0, 4)),
        data2: spec_u16_from_le_bytes(b.subrange(4, 6)),
        data3: spec_u16_from_le_bytes(b.subrange(6, 8)),
        data4: array_of(b.subrange(8, 16)),
    }
}

/// The 8-byte array holding `s`.
pub open spec fn array_of(s: Seq<u8>) -> [u8; 8] {
    choose|a: [u8; 8]| a@ == s
}

proof fn lemma_array_of(a: [u8; 8])
    ensures
        array_of(a@) == a,
{
    let b = array_of(a@);
    assert(b@ == a@);
    assert(b == a);
}

/// Encoding an identifier and decoding the bytes gives the identifier back,
/// and decoding 16 bytes and encoding the identifier gives the bytes back.
pub proof fn lemma_guid_round_trip(g: Guid, b: Seq<u8>)
    requires
        b.len() == 16,
    ensures
        guid_of_bytes(guid_bytes(g)) == g,
        guid_bytes(guid_of_bytes(b)) == b,
{
    lemma_auto_spec_u32_to_from_le_bytes();
    lemma_auto_spec_u16_to_from_le_bytes();
    let e = guid_bytes(g);
    assert(e.subrange(0, 4) == spec_u32_to_le_bytes(g.data1));
    assert(e.subrange(4, 6) == spec_u16_to_le_bytes(g.data2));
    assert(e.subrange(6, 8) == spec_u16_to_le_bytes(g.data3));
    assert(e.subrange(8, 16) == g.data4@);
    lemma_array_of(g.data4);
    let h = guid_of_bytes(b);
    let t = b.subrange(8, 16);
    assert(exists|a: [u8; 8]| a@ == t) by {
        let a: [u8; 8] = [t[0], t[1], t[2], t[3], t[4], t[5], t[6], t[7]];
        assert(a@ == t);
    }
    assert(h.data4@ == t);
    assert(guid_bytes(h) == b.subrange(0, 4) + b.subrange(4, 6) + b.subrange(6, 8) + t);
    assert(guid_bytes(h) == b);
}

/// The 16-byte image of an identifier.
pub fn guid_to_bytes(guid: &Guid) -> (r: [u8; 16])
    ensures
        r@ == guid_bytes(*guid),
{
    let d1 = u32_to_le_bytes(guid.data1);
    let d2 = u16_to_le_bytes(guid.data2);
    let d3 = u16_to_le_bytes(guid.data3);
    proof {
        lemma_auto_spec_u32_to_from_le_bytes();
        lemma_auto_spec_u16_to_from_le_bytes();
    }
    let t = guid.data4;
    let r = [
        d1[0], d1[1], d1[2], d1[3], d2[0], d2[1], d3[0], d3[1],
        t[0], t[1], t[2], t[3], t[4], t[5], t[6], t[7],
    ];
    assert(r@ == guid_bytes(*guid));
    r
}

/// The identifier whose 16-byte image is `bytes`.
pub fn bytes_to_guid(bytes: [u8; 16]) -> (r: Guid)
    ensures
        r == guid_of_bytes(bytes@),
{
    let b = bytes;
    let data1 = u32_from_le_bytes(&[b[0], b[1], b[2], b[3]]);
    let data2 = u16_from_le_bytes(&[b[4], b[5]]);
    let data3 = u16_from_le_bytes(&[b[6], b[7]]);
    let data4: [u8; 8] = [b[8], b[9], b[10], b[11], b[12], b[13], b[14], b[15]];
    proof {
        lemma_array_of(data4);
        assert(data4@ == bytes@.subrange(8, 16));
        assert(bytes@.subrange(0, 4) == seq![b[0], b[1], b[2], b[3]]);
        assert(bytes@.subrange(4, 6) == seq![b[4], b[5]]);
        assert(bytes@.subrange(6, 8) == seq![b[6], b[7]]);
    }
    Guid { data1, data2, data3, data4 }
}

} // verus!
