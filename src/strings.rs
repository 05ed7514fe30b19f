use crate::error::{DecodeError, Error};
use crate::raw::{locate, offset_of, read_u16, u16_at};
use crate::text::{decode_utf16, decode_utf8, utf16_text, utf8_text};
use vstd::prelude::*;

verus! {

/// The bytes at `off` are `n` non-zero bytes followed by a zero byte.
pub open spec fn is_c_end(buf: Seq<u8>, off: int, n: int) -> bool {
    &&& 0 <= n
    &&& off + n < buf.len()
    &&& buf[off + n] == 0
    &&& forall|j: int| 0 <= j < n ==> #[trigger] buf[off + j] != 0
}

/// The 16-bit units at `off` are `n` non-zero units followed by a zero unit.
pub open spec fn is_wide_end(buf: Seq<u8>, off: int, n: int) -> bool {
    &&& 0 <= n
    &&& off + 2 * n + 2 <= buf.len()
    &&& u16_at(buf, off + 2 * n) == 0
    &&& forall|j: int| 0 <= j < n ==> #[trigger] u16_at(buf, off + 2 * j) != 0
}

/// The `n` 16-bit units stored from `off` on.
pub open spec fn wide_units(buf: Seq<u8>, off: int, n: int) -> Seq<u16> {
    Seq::new(n as nat, |j: int| u16_at(buf, off + 2 * j))
}

/// The text of the null-terminated narrow string at address `ptr`.
pub open spec fn narrow_text_at(buf: Seq<u8>, base: u64, ptr: u64) -> Option<Seq<char>> {
    match offset_of(base, buf.len() as int, ptr, 1) {
        None => None,
        Some(o) => if exists|n: int| is_c_end(buf, o, n) {
            utf8_text(buf.subrange(o, o + choose|n: int| is_c_end(buf, o, n)))
        } else {
            None
        },
    }
}

/// The text of the null-terminated wide string at address `ptr`.
pub open spec fn wide_text_at(buf: Seq<u8>, base: u64, ptr: u64) -> Option<Seq<char>> {
    match offset_of(base, buf.len() as int, ptr, 2) {
        None => None,
        Some(o) => if exists|n: int| is_wide_end(buf, o, n) {
            utf16_text(wide_units(buf, o, choose|n: int| is_wide_end(buf, o, n)))
        } else {
            None
        },
    }
}

/// Reads the null-terminated narrow string at address `ptr` as UTF-8.
pub fn read_narrow_text(buf: &[u8], base: u64, ptr: u64) -> (r: Result<String, Error>)
    ensures
        match r {
            Ok(s) => narrow_text_at(buf@, base, ptr) == Some(s@),
            Err(e) => narrow_text_at(buf@, base, ptr) is None && e.kind is Decode,
        },
{
    let o = match locate(base, buf.len(), ptr, 1) {
        None => return Err(Error::decode(DecodeError::BadLink)),
        Some(o) => o,
    };
    let mut end: usize = o;
    while end < buf.len() && buf[end] != 0
        invariant
            o <= end <= buf@.len(),
            forall|j: int| o <= j < end ==> buf@[j] != 0,
        decreases buf@.len() - end,
    {
        end = end + 1;
    }
    if end == buf.len() {
        proof {
            assert forall|n: int| !is_c_end(buf@, o as int, n) by {
                if is_c_end(buf@, o as int, n) {
                    assert(buf@[o + n] != 0);
                }
            }
        }
        return Err(Error::decode(DecodeError::BadText));
    }
    let n = Ghost((end - o) as int);
    proof {
        assert(is_c_end(buf@, o as int, n@));
        let m = choose|m: int| is_c_end(buf@, o as int, m);
        if m < n@ {
            assert(buf@[o + m] != 0);
        }
        if m > n@ {
            assert(buf@[o + n@] != 0);
        }
    }
    let bytes = vstd::slice::slice_subrange(buf, o, end);
    match decode_utf8(bytes) {
        Some(s) => Ok(s),
        None => Err(Error::decode(DecodeError::BadText)),
    }
}

/// Reads the null-terminated wide string at address `ptr` as UTF-16.
pub fn read_wide_text(buf: &[u8], base: u64, ptr: u64) -> (r: Result<String, Error>)
    ensures
        match r {
            Ok(s) => wide_text_at(buf@, base, ptr) == Some(s@),
            Err(e) => wide_text_at(buf@, base, ptr) is None && e.kind is Decode,
        },
{
    let o = match locate(base, buf.len(), ptr, 2) {
        None => return Err(Error::decode(DecodeError::BadLink)),
        Some(o) => o,
    };
    let mut units: Vec<u16> = Vec::new();
    let mut at: usize = o;
    loop
        invariant
            offset_of(base, buf@.len() as int, ptr, 2) == Some(o as int),
            o <= at,
            at == o + 2 * units@.len(),
            at <= buf@.len(),
            units@ == wide_units(buf@, o as int, units@.len() as int),
            forall|j: int| 0 <= j < units@.len() ==> #[trigger] u16_at(buf@, o + 2 * j) != 0,
        ensures
            at + 2 <= buf@.len(),
            at == o + 2 * units@.len(),
            u16_at(buf@, at as int) == 0,
            forall|j: int| 0 <= j < units@.len() ==> #[trigger] u16_at(buf@, o + 2 * j) != 0,
            units@ == wide_units(buf@, o as int, units@.len() as int),
        decreases buf@.len() - at,
    {
        if buf.len() - at < 2 {
            proof {
                assert forall|n: int| !is_wide_end(buf@, o as int, n) by {
                    if is_wide_end(buf@, o as int, n) {
                        if n < units@.len() {
                            assert(u16_at(buf@, o + 2 * n) != 0);
                        } else {
                            assert(o + 2 * n + 2 >= at + 2);
                        }
                    }
                }
                assert(offset_of(base, buf@.len() as int, ptr, 2) == Some(o as int));
                assert(!exists|n: int| is_wide_end(buf@, o as int, n));
            }
            return Err(Error::decode(DecodeError::BadText));
        }
        let u = read_u16(buf, at);
        if u == 0 {
            break;
        }
        units.push(u);
        at = at + 2;
        assert(units@ =~= wide_units(buf@, o as int, units@.len() as int));
    }
    proof {
        let n = units@.len() as int;
        assert(is_wide_end(buf@, o as int, n));
        let m = choose|m: int| is_wide_end(buf@, o as int, m);
        if m < n {
            assert(u16_at(buf@, o + 2 * m) != 0);
        }
        if m > n {
            assert(u16_at(buf@, o + 2 * n) != 0);
        }
    }
    match decode_utf16(units.as_slice()) {
        Some(s) => Ok(s),
        None => Err(Error::decode(DecodeError::BadText)),
    }
}

} // verus!
