use crate::error::{DecodeError, Error, ErrorKind};
use crate::raw::{locate, offset_of, read_u64, u64_at};
use vstd::prelude::*;
use vstd::set_lib::{lemma_int_range, lemma_len_subset, set_int_range};

verus! {

/// The layout of a forward-linked record: its size, and where in it the
/// 8-byte address of the next record (zero at the end) is stored.
#[derive(Debug, Clone, Copy, PartialEq, Eq, Structural)]
pub struct ChainShape {
    pub record_len: usize,
    pub next_at: usize,
}

impl ChainShape {
    pub open spec fn wf(self) -> bool {
        self.next_at + 8 <= self.record_len
    }
}

/// The link stored in the record at offset `off`.
pub open spec fn link(buf: Seq<u8>, shape: ChainShape, off: int) -> u64 {
    u64_at(buf, off + shape.next_at)
}

/// The offset of the record at address `addr`, if it lies in the buffer.
pub open spec fn record_at(buf: Seq<u8>, base: u64, shape: ChainShape, addr: u64) -> Option<int> {
    offset_of(base, buf.len() as int, addr, shape.record_len as int)
}

/// `s` holds the offsets of the records of the chain that starts at address
/// `head`, in link order, and the last record's link is null.
pub open spec fn is_chain(buf: Seq<u8>, base: u64, head: u64, shape: ChainShape, s: Seq<int>) -> bool {
    &&& is_partial_chain(buf, base, head, shape, s, 0)
}

/// `s` holds the offsets of the first records of the chain that starts at
/// address `head`, in link order, and `next` is the link after them.
pub open spec fn is_partial_chain(
    buf: Seq<u8>,
    base: u64,
    head: u64,
    shape: ChainShape,
    s: Seq<int>,
    next: u64,
) -> bool {
    &&& s.len() == 0 ==> head == next
    &&& s.len() > 0 ==> record_at(buf, base, shape, head) == Some(s[0])
    &&& forall|i: int|
        0 <= i < s.len() - 1 ==> record_at(buf, base, shape, #[trigger] link(buf, shape, s[i]))
            == Some(s[i + 1])
    &&& s.len() > 0 ==> link(buf, shape, s.last()) == next
}

/// A walked prefix agrees with every complete chain.
proof fn lemma_prefix_of_chain(
    buf: Seq<u8>,
    base: u64,
    head: u64,
    shape: ChainShape,
    v: Seq<int>,
    next: u64,
    s: Seq<int>,
    i: int,
)
    requires
        is_partial_chain(buf, base, head, shape, v, next),
        is_chain(buf, base, head, shape, s),
        0 <= i <= v.len(),
    ensures
        i <= s.len(),
        s.subrange(0, i) == v.subrange(0, i),
    decreases i,
{
    if i > 0 {
        lemma_prefix_of_chain(buf, base, head, shape, v, next, s, i - 1);
        if s.len() == i - 1 {
            if i == 1 {
                assert(head == 0);
            } else {
                assert(s[i - 2] == s.subrange(0, i - 1)[i - 2]);
                assert(v[i - 2] == v.subrange(0, i - 1)[i - 2]);
                assert(link(buf, shape, s.last()) == 0);
                assert(record_at(buf, base, shape, link(buf, shape, v[i - 2])) == Some(v[i - 1]));
            }
        }
        if i >= 2 {
            assert(s[i - 2] == s.subrange(0, i - 1)[i - 2]);
            assert(v[i - 2] == v.subrange(0, i - 1)[i - 2]);
            assert(record_at(buf, base, shape, link(buf, shape, v[i - 2])) == Some(v[i - 1]));
            assert(record_at(buf, base, shape, link(buf, shape, s[i - 2])) == Some(s[i - 1]));
        }
        assert(s.subrange(0, i) =~= v.subrange(0, i));
    }
}

/// A complete chain visits no record twice.
proof fn lemma_chain_no_duplicates(buf: Seq<u8>, base: u64, head: u64, shape: ChainShape, s: Seq<int>)
    requires
        is_chain(buf, base, head, shape, s),
    ensures
        s.no_duplicates(),
{
    assert forall|i: int, j: int| 0 <= i < j < s.len() implies s[i] != s[j] by {
        if s[i] == s[j] {
            lemma_chain_shift(buf, base, head, shape, s, i, j, s.len() - 1 - j);
            let k = i + s.len() - 1 - j;
            assert(record_at(buf, base, shape, link(buf, shape, s[k])) == Some(s[k + 1]));
        }
    }
}

proof fn lemma_chain_shift(
    buf: Seq<u8>,
    base: u64,
    head: u64,
    shape: ChainShape,
    s: Seq<int>,
    i: int,
    j: int,
    t: int,
)
    requires
        is_chain(buf, base, head, shape, s),
        0 <= i < j < s.len(),
        s[i] == s[j],
        0 <= t < s.len() - j,
    ensures
        s[i + t] == s[j + t],
    decreases t,
{
    if t > 0 {
        lemma_chain_shift(buf, base, head, shape, s, i, j, t - 1);
        assert(record_at(buf, base, shape, link(buf, shape, s[i + t - 1])) == Some(s[i + t]));
        assert(record_at(buf, base, shape, link(buf, shape, s[j + t - 1])) == Some(s[j + t]));
    }
}

/// A complete chain has at most as many records as the buffer has bytes.
pub proof fn lemma_chain_bounded(buf: Seq<u8>, base: u64, head: u64, shape: ChainShape, s: Seq<int>)
    requires
        shape.wf(),
        is_chain(buf, base, head, shape, s),
    ensures
        s.len() <= buf.len(),
{
    lemma_chain_no_duplicates(buf, base, head, shape, s);
    s.unique_seq_to_set();
    lemma_int_range(0, buf.len() as int);
    assert forall|x: int| s.to_set().contains(x) implies set_int_range(0, buf.len() as int).contains(
        x,
    ) by {
        let k = choose|k: int| 0 <= k < s.len() && s[k] == x;
        if k > 0 {
            assert(record_at(buf, base, shape, link(buf, shape, s[k - 1])) == Some(s[k]));
        } else {
            assert(record_at(buf, base, shape, head) == Some(s[0]));
        }
    }
    lemma_len_subset(s.to_set(), set_int_range(0, buf.len() as int));
}

/// There is at most one chain from a given head.
pub proof fn lemma_chain_unique(
    buf: Seq<u8>,
    base: u64,
    head: u64,
    shape: ChainShape,
    s: Seq<int>,
    t: Seq<int>,
)
    requires
        is_chain(buf, base, head, shape, s),
        is_chain(buf, base, head, shape, t),
    ensures
        s == t,
{
    lemma_prefix_of_chain(buf, base, head, shape, s, 0, t, s.len() as int);
    lemma_prefix_of_chain(buf, base, head, shape, t, 0, s, t.len() as int);
    assert(s.subrange(0, s.len() as int) == s);
    assert(t.subrange(0, t.len() as int) == t);
}

/// A null head is the empty chain, and no other chain.
pub proof fn lemma_null_head_empty(buf: Seq<u8>, base: u64, shape: ChainShape, s: Seq<int>)
    ensures
        is_chain(buf, base, 0, shape, Seq::<int>::empty()),
        is_chain(buf, base, 0, shape, s) ==> s.len() == 0,
{
}

/// The offsets of the records of the chain that starts at address `head`,
/// in link order. A null head is an empty chain. It fails with `BadLink` on a
/// link that leaves the buffer and with `Cycle` on a chain that never ends;
/// it fails exactly when there is no chain.
pub fn walk_chain(buf: &[u8], base: u64, head: u64, shape: ChainShape) -> (r: Result<
    Vec<usize>,
    Error,
>)
    requires
        shape.wf(),
    ensures
        match r {
            Ok(v) => is_chain(buf@, base, head, shape, v@.map_values(|o: usize| o as int)),
            Err(e) => {
                &&& (e.kind == ErrorKind::Decode(DecodeError::BadLink) || e.kind == ErrorKind::Decode(
                    DecodeError::Cycle,
                ))
                &&& forall|s: Seq<int>| !is_chain(buf@, base, head, shape, s)
            },
        },
{
    let mut offsets: Vec<usize> = Vec::new();
    let mut next = head;
    while next != 0
        invariant
            shape.wf(),
            offsets@.len() <= buf@.len(),
            is_partial_chain(buf@, base, head, shape, offsets@.map_values(|o: usize| o as int), next),
            forall|k: int| 0 <= k < offsets@.len() ==> offsets@[k] + shape.record_len <= buf@.len(),
        decreases buf@.len() - offsets@.len(),
    {
        let ghost v = offsets@.map_values(|o: usize| o as int);
        if offsets.len() >= buf.len() {
            proof {
                assert forall|s: Seq<int>| !is_chain(buf@, base, head, shape, s) by {
                    if is_chain(buf@, base, head, shape, s) {
                        lemma_prefix_of_chain(buf@, base, head, shape, v, next, s, v.len() as int);
                        lemma_chain_bounded(buf@, base, head, shape, s);
                        if s.len() == v.len() {
                            if v.len() > 0 {
                                assert(s.last() == s.subrange(0, v.len() as int)[v.len() - 1]);
                                assert(v.last() == v.subrange(0, v.len() as int)[v.len() - 1]);
                            }
                        }
                    }
                }
            }
            return Err(Error::decode(DecodeError::Cycle));
        }
        match locate(base, buf.len(), next, shape.record_len) {
            None => {
                proof {
                    assert forall|s: Seq<int>| !is_chain(buf@, base, head, shape, s) by {
                        if is_chain(buf@, base, head, shape, s) {
                            lemma_prefix_of_chain(buf@, base, head, shape, v, next, s, v.len() as int);
                            if v.len() > 0 {
                                assert(s[v.len() - 1] == s.subrange(0, v.len() as int)[v.len() - 1]);
                                assert(v.last() == v.subrange(0, v.len() as int)[v.len() - 1]);
                            }
                            if s.len() > v.len() && v.len() > 0 {
                                assert(record_at(buf@, base, shape, link(buf@, shape, s[v.len() - 1])) == Some(s[v.len() as int]));
                            }
                        }
                    }
                }
                return Err(Error::decode(DecodeError::BadLink));
            },
            Some(off) => {
                let after = read_u64(buf, off + shape.next_at);
                offsets.push(off);
                proof {
                    let w = offsets@.map_values(|o: usize| o as int);
                    assert(w == v.push(off as int));
                    assert forall|i: int| 0 <= i < w.len() - 1 implies record_at(buf@, base, shape, #[trigger] link(buf@, shape, w[i])) == Some(w[i + 1]) by {
                        if i < v.len() - 1 {
                            assert(w[i] == v[i] && w[i + 1] == v[i + 1]);
                        } else {
                            assert(w[i] == v.last());
                        }
                    }
                }
                next = after;
            },
        }
    }
    proof {
        let v = offsets@.map_values(|o: usize| o as int);
        assert(is_partial_chain(buf@, base, head, shape, v, 0));
    }
    Ok(offsets)
}

} // verus!
