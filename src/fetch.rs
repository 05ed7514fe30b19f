use vstd::prelude::*;

verus! {

/// The buffer size that the first table query is made with (16 KiB).
pub const INITIAL_BUFFER_LEN: u32 = 16384;

/// The status of a table query that filled the buffer.
pub const STATUS_SUCCESS: u32 = 0;

/// The status of a table query whose buffer was too small; the query then
/// reports the size it needs.
pub const STATUS_BUFFER_OVERFLOW: u32 = 111;

/// What to do after a table query answered.
#[derive(Debug, Clone, Copy, PartialEq, Eq, Structural)]
pub enum FetchStep {
    /// Resize the buffer to `buffer_len` and query again.
    Retry,
    /// The buffer holds the table.
    Done,
    /// The query failed with this status; no retry.
    Failed(u32),
}

/// One answer of the OS table query.
#[derive(Debug, Clone, Copy, PartialEq, Eq, Structural)]
pub struct QueryResponse {
    pub status: u32,
    pub required_len: u32,
}

/// The decisions of the grow-and-retry protocol that fetches a table of
/// unknown size.
#[derive(Debug, Clone, Copy, PartialEq, Eq, Structural)]
pub struct TableFetch {
    /// The size of the buffer for the next (or the successful) query.
    pub buffer_len: u32,
}

pub open spec fn step_of(status: u32) -> FetchStep {
    if status == STATUS_BUFFER_OVERFLOW {
        FetchStep::Retry
    } else if status == STATUS_SUCCESS {
        FetchStep::Done
    } else {
        FetchStep::Failed(status)
    }
}

pub open spec fn next_len(len: u32, r: QueryResponse) -> u32 {
    if r.status == STATUS_BUFFER_OVERFLOW {
        r.required_len
    } else {
        len
    }
}

/// Running the protocol from buffer size `len` against the answers `rs`:
/// the number of queries made, the final buffer size, and the outcome
/// (`None` if the answers ran out while it still wanted to retry).
pub open spec fn drive(len: u32, rs: Seq<QueryResponse>) -> (nat, u32, Option<FetchStep>)
    decreases rs.len(),
{
    if rs.len() == 0 {
        (0, len, None)
    } else {
        let step = step_of(rs[0].status);
        let l = next_len(len, rs[0]);
        if step == FetchStep::Retry {
            let (c, fl, o) = drive(l, rs.drop_first());
            (c + 1, fl, o)
        } else {
            (1, l, Some(step))
        }
    }
}

/// An overflow answer that asks for `required` bytes.
pub open spec fn overflow(required: u32) -> QueryResponse {
    QueryResponse { status: STATUS_BUFFER_OVERFLOW, required_len: required }
}

impl TableFetch {
    pub fn new() -> (r: TableFetch)
        ensures
            r.buffer_len == INITIAL_BUFFER_LEN,
    {
        TableFetch { buffer_len: INITIAL_BUFFER_LEN }
    }

    /// Takes the answer to the query made with `buffer_len` bytes: on
    /// overflow, the buffer grows to the size the OS reported and the query is
    /// repeated; success ends the protocol; any other status fails it.
    pub fn on_response(&mut self, response: QueryResponse) -> (r: FetchStep)
        ensures
            r == step_of(response.status),
            final(self).buffer_len == next_len(old(self).buffer_len, response),
    {
        if response.status == STATUS_BUFFER_OVERFLOW {
            self.buffer_len = response.required_len;
            FetchStep::Retry
        } else if response.status == STATUS_SUCCESS {
            FetchStep::Done
        } else {
            FetchStep::Failed(response.status)
        }
    }
}

/// `k` overflow answers followed by a success take exactly `k + 1` queries,
/// end in `Done`, and leave the buffer at the size the last overflow
/// reported (the starting size when there was none).
pub proof fn lemma_retry_terminates(len: u32, required: Seq<u32>, success: QueryResponse)
    requires
        success.status == STATUS_SUCCESS,
    ensures
        drive(len, required.map_values(|r: u32| overflow(r)).push(success)) == (
            required.len() + 1,
            if required.len() == 0 {
                len
            } else {
                required.last()
            },
            Some(FetchStep::Done),
        ),
    decreases required.len(),
{
    let rs = required.map_values(|r: u32| overflow(r)).push(success);
    if required.len() == 0 {
        assert(rs[0] == success);
    } else {
        let rest = required.drop_first();
        assert(rs[0] == overflow(required[0]));
        assert(rs.drop_first() == rest.map_values(|r: u32| overflow(r)).push(success));
        lemma_retry_terminates(required[0], rest, success);
        if rest.len() > 0 {
            assert(rest.last() == required.last());
        }
    }
}

/// A failure status other than overflow ends the protocol after that one
/// query, whatever follows.
pub proof fn lemma_no_retry_on_failure(len: u32, rs: Seq<QueryResponse>)
    requires
        rs.len() > 0,
        rs[0].status != STATUS_BUFFER_OVERFLOW,
        rs[0].status != STATUS_SUCCESS,
    ensures
        drive(len, rs) == (1nat, len, Some(FetchStep::Failed(rs[0].status))),
{
}

} // verus!
