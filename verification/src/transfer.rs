//! Chunked transfer logic: split an outgoing buffer into consecutive chunks
//! no larger than the endpoint's maximum packet size, and combine the
//! outcome of the per-chunk bulk transfers into the overall write result.
//!
//! The transfers themselves are performed by the USB transport outside this
//! library; everything decided here — which byte ranges are sent, in what
//! order, what the write returns for any sequence of transfer outcomes —
//! is verified.

use vstd::prelude::*;
use vstd::arithmetic::div_mod::lemma_basic_div;
use vstd::arithmetic::div_mod::lemma_div_by_self;
use vstd::arithmetic::div_mod::lemma_div_plus_one;
use crate::error::UsbError;
use crate::error::WriteErrorKind;
use crate::error::spec_translate_error;
use crate::error::translate_error;

verus! {

/// The number of chunks a buffer of `len` bytes splits into when each chunk
/// holds at most `c` bytes: the ceiling of `len / c`.
pub open spec fn spec_num_chunks(len: int, c: int) -> int
    recommends
        c >= 1,
{
    (len + c - 1) / c
}

/// The sizes of the consecutive chunks a buffer of `len` bytes splits into:
/// full chunks of `c` bytes, then whatever remains as the final chunk.
pub open spec fn spec_chunk_sizes(len: int, c: int) -> Seq<int>
    decreases len,
    when c >= 1
{
    if len <= 0 {
        Seq::empty()
    } else if len <= c {
        seq![len]
    } else {
        seq![c] + spec_chunk_sizes(len - c, c)
    }
}

/// The sum of the first `q` entries of `s`.
pub open spec fn spec_sum_prefix(s: Seq<int>, q: int) -> int
    decreases q,
    when 0 <= q <= s.len()
{
    if q <= 0 {
        0
    } else {
        spec_sum_prefix(s, q - 1) + s[q - 1]
    }
}

/// The sum of all entries of `s`.
pub open spec fn spec_total(s: Seq<int>) -> int {
    spec_sum_prefix(s, s.len() as int)
}

proof fn lemma_sum_prefix_shift(a: int, rest: Seq<int>, q: int)
    requires
        0 <= q <= rest.len(),
    ensures
        spec_sum_prefix(seq![a] + rest, q + 1) == a + spec_sum_prefix(rest, q),
    decreases q,
{
    if q > 0 {
        lemma_sum_prefix_shift(a, rest, q - 1);
        assert((seq![a] + rest)[q] == rest[q - 1]);
    } else {
        assert((seq![a] + rest)[0] == a);
        assert(spec_sum_prefix(seq![a] + rest, 0) == 0);
    }
}

proof fn lemma_sum_prefix_monotone(s: Seq<int>, q1: int, q2: int)
    requires
        0 <= q1 <= q2 <= s.len(),
        forall|x: int| 0 <= x < s.len() ==> 0 <= #[trigger] s[x],
    ensures
        spec_sum_prefix(s, q1) <= spec_sum_prefix(s, q2),
    decreases q2 - q1,
{
    if q1 < q2 {
        lemma_sum_prefix_monotone(s, q1, q2 - 1);
        assert(0 <= s[q2 - 1]);
    }
}

/// How a buffer decomposes into chunks: a buffer of `len` bytes with chunk
/// size `c` yields exactly the ceiling of `len / c` chunks, every chunk
/// holds between 1 and `c` bytes, every chunk but the last holds exactly
/// `c` bytes, and the chunk sizes add up to `len`.
pub proof fn lemma_chunk_sizes(len: int, c: int)
    requires
        len >= 0,
        c >= 1,
    ensures
        spec_chunk_sizes(len, c).len() == spec_num_chunks(len, c),
        forall|q: int|
            0 <= q < spec_chunk_sizes(len, c).len() ==> 1 <= #[trigger] spec_chunk_sizes(len, c)[q]
                <= c,
        forall|q: int|
            0 <= q < spec_chunk_sizes(len, c).len() - 1 ==> #[trigger] spec_chunk_sizes(len, c)[q]
                == c,
        spec_total(spec_chunk_sizes(len, c)) == len,
    decreases len,
{
    let s = spec_chunk_sizes(len, c);
    if len == 0 {
        lemma_basic_div(c - 1, c);
    } else if len <= c {
        lemma_basic_div(len - 1, c);
        lemma_div_plus_one(len - 1, c);
        assert(spec_sum_prefix(s, 0) == 0);
        assert(s[0] == len);
    } else {
        lemma_chunk_sizes(len - c, c);
        let rest = spec_chunk_sizes(len - c, c);
        lemma_div_plus_one(len - 1, c);
        assert forall|q: int| 0 <= q < s.len() implies 1 <= #[trigger] s[q] <= c by {
            if q == 0 {
                assert(s[0] == c);
            } else {
                assert(s[q] == rest[q - 1]);
            }
        }
        assert forall|q: int| 0 <= q < s.len() - 1 implies #[trigger] s[q] == c by {
            if q == 0 {
                assert(s[0] == c);
            } else {
                assert(s[q] == rest[q - 1]);
            }
        }
        lemma_sum_prefix_shift(c, rest, rest.len() as int);
        assert(spec_total(s) == c + spec_total(rest));
    }
}

/// Split a buffer of `len` bytes into its chunk ranges: `r[q]` is the
/// half-open byte range of the `q`-th chunk. The ranges are consecutive,
/// start at 0, end at `len`, and their sizes are the chunk decomposition
/// of the buffer.
#[verifier::rlimit(50)]
pub fn chunk_plan(len: usize, chunk_size: usize) -> (r: Vec<(usize, usize)>)
    requires
        chunk_size >= 1,
    ensures
        r@.len() == spec_num_chunks(len as int, chunk_size as int),
        forall|q: int|
            0 <= q < r@.len() ==> (#[trigger] r@[q]).1 - r@[q].0 == spec_chunk_sizes(
                len as int,
                chunk_size as int,
            )[q],
        forall|q: int|
            0 <= q < r@.len() ==> (#[trigger] r@[q]).0 == (if q == 0 {
                0int
            } else {
                r@[q - 1].1 as int
            }),
        forall|q: int| 0 <= q < r@.len() ==> (#[trigger] r@[q]).0 < r@[q].1 <= len,
        r@.len() > 0 ==> r@[r@.len() - 1].1 == len,
{
    let ghost sizes = spec_chunk_sizes(len as int, chunk_size as int);
    let mut r: Vec<(usize, usize)> = Vec::new();
    let mut offset: usize = 0;
    proof {
        assert(sizes.skip(0) =~= sizes);
    }
    while offset < len
        invariant
            chunk_size >= 1,
            sizes == spec_chunk_sizes(len as int, chunk_size as int),
            offset <= len,
            offset == spec_sum_prefix(sizes, r@.len() as int),
            sizes.skip(r@.len() as int) == spec_chunk_sizes(len - offset, chunk_size as int),
            r@.len() <= sizes.len(),
            forall|q: int|
                0 <= q < r@.len() ==> (#[trigger] r@[q]).0 == spec_sum_prefix(sizes, q)
                    && r@[q].1 == spec_sum_prefix(sizes, q + 1),
        decreases len - offset,
    {
        let ghost k = r@.len() as int;
        let remaining = len - offset;
        let take = if remaining < chunk_size {
            remaining
        } else {
            chunk_size
        };
        proof {
            assert(spec_chunk_sizes(remaining as int, chunk_size as int)[0] == take);
            assert(spec_chunk_sizes(remaining as int, chunk_size as int).len() >= 1);
            assert(sizes.skip(k).len() == sizes.len() - k);
            assert(k < sizes.len());
            assert(sizes[k] == sizes.skip(k)[0]);
            assert(spec_sum_prefix(sizes, k + 1) == spec_sum_prefix(sizes, k) + sizes[k]);
            assert(sizes.skip(k + 1) =~= sizes.skip(k).drop_first());
            assert(spec_chunk_sizes(remaining as int, chunk_size as int).drop_first()
                =~= spec_chunk_sizes(remaining - take, chunk_size as int));
        }
        r.push((offset, offset + take));
        offset = offset + take;
    }
    proof {
        assert(spec_chunk_sizes(0, chunk_size as int).len() == 0);
        assert(r@.len() == sizes.len());
        lemma_chunk_sizes(len as int, chunk_size as int);
        assert forall|q: int| 0 <= q < r@.len() implies (#[trigger] r@[q]).1 - r@[q].0
            == sizes[q] by {
            assert(spec_sum_prefix(sizes, q + 1) == spec_sum_prefix(sizes, q) + sizes[q]);
        }
        assert forall|q: int| 0 <= q < r@.len() implies (#[trigger] r@[q]).0 == (if q == 0 {
            0int
        } else {
            r@[q - 1].1 as int
        }) by {
            if q == 0 {
                assert(spec_sum_prefix(sizes, 0) == 0);
            }
        }
        assert forall|q: int| 0 <= q < r@.len() implies (#[trigger] r@[q]).0 < r@[q].1
            <= len by {
            assert(spec_sum_prefix(sizes, q + 1) == spec_sum_prefix(sizes, q) + sizes[q]);
            assert(1 <= sizes[q]);
            lemma_sum_prefix_monotone(sizes, q + 1, sizes.len() as int);
        }
    }
    r
}

/// The overall result of a chunked write, replayed from the outcome of each
/// per-chunk transfer, in order: the first failing chunk decides the error —
/// nothing past it is considered — and if every chunk succeeded, the result
/// is the sum of the bytes the transfers reported.
pub open spec fn spec_replay_from(outs: Seq<Result<usize, UsbError>>, q: int) -> Result<
    int,
    WriteErrorKind,
>
    decreases outs.len() - q,
    when 0 <= q <= outs.len()
{
    if q >= outs.len() {
        Ok(0)
    } else {
        match outs[q] {
            Ok(n) => match spec_replay_from(outs, q + 1) {
                Ok(t) => Ok(n + t),
                Err(k) => Err(k),
            },
            Err(e) => Err(spec_translate_error(e)),
        }
    }
}

/// The overall result of a chunked write from its transfer outcomes.
pub open spec fn spec_replay(outs: Seq<Result<usize, UsbError>>) -> Result<
    int,
    WriteErrorKind,
> {
    spec_replay_from(outs, 0)
}

/// A write result whose success total is shifted by `a` bytes already
/// accumulated.
pub open spec fn spec_offset_result(r: Result<int, WriteErrorKind>, a: int) -> Result<
    int,
    WriteErrorKind,
> {
    match r {
        Ok(t) => Ok(a + t),
        Err(k) => Err(k),
    }
}

/// Combine the per-chunk transfer outcomes of a chunked write into the
/// overall write result. `outcomes[q]` is what the bulk transfer of the
/// `q`-th chunk reported: the bytes it transferred, or the transport
/// failure that aborted the write at that chunk.
pub fn write_outcome(len: usize, chunk_size: usize, outcomes: &Vec<Result<usize, UsbError>>) -> (r:
    Result<usize, WriteErrorKind>)
    requires
        chunk_size >= 1,
        outcomes@.len() == spec_num_chunks(len as int, chunk_size as int),
        forall|q: int|
            0 <= q < outcomes@.len() && (#[trigger] outcomes@[q]) is Ok ==> outcomes@[q]->Ok_0
                <= spec_chunk_sizes(len as int, chunk_size as int)[q],
    ensures
        match r {
            Ok(total) => spec_replay(outcomes@) == Ok::<int, WriteErrorKind>(total as int) && total <= len,
            Err(k) => spec_replay(outcomes@) == Err::<int, WriteErrorKind>(k),
        },
{
    proof {
        lemma_chunk_sizes(len as int, chunk_size as int);
    }
    let ghost sizes = spec_chunk_sizes(len as int, chunk_size as int);
    let mut q: usize = 0;
    let mut acc: usize = 0;
    while q < outcomes.len()
        invariant
            q <= outcomes@.len(),
            outcomes@.len() == sizes.len(),
            sizes == spec_chunk_sizes(len as int, chunk_size as int),
            chunk_size >= 1,
            forall|x: int|
                0 <= x < outcomes@.len() && (#[trigger] outcomes@[x]) is Ok ==> outcomes@[x]->Ok_0
                    <= sizes[x],
            forall|x: int| 0 <= x < sizes.len() ==> 1 <= #[trigger] sizes[x],
            spec_total(sizes) == len,
            acc as int <= spec_sum_prefix(sizes, q as int),
            spec_replay(outcomes@) == spec_offset_result(
                spec_replay_from(outcomes@, q as int),
                acc as int,
            ),
        decreases outcomes@.len() - q,
    {
        let o = outcomes[q];
        match o {
            Ok(n) => {
                proof {
                    assert(spec_sum_prefix(sizes, q as int + 1) == spec_sum_prefix(sizes, q as int)
                        + sizes[q as int]);
                    lemma_sum_prefix_monotone(sizes, q as int + 1, sizes.len() as int);
                    assert(acc + n <= len);
                }
                acc = acc + n;
            },
            Err(e) => {
                let k = translate_error(e);
                return Err(k);
            },
        }
        q = q + 1;
    }
    Ok(acc)
}

/// The payload of a flush: a single null byte, sent to the endpoint as one
/// chunk.
pub fn flush_payload() -> (r: Vec<u8>)
    ensures
        r@ == seq![0u8],
{
    let mut v: Vec<u8> = Vec::new();
    v.push(0u8);
    proof {
        assert(v@ =~= seq![0u8]);
    }
    v
}

/// A one-byte buffer — the flush payload — always forms exactly one chunk,
/// of exactly one byte, whatever the endpoint's chunk size.
pub proof fn lemma_flush_single_chunk(c: int)
    requires
        c >= 1,
    ensures
        spec_num_chunks(1, c) == 1,
        spec_chunk_sizes(1, c) == seq![1int],
{
    lemma_div_by_self(c);
}

/// The sum of the bytes reported by the transfers of `outs[q..]`, counting
/// a failed transfer as zero bytes.
pub open spec fn spec_reported_total(outs: Seq<Result<usize, UsbError>>, q: int) -> int
    decreases outs.len() - q,
    when 0 <= q <= outs.len()
{
    if q >= outs.len() {
        0
    } else {
        (if outs[q] is Ok {
            outs[q]->Ok_0 as int
        } else {
            0
        }) + spec_reported_total(outs, q + 1)
    }
}

proof fn lemma_replay_from_all_ok(outs: Seq<Result<usize, UsbError>>, q: int)
    requires
        0 <= q <= outs.len(),
        forall|x: int| q <= x < outs.len() ==> (#[trigger] outs[x]) is Ok,
    ensures
        spec_replay_from(outs, q) == Ok::<int, WriteErrorKind>(spec_reported_total(outs, q)),
    decreases outs.len() - q,
{
    if q < outs.len() {
        lemma_replay_from_all_ok(outs, q + 1);
    }
}

/// When every chunk transfer succeeds, the write succeeds and returns the
/// sum of the bytes the transfers reported.
pub proof fn lemma_replay_all_ok(outs: Seq<Result<usize, UsbError>>)
    requires
        forall|x: int| 0 <= x < outs.len() ==> (#[trigger] outs[x]) is Ok,
    ensures
        spec_replay(outs) == Ok::<int, WriteErrorKind>(spec_reported_total(outs, 0)),
{
    lemma_replay_from_all_ok(outs, 0);
}

proof fn lemma_replay_from_first_error(outs: Seq<Result<usize, UsbError>>, q: int, f: int)
    requires
        0 <= q <= f < outs.len(),
        outs[f] is Err,
        forall|x: int| q <= x < f ==> (#[trigger] outs[x]) is Ok,
    ensures
        spec_replay_from(outs, q) == Err::<int, WriteErrorKind>(
            spec_translate_error(outs[f]->Err_0),
        ),
    decreases f - q,
{
    if q < f {
        lemma_replay_from_first_error(outs, q + 1, f);
    }
}

/// A failing transfer at any chunk — for a timeout, any transport failure —
/// makes the whole write fail with that failure's classification, a timeout
/// as `TimedOut`; and nothing past the failing chunk matters: the result
/// equals the result over the outcomes cut off right after the failure.
pub proof fn lemma_replay_first_error(outs: Seq<Result<usize, UsbError>>, f: int)
    requires
        0 <= f < outs.len(),
        outs[f] is Err,
        forall|x: int| 0 <= x < f ==> (#[trigger] outs[x]) is Ok,
    ensures
        spec_replay(outs) == Err::<int, WriteErrorKind>(spec_translate_error(outs[f]->Err_0)),
        spec_replay(outs) == spec_replay(outs.take(f + 1)),
{
    lemma_replay_from_first_error(outs, 0, f);
    let cut = outs.take(f + 1);
    assert(cut[f] is Err && cut[f] == outs[f]);
    lemma_replay_from_first_error(cut, 0, f);
}

} // verus!
