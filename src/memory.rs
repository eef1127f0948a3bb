//! The memory workloads: a buffer filled or summed chunk by chunk, in order
//! or at chunks drawn at random (with replacement).

use vstd::prelude::*;
use vstd::arithmetic::div_mod::lemma_fundamental_div_mod_converse_div;

verus! {

/// The unit of sequential and random access: one MiB.
pub const CHUNK_SIZE: usize = 1048576;

/// The byte that the workloads write.
pub const FILL_BYTE: u8 = 42;

#[verifier::external_type_specification]
#[verifier::external_body]
pub struct ExFastRng(fastrand::Rng);

/// Relies on `fastrand::Rng::with_seed`: a generator whose stream is fixed by the seed.
pub assume_specification[ fastrand::Rng::with_seed ](seed: u64) -> fastrand::Rng;

/// Relies on `fastrand::Rng::usize` with the range `..n`: a value below `n`
/// (the call panics on an empty range, which `n > 0` excludes).
#[verifier::external_body]
pub(crate) fn pick_below(rng: &mut fastrand::Rng, n: usize) -> (r: usize)
    requires
        n > 0,
    ensures
        r < n,
{
    rng.usize(..n)
}

/// `draws` chunk indices below `chunk_count`, drawn at random with
/// replacement: a chunk may be drawn twice and another not at all.
pub fn random_chunk_indices(rng: &mut fastrand::Rng, chunk_count: usize, draws: usize) -> (r: Vec<
    usize,
>)
    requires
        chunk_count > 0 || draws == 0,
    ensures
        r@.len() == draws,
        forall|k: int| 0 <= k < r@.len() ==> #[trigger] r@[k] < chunk_count,
{
    let mut r: Vec<usize> = Vec::new();
    let mut i: usize = 0;
    while i < draws
        invariant
            i <= draws,
            chunk_count > 0 || draws == 0,
            r@.len() == i,
            forall|k: int| 0 <= k < r@.len() ==> #[trigger] r@[k] < chunk_count,
        decreases draws - i,
    {
        let c = pick_below(rng, chunk_count);
        r.push(c);
        i = i + 1;
    }
    r
}

/// The sum of the bytes of `s`.
pub open spec fn byte_sum(s: Seq<u8>) -> int
    decreases s.len(),
{
    if s.len() == 0 {
        0
    } else {
        byte_sum(s.drop_last()) + s.last()
    }
}

/// `len` copies of `value`.
pub open spec fn filled(len: nat, value: u8) -> Seq<u8> {
    Seq::new(len, |_i: int| value)
}

/// The chunk with index `idx` of `buf`.
pub open spec fn chunk_of(buf: Seq<u8>, idx: int) -> Seq<u8> {
    buf.subrange(idx * CHUNK_SIZE, idx * CHUNK_SIZE + CHUNK_SIZE)
}

/// Every index names a whole chunk inside a buffer of `len` bytes.
pub open spec fn chunks_in_bounds(idxs: Seq<usize>, len: nat) -> bool {
    forall|k: int| 0 <= k < idxs.len() ==> (#[trigger] idxs[k] + 1) * CHUNK_SIZE <= len
}

/// The sum of the bytes of the chunks named by `idxs`, a chunk counted once
/// for each time it is named.
pub open spec fn chunks_sum(buf: Seq<u8>, idxs: Seq<usize>) -> int
    decreases idxs.len(),
{
    if idxs.len() == 0 {
        0
    } else {
        chunks_sum(buf, idxs.drop_last()) + byte_sum(chunk_of(buf, idxs.last() as int))
    }
}

/// A run of equal bytes sums to the byte times the length.
pub proof fn lemma_byte_sum_filled(s: Seq<u8>, value: u8)
    requires
        forall|i: int| 0 <= i < s.len() ==> s[i] == value,
    ensures
        byte_sum(s) == value * s.len(),
    decreases s.len(),
{
    if s.len() > 0 {
        lemma_byte_sum_filled(s.drop_last(), value);
        assert(value * s.len() == value * (s.len() - 1) + value) by (nonlinear_arith);
    }
}

/// A byte sum is at most 255 for each byte.
pub proof fn lemma_byte_sum_bound(s: Seq<u8>)
    ensures
        0 <= byte_sum(s) <= 255 * s.len(),
    decreases s.len(),
{
    if s.len() > 0 {
        lemma_byte_sum_bound(s.drop_last());
    }
}

/// Over a buffer of equal bytes, each named chunk adds the byte times the
/// chunk size.
pub proof fn lemma_chunks_sum_filled(buf: Seq<u8>, idxs: Seq<usize>, value: u8)
    requires
        forall|i: int| 0 <= i < buf.len() ==> buf[i] == value,
        chunks_in_bounds(idxs, buf.len()),
    ensures
        chunks_sum(buf, idxs) == value * CHUNK_SIZE * idxs.len(),
    decreases idxs.len(),
{
    if idxs.len() > 0 {
        let last = idxs.last() as int;
        assert((idxs[idxs.len() - 1] + 1) * CHUNK_SIZE <= buf.len());
        lemma_chunks_sum_filled(buf, idxs.drop_last(), value);
        let c = chunk_of(buf, last);
        assert forall|i: int| 0 <= i < c.len() implies c[i] == value by {
            assert(c[i] == buf[last * CHUNK_SIZE + i]);
        }
        lemma_byte_sum_filled(c, value);
        assert(value * CHUNK_SIZE * idxs.len() == value * CHUNK_SIZE * (idxs.len() - 1) + value
            * CHUNK_SIZE) by (nonlinear_arith);
    }
}

/// A position lies in the chunk whose index is the position divided by the chunk size.
proof fn lemma_position_in_chunk(j: int, idx: int)
    requires
        idx * CHUNK_SIZE <= j < idx * CHUNK_SIZE + CHUNK_SIZE,
    ensures
        j / (CHUNK_SIZE as int) == idx,
{
    lemma_fundamental_div_mod_converse_div(j, CHUNK_SIZE as int, idx, j - idx * CHUNK_SIZE);
}

/// A buffer of `len` bytes, each `value`, or `None` where the allocator
/// cannot provide `len` bytes. An empty buffer needs no allocation and is
/// always returned.
pub fn allocate_buffer(len: usize, value: u8) -> (r: Option<Vec<u8>>)
    ensures
        r matches Some(v) ==> v@ == filled(len as nat, value),
        len == 0 ==> r is Some,
{
    let mut v: Vec<u8> = Vec::new();
    if len == 0 {
        proof {
            assert(v@ =~= filled(0, value));
        }
        return Some(v);
    }
    if v.try_reserve(len).is_err() {
        return None;
    }
    let mut i: usize = 0;
    while i < len
        invariant
            i <= len,
            v@ == filled(i as nat, value),
        decreases len - i,
    {
        v.push(value);
        i = i + 1;
        proof {
            assert(v@ =~= filled(i as nat, value));
        }
    }
    Some(v)
}

/// The sequential write: every byte set to `value`, one chunk after another.
pub fn fill_sequential(buf: &mut Vec<u8>, value: u8)
    ensures
        final(buf)@ == filled(old(buf)@.len(), value),
{
    let len = buf.len();
    let mut start: usize = 0;
    while start < len
        invariant
            len == buf@.len(),
            start <= len,
            forall|j: int| 0 <= j < start ==> buf@[j] == value,
        decreases len - start,
    {
        let end: usize = if len - start > CHUNK_SIZE {
            start + CHUNK_SIZE
        } else {
            len
        };
        let mut j: usize = start;
        while j < end
            invariant
                len == buf@.len(),
                start <= j <= end <= len,
                forall|k: int| 0 <= k < j ==> buf@[k] == value,
            decreases end - j,
        {
            buf.set(j, value);
            j = j + 1;
        }
        start = end;
    }
    proof {
        assert(buf@ =~= filled(len as nat, value));
    }
}

/// The sequential read: the sum of all bytes, read one chunk after another.
pub fn sum_sequential(buf: &Vec<u8>) -> (r: u128)
    ensures
        r == byte_sum(buf@),
{
    let len = buf.len();
    let mut sum: u128 = 0;
    let mut start: usize = 0;
    while start < len
        invariant
            len == buf@.len(),
            start <= len,
            sum == byte_sum(buf@.take(start as int)),
        decreases len - start,
    {
        let end: usize = if len - start > CHUNK_SIZE {
            start + CHUNK_SIZE
        } else {
            len
        };
        let mut j: usize = start;
        while j < end
            invariant
                len == buf@.len(),
                start <= j <= end <= len,
                sum == byte_sum(buf@.take(j as int)),
            decreases end - j,
        {
            proof {
                assert(buf@.take(j + 1).drop_last() =~= buf@.take(j as int));
                lemma_byte_sum_bound(buf@.take(j as int));
            }
            sum = sum + buf[j] as u128;
            j = j + 1;
        }
        start = end;
    }
    proof {
        assert(buf@.take(len as int) =~= buf@);
    }
    sum
}

/// The random write: each chunk named by `idxs` set to `value`; the bytes
/// of chunks that are not named keep their value.
pub fn fill_chunks(buf: &mut Vec<u8>, idxs: &Vec<usize>, value: u8)
    requires
        chunks_in_bounds(idxs@, old(buf)@.len()),
    ensures
        final(buf)@.len() == old(buf)@.len(),
        forall|j: int|
            0 <= j < old(buf)@.len() ==> #[trigger] final(buf)@[j] == if idxs@.contains(
                (j / (CHUNK_SIZE as int)) as usize,
            ) {
                value
            } else {
                old(buf)@[j]
            },
{
    let ghost orig = buf@;
    let len = buf.len();
    let mut k: usize = 0;
    while k < idxs.len()
        invariant
            buf@.len() == orig.len(),
            len == orig.len(),
            k <= idxs@.len(),
            chunks_in_bounds(idxs@, orig.len()),
            forall|j: int|
                0 <= j < orig.len() ==> #[trigger] buf@[j] == if idxs@.take(k as int).contains(
                    (j / (CHUNK_SIZE as int)) as usize,
                ) {
                    value
                } else {
                    orig[j]
                },
        decreases idxs@.len() - k,
    {
        let idx = idxs[k];
        proof {
            assert((idxs@[k as int] + 1) * CHUNK_SIZE <= orig.len());
            assert((idx + 1) * CHUNK_SIZE == idx * CHUNK_SIZE + CHUNK_SIZE) by (nonlinear_arith);
        }
        let start: usize = idx * CHUNK_SIZE;
        let end: usize = start + CHUNK_SIZE;
        let ghost before = buf@;
        let mut j: usize = start;
        while j < end
            invariant
                buf@.len() == orig.len(),
                start <= j <= end <= orig.len(),
                start == idx * CHUNK_SIZE,
                end == start + CHUNK_SIZE,
                forall|p: int| 0 <= p < orig.len() ==> #[trigger] buf@[p] == if start <= p < j {
                    value
                } else {
                    before[p]
                },
            decreases end - j,
        {
            buf.set(j, value);
            j = j + 1;
        }
        proof {
            let taken = idxs@.take(k + 1);
            assert(taken =~= idxs@.take(k as int).push(idx));
            assert forall|p: int| 0 <= p < orig.len() implies #[trigger] buf@[p] == if taken.contains(
                (p / (CHUNK_SIZE as int)) as usize,
            ) {
                value
            } else {
                orig[p]
            } by {
                let c = (p / (CHUNK_SIZE as int)) as usize;
                if start <= p < end {
                    lemma_position_in_chunk(p, idx as int);
                    assert(taken[k as int] == idx);
                } else {
                    let d = p / (CHUNK_SIZE as int);
                    vstd::arithmetic::div_mod::lemma_fundamental_div_mod(p, CHUNK_SIZE as int);
                    assert(0 <= d <= p) by (nonlinear_arith)
                        requires
                            p == (CHUNK_SIZE as int) * d + p % (CHUNK_SIZE as int),
                            0 <= p % (CHUNK_SIZE as int),
                            p >= 0,
                    ;
                    assert(c as int == d);
                    if c == idx {
                        assert(start <= p < end) by (nonlinear_arith)
                            requires
                                p == (CHUNK_SIZE as int) * d + p % (CHUNK_SIZE as int),
                                0 <= p % (CHUNK_SIZE as int) < CHUNK_SIZE,
                                d == idx,
                                start == idx * CHUNK_SIZE,
                                end == start + CHUNK_SIZE,
                        ;
                    }
                    if taken.contains(c) {
                        let q = choose|q: int| 0 <= q < taken.len() && taken[q] == c;
                        assert(q != k);
                        assert(idxs@.take(k as int)[q] == c);
                    }
                    if idxs@.take(k as int).contains(c) {
                        let q = choose|q: int|
                            0 <= q < idxs@.take(k as int).len() && idxs@.take(k as int)[q] == c;
                        assert(taken[q] == c);
                    }
                    assert(buf@[p] == before[p]);
                }
            }
        }
        k = k + 1;
    }
    proof {
        assert(idxs@.take(idxs@.len() as int) =~= idxs@);
    }
}

/// The random read: the sum of the bytes of each chunk named by `idxs`.
pub fn sum_chunks(buf: &Vec<u8>, idxs: &Vec<usize>) -> (r: u128)
    requires
        chunks_in_bounds(idxs@, buf@.len()),
        idxs@.len() <= usize::MAX,
    ensures
        r == chunks_sum(buf@, idxs@),
{
    let len = buf.len();
    let mut sum: u128 = 0;
    let mut k: usize = 0;
    while k < idxs.len()
        invariant
            k <= idxs@.len(),
            len == buf@.len(),
            chunks_in_bounds(idxs@, buf@.len()),
            sum == chunks_sum(buf@, idxs@.take(k as int)),
            sum <= 255 * CHUNK_SIZE * k,
        decreases idxs@.len() - k,
    {
        let idx = idxs[k];
        proof {
            assert((idxs@[k as int] + 1) * CHUNK_SIZE <= buf@.len());
            assert((idx + 1) * CHUNK_SIZE == idx * CHUNK_SIZE + CHUNK_SIZE) by (nonlinear_arith);
        }
        let start: usize = idx * CHUNK_SIZE;
        let end: usize = start + CHUNK_SIZE;
        let mut part: u128 = 0;
        let mut j: usize = start;
        while j < end
            invariant
                start <= j <= end <= buf@.len(),
                end == start + CHUNK_SIZE,
                part == byte_sum(buf@.subrange(start as int, j as int)),
                part <= 255 * (j - start),
            decreases end - j,
        {
            proof {
                assert(buf@.subrange(start as int, j + 1).drop_last() =~= buf@.subrange(
                    start as int,
                    j as int,
                ));
            }
            part = part + buf[j] as u128;
            j = j + 1;
        }
        proof {
            assert(idxs@.take(k + 1).drop_last() =~= idxs@.take(k as int));
            assert(idxs@.take(k + 1).last() == idx);
            assert(255 * CHUNK_SIZE * (k + 1) == 255 * CHUNK_SIZE * k + 255 * CHUNK_SIZE)
                by (nonlinear_arith);
            assert(255 * CHUNK_SIZE * k <= 255 * CHUNK_SIZE * usize::MAX) by (nonlinear_arith)
                requires
                    k <= usize::MAX,
            ;
        }
        sum = sum + part;
        k = k + 1;
    }
    proof {
        assert(idxs@.take(idxs@.len() as int) =~= idxs@);
    }
    sum
}

} // verus!
