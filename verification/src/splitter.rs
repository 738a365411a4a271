//! Splitting a recording into upload chunks.
//!
//! A payload over the upload limit is never cut at byte positions: it is
//! decoded, its samples are partitioned into consecutive groups, and every
//! group is encoded as a container of its own, in the format that the payload
//! declares.

use vstd::prelude::*;
use vstd::arithmetic::div_mod::lemma_fundamental_div_mod;
use vstd::arithmetic::div_mod::lemma_fundamental_div_mod_converse;
use crate::error::PttError;
use crate::wav::{decode, encode, encoding, wav_decoding, WavFormat};

verus! {

/// One upload: the payload, its 1-based position and the number of chunks of
/// the recording it belongs to.
#[derive(Clone, Debug, PartialEq, Eq)]
pub struct UploadChunk {
    pub index: usize,
    pub total: usize,
    pub payload: Vec<u8>,
}

/// An `UploadChunk` as a mathematical value.
pub struct ChunkView {
    pub index: nat,
    pub total: nat,
    pub payload: Seq<u8>,
}

impl View for UploadChunk {
    type V = ChunkView;

    open spec fn view(&self) -> ChunkView {
        ChunkView { index: self.index as nat, total: self.total as nat, payload: self.payload@ }
    }
}

/// The views of a sequence of chunks.
pub open spec fn chunk_views(chunks: Seq<UploadChunk>) -> Seq<ChunkView> {
    Seq::new(chunks.len(), |k: int| chunks[k]@)
}

/// The views of a sequence of sample groups.
pub open spec fn group_views(parts: Seq<Vec<i16>>) -> Seq<Seq<i16>> {
    Seq::new(parts.len(), |k: int| parts[k]@)
}

/// The number of groups of at most `max` that `total` samples make: `total`
/// divided by `max`, rounded up.
pub open spec fn group_count(total: int, max: int) -> int
    recommends
        total >= 0,
        max > 0,
{
    (total + max - 1) / max
}

/// The `k`-th group: the samples from `k * max` up to `(k + 1) * max`, or to
/// the end where fewer are left.
pub open spec fn group(samples: Seq<i16>, max: int, k: int) -> Seq<i16>
    recommends
        max > 0,
        0 <= k < group_count(samples.len() as int, max),
{
    let end = if (k + 1) * max <= samples.len() {
        (k + 1) * max
    } else {
        samples.len() as int
    };
    samples.subrange(k * max, end)
}

/// The consecutive groups of at most `max` samples that `samples` falls into.
pub open spec fn groups(samples: Seq<i16>, max: int) -> Seq<Seq<i16>>
    recommends
        max > 0,
{
    Seq::new(group_count(samples.len() as int, max) as nat, |k: int| group(samples, max, k))
}

/// The chunks that a sequence of groups gives: each group encoded in `format`,
/// numbered from 1, all with the number of groups as their total. `None`
/// where a group cannot be encoded.
pub open spec fn chunked(format: WavFormat, parts: Seq<Seq<i16>>) -> Option<Seq<ChunkView>> {
    if forall|k: int| 0 <= k < parts.len() ==> (#[trigger] encoding(format, parts[k])) is Some {
        Some(
            Seq::new(
                parts.len(),
                |k: int|
                    ChunkView {
                        index: (k + 1) as nat,
                        total: parts.len(),
                        payload: encoding(format, parts[k])->0,
                    },
            ),
        )
    } else {
        None
    }
}

/// What `split_samples` returns for decoded samples: the chunks of the groups
/// of `max_bytes / sample_bytes` samples.
pub open spec fn sample_chunks(format: WavFormat, samples: Seq<i16>, max_bytes: int) -> Option<
    Seq<ChunkView>,
>
    recommends
        1 <= format.sample_bytes() <= max_bytes,
{
    chunked(format, groups(samples, max_bytes / format.sample_bytes()))
}

/// What `split` returns for a payload: the payload itself as the only chunk
/// where it is within the limit; else the chunks of its decoded samples; `None`
/// where it cannot be decoded, where the limit is below the width of one
/// sample, or where a group cannot be encoded.
pub open spec fn split_outcome(payload: Seq<u8>, max_bytes: int) -> Option<Seq<ChunkView>> {
    if payload.len() <= max_bytes {
        Some(seq![ChunkView { index: 1, total: 1, payload }])
    } else {
        match wav_decoding(payload) {
            None => None,
            Some((format, samples)) => {
                if 1 <= format.sample_bytes() <= max_bytes {
                    sample_chunks(format, samples, max_bytes)
                } else {
                    None
                }
            },
        }
    }
}

/// With `total` strictly between `k * max` and `(k + 1) * max + 1`, the samples
/// make `k + 1` groups.
proof fn lemma_group_count_between(total: int, max: int, k: int)
    requires
        max > 0,
        k >= 0,
        k * max < total <= (k + 1) * max,
    ensures
        group_count(total, max) == k + 1,
{
    let x = total + max - 1;
    let r = x - (k + 1) * max;
    assert((k + 1) * max == k * max + max) by (nonlinear_arith);
    lemma_fundamental_div_mod_converse(x, max, k + 1, r);
}

/// Every group but those past the last starts inside the samples: for
/// `k < group_count`, `k * max < total`.
proof fn lemma_group_starts_inside(total: int, max: int, k: int)
    requires
        max > 0,
        total >= 0,
        0 <= k < group_count(total, max),
    ensures
        k * max < total,
        group_count(total, max) * max < total + max,
{
    let x = total + max - 1;
    let c = group_count(total, max);
    lemma_fundamental_div_mod(x, max);
    assert(0 <= x % max < max);
    assert(max * c <= x);
    assert(k * max <= (c - 1) * max) by (nonlinear_arith)
        requires
            k <= c - 1,
            max > 0,
    ;
    assert((c - 1) * max == max * c - max) by (nonlinear_arith);
    assert(c * max == max * c) by (nonlinear_arith);
}

/// The first `j` groups put end to end are the samples before the `j`-th
/// group.
proof fn lemma_groups_prefix(samples: Seq<i16>, max: int, j: int)
    requires
        max > 0,
        0 <= j <= group_count(samples.len() as int, max),
    ensures
        groups(samples, max).take(j).flatten() == samples.take(
            if j * max <= samples.len() {
                j * max
            } else {
                samples.len() as int
            },
        ),
    decreases j,
{
    let all = groups(samples, max);
    let total = samples.len() as int;
    if j == 0 {
        assert(all.take(0) =~= Seq::<Seq<i16>>::empty());
        assert(0 * max == 0) by (nonlinear_arith);
        assert(samples.take(0) =~= Seq::<i16>::empty());
    } else {
        lemma_groups_prefix(samples, max, j - 1);
        lemma_group_starts_inside(total, max, j - 1);
        assert((j - 1 + 1) * max == j * max);
        assert((j - 1) * max < total);
        let before = all.take(j - 1);
        assert(all.take(j) =~= before.push(all[j - 1]));
        before.lemma_flatten_push(all[j - 1]);
        let end = if j * max <= total {
            j * max
        } else {
            total
        };
        assert(all[j - 1] == samples.subrange((j - 1) * max, end));
        assert(j * max == (j - 1) * max + max) by (nonlinear_arith);
        assert(samples.take((j - 1) * max) + samples.subrange((j - 1) * max, end)
            =~= samples.take(end));
    }
}

/// Partitioning neither drops nor reorders nor repeats a sample: the groups
/// put end to end are the samples. There are `total / max` groups, rounded
/// up; none is empty, none is longer than `max`, and all but the last hold
/// exactly `max`.
pub proof fn lemma_groups_partition(samples: Seq<i16>, max: int)
    requires
        max > 0,
    ensures
        groups(samples, max).flatten() == samples,
        groups(samples, max).len() == group_count(samples.len() as int, max),
        forall|k: int|
            0 <= k < groups(samples, max).len() ==> 0 < (#[trigger] groups(samples, max)[k]).len()
                <= max,
        forall|k: int|
            0 <= k < groups(samples, max).len() - 1 ==> (#[trigger] groups(samples, max)[k]).len()
                == max,
{
    let total = samples.len() as int;
    let count = group_count(total, max);
    let all = groups(samples, max);
    assert(count >= 0) by {
        lemma_fundamental_div_mod(total + max - 1, max);
        assert(max * count > -1) by (nonlinear_arith)
            requires
                max * count + (total + max - 1) % max == total + max - 1,
                (total + max - 1) % max < max,
                total >= 0,
        ;
        assert(count >= 0) by (nonlinear_arith)
            requires
                max * count > -1,
                max > 0,
        ;
    }
    lemma_groups_prefix(samples, max, count);
    assert(all.take(count) =~= all);
    if count > 0 {
        lemma_group_starts_inside(total, max, count - 1);
        assert(count * max >= total) by {
            lemma_fundamental_div_mod(total + max - 1, max);
            assert(count * max == max * count) by (nonlinear_arith);
        }
    } else {
        assert(total == 0) by {
            lemma_fundamental_div_mod(total + max - 1, max);
            assert(max * 0 == 0);
        }
        assert(0 * max == 0) by (nonlinear_arith);
    }
    assert(samples.take(total) =~= samples);
    assert forall|k: int| 0 <= k < all.len() implies 0 < (#[trigger] all[k]).len() <= max by {
        lemma_group_starts_inside(total, max, k);
        assert((k + 1) * max == k * max + max) by (nonlinear_arith);
    }
    assert forall|k: int| 0 <= k < all.len() - 1 implies (#[trigger] all[k]).len() == max by {
        lemma_group_starts_inside(total, max, k + 1);
        lemma_group_starts_inside(total, max, k);
        assert((k + 1) * max == k * max + max) by (nonlinear_arith);
    }
}

/// Every chunk of a split carries its 1-based position as its index, between
/// 1 and the total, and all carry the same total, the number of chunks; the
/// `k`-th chunk holds the encoding of the `k`-th group, and the groups put end
/// to end are the samples that were split.
pub proof fn lemma_split_covers(format: WavFormat, samples: Seq<i16>, max_bytes: int)
    requires
        1 <= format.sample_bytes() <= max_bytes,
        sample_chunks(format, samples, max_bytes) is Some,
    ensures
        ({
            let max = max_bytes / format.sample_bytes();
            let chunks = sample_chunks(format, samples, max_bytes)->0;
            &&& max >= 1
            &&& chunks.len() == group_count(samples.len() as int, max)
            &&& groups(samples, max).flatten() == samples
            &&& forall|k: int|
                0 <= k < chunks.len() ==> {
                    &&& (#[trigger] chunks[k]).index == k + 1
                    &&& 1 <= chunks[k].index <= chunks[k].total
                    &&& chunks[k].total == chunks.len()
                    &&& Some(chunks[k].payload) == encoding(format, groups(samples, max)[k])
                }
        }),
{
    let width = format.sample_bytes();
    let max = max_bytes / width;
    lemma_fundamental_div_mod(max_bytes, width);
    assert(max >= 1) by (nonlinear_arith)
        requires
            max_bytes == width * max + max_bytes % width,
            0 <= max_bytes % width < width,
            width <= max_bytes,
            width >= 1,
    ;
    lemma_groups_partition(samples, max);
}

/// A payload within the limit is split into exactly one chunk, with index 1
/// and total 1, that holds the payload byte for byte.
pub proof fn lemma_small_payload_is_one_chunk(payload: Seq<u8>, max_bytes: int)
    requires
        payload.len() <= max_bytes,
    ensures
        split_outcome(payload, max_bytes) == Some(
            seq![ChunkView { index: 1, total: 1, payload }],
        ),
{
}

/// Partitions `samples` into consecutive groups of at most `max_samples`.
pub fn partition(samples: &Vec<i16>, max_samples: usize) -> (parts: Vec<Vec<i16>>)
    requires
        max_samples > 0,
    ensures
        group_views(parts@) == groups(samples@, max_samples as int),
{
    let n = samples.len();
    let ghost max = max_samples as int;
    let mut parts: Vec<Vec<i16>> = Vec::new();
    let mut start: usize = 0;
    proof {
        assert(0 * max == 0) by (nonlinear_arith);
        assert(group_count(0, max) == 0) by {
            lemma_fundamental_div_mod_converse(max - 1, max, 0, max - 1);
        }
        lemma_groups_partition(samples@, max);
    }
    while start < n
        invariant
            max_samples > 0,
            max == max_samples as int,
            n == samples@.len(),
            start <= n,
            start < n ==> start == parts@.len() * max,
            start == n ==> parts@.len() == group_count(n as int, max),
            parts@.len() <= group_count(n as int, max),
            forall|j: int| 0 <= j < parts@.len() ==> (#[trigger] parts@[j])@ == group(samples@, max, j),
        decreases n - start,
    {
        let ghost k = parts@.len() as int;
        let end: usize = if n - start <= max_samples {
            n
        } else {
            start + max_samples
        };
        let mut part: Vec<i16> = Vec::new();
        let mut i: usize = start;
        while i < end
            invariant
                start <= i <= end <= n,
                n == samples@.len(),
                part@ == samples@.subrange(start as int, i as int),
            decreases end - i,
        {
            part.push(samples[i]);
            i += 1;
        }
        proof {
            assert((k + 1) * max == k * max + max) by (nonlinear_arith);
            if end == n {
                lemma_group_count_between(n as int, max, k);
            } else {
                lemma_fundamental_div_mod(n + max - 1, max);
                let c = group_count(n as int, max);
                assert(c >= k + 2) by (nonlinear_arith)
                    requires
                        max * c + (n + max - 1) % max == n + max - 1,
                        (n + max - 1) % max < max,
                        n > (k + 1) * max,
                        max > 0,
                ;
            }
            assert(part@ == group(samples@, max, k));
        }
        parts.push(part);
        start = end;
    }
    proof {
        assert(group_views(parts@) =~= groups(samples@, max));
    }
    parts
}

/// The chunk at 0-based `position` of `total`, holding `payload`.
pub fn chunk_at(position: usize, total: usize, payload: Vec<u8>) -> (chunk: UploadChunk)
    requires
        position < total,
    ensures
        chunk@ == (ChunkView {
            index: (position + 1) as nat,
            total: total as nat,
            payload: payload@,
        }),
{
    UploadChunk { index: position + 1, total, payload }
}

/// Splits decoded samples into chunks of at most `max_bytes` of sample data
/// each, every chunk a container of its own in `format`.
///
/// The limit must hold at least one sample. Fails with `EncodeError` where a
/// group cannot be encoded.
pub fn split_samples(format: &WavFormat, samples: &Vec<i16>, max_bytes: usize) -> (split: Result<
    Vec<UploadChunk>,
    PttError,
>)
    requires
        1 <= format.sample_bytes() <= max_bytes,
    ensures
        match sample_chunks(*format, samples@, max_bytes as int) {
            Some(views) => split matches Ok(chunks) && chunk_views(chunks@) == views,
            None => split == Err::<Vec<UploadChunk>, PttError>(PttError::EncodeError),
        },
{
    let width: usize = (format.bits_per_sample / 8) as usize;
    let max_samples: usize = max_bytes / width;
    proof {
        lemma_fundamental_div_mod(max_bytes as int, width as int);
        assert(max_samples >= 1) by (nonlinear_arith)
            requires
                max_bytes == width * max_samples + max_bytes as int % width as int,
                0 <= max_bytes as int % width as int,
                max_bytes as int % width as int <= width - 1,
                width <= max_bytes,
                width >= 1,
        ;
    }
    let parts = partition(samples, max_samples);
    let ghost all = groups(samples@, max_samples as int);
    assert(max_samples as int == max_bytes as int / format.sample_bytes());
    let total = parts.len();
    let mut chunks: Vec<UploadChunk> = Vec::new();
    let mut k: usize = 0;
    while k < total
        invariant
            k <= total,
            total == parts@.len(),
            group_views(parts@) == all,
            sample_chunks(*format, samples@, max_bytes as int) == chunked(*format, all),
            chunks@.len() == k,
            forall|j: int| 0 <= j < k ==> (#[trigger] encoding(*format, all[j])) is Some,
            forall|j: int|
                0 <= j < k ==> (#[trigger] chunks@[j])@ == (ChunkView {
                    index: (j + 1) as nat,
                    total: total as nat,
                    payload: encoding(*format, all[j])->0,
                }),
        decreases total - k,
    {
        assert(parts@[k as int]@ == group_views(parts@)[k as int]);
        match encode(format, &parts[k]) {
            Ok(payload) => {
                chunks.push(chunk_at(k, total, payload));
            },
            Err(_) => {
                assert(encoding(*format, all[k as int]) is None);
                return Err(PttError::EncodeError);
            },
        }
        k += 1;
    }
    proof {
        assert(chunk_views(chunks@) =~= chunked(*format, all)->0);
    }
    Ok(chunks)
}

/// Splits a payload into upload chunks of at most `max_bytes`.
///
/// A payload within the limit is returned whole, as chunk 1 of 1. A larger
/// one is decoded and split at sample boundaries. Fails with `EncodeError`
/// where the payload cannot be decoded, where the limit is below the width of
/// one sample, and where a group cannot be encoded.
pub fn split(payload: Vec<u8>, max_bytes: usize) -> (split: Result<Vec<UploadChunk>, PttError>)
    ensures
        match split_outcome(payload@, max_bytes as int) {
            Some(views) => split matches Ok(chunks) && chunk_views(chunks@) == views,
            None => split == Err::<Vec<UploadChunk>, PttError>(PttError::EncodeError),
        },
{
    if payload.len() <= max_bytes {
        let mut chunks: Vec<UploadChunk> = Vec::new();
        let ghost bytes = payload@;
        chunks.push(chunk_at(0, 1, payload));
        assert(chunk_views(chunks@) =~= seq![ChunkView { index: 1, total: 1, payload: bytes }]);
        return Ok(chunks);
    }
    match decode(&payload) {
        Err(_) => Err(PttError::EncodeError),
        Ok((format, samples)) => {
            let width: usize = (format.bits_per_sample / 8) as usize;
            if width == 0 || max_bytes < width {
                return Err(PttError::EncodeError);
            }
            split_samples(&format, &samples, max_bytes)
        },
    }
}

} // verus!
