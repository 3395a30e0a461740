//! The division of an archive into chunks, and what has been uploaded of it.

use std::collections::HashSet;
use vstd::prelude::*;

verus! {

broadcast use vstd::std_specs::hash::group_hash_axioms;

/// The size of every chunk but the last: 256 KiB.
pub const CHUNK_SIZE: u64 = 262144;

/// The number of chunks of an archive of `bytes` bytes.
pub open spec fn chunk_count_of(bytes: nat) -> nat {
    ((bytes + CHUNK_SIZE - 1) / CHUNK_SIZE as int) as nat
}

/// Where chunk `index` starts.
pub open spec fn chunk_offset(index: nat) -> nat {
    index * CHUNK_SIZE as nat
}

/// The length of chunk `index` of an archive of `bytes` bytes.
pub open spec fn chunk_length_of(bytes: nat, index: nat) -> int {
    if index == chunk_count_of(bytes) - 1 {
        bytes - chunk_offset(index)
    } else {
        CHUNK_SIZE as int
    }
}

/// What chunk `index` counts for: the full chunk size, the remainder for the last chunk, and
/// nothing for a chunk that the archive does not have.
pub open spec fn chunk_credit(index: nat, total: nat, size: nat, count: nat) -> nat {
    if index >= count {
        0
    } else if index == count - 1 {
        if index * size >= total {
            0
        } else {
            (total - index * size) as nat
        }
    } else {
        size
    }
}

/// What the chunks of `done` below `n` count for together.
pub open spec fn credit_below(done: Set<u64>, n: nat, total: nat, size: nat, count: nat) -> nat
    decreases n,
{
    if n == 0 {
        0
    } else {
        credit_below(done, (n - 1) as nat, total, size, count) + if n - 1 <= u64::MAX
            && done.contains((n - 1) as u64) {
            chunk_credit((n - 1) as nat, total, size, count)
        } else {
            0
        }
    }
}

/// The bytes that the chunks in `done` stand for.
pub open spec fn completed_bytes(done: Set<u64>, total: nat, size: nat, count: nat) -> nat {
    credit_below(done, count, total, size, count)
}

proof fn lemma_credit_insert(
    done: Set<u64>,
    e: u64,
    n: nat,
    total: nat,
    size: nat,
    count: nat,
)
    requires
        !done.contains(e),
    ensures
        credit_below(done.insert(e), n, total, size, count) == credit_below(
            done,
            n,
            total,
            size,
            count,
        ) + if e < n {
            chunk_credit(e as nat, total, size, count)
        } else {
            0
        },
    decreases n,
{
    if n > 0 {
        lemma_credit_insert(done, e, (n - 1) as nat, total, size, count);
    }
}

proof fn lemma_credit_empty(n: nat, total: nat, size: nat, count: nat)
    ensures
        credit_below(Set::<u64>::empty(), n, total, size, count) == 0,
    decreases n,
{
    if n > 0 {
        lemma_credit_empty((n - 1) as nat, total, size, count);
    }
}

/// The number of chunks of an archive.
pub fn chunk_count(bytes: u64) -> (count: u64)
    ensures
        count == chunk_count_of(bytes as nat),
{
    let whole: u64 = bytes / CHUNK_SIZE;
    if bytes % CHUNK_SIZE == 0 {
        whole
    } else {
        whole + 1
    }
}

/// The length of chunk `index`.
pub fn chunk_length(bytes: u64, index: u64) -> (length: u64)
    requires
        index < chunk_count_of(bytes as nat),
    ensures
        length == chunk_length_of(bytes as nat, index as nat),
        0 < length <= CHUNK_SIZE,
        chunk_offset(index as nat) + length <= bytes,
{
    if index == chunk_count(bytes) - 1 {
        bytes - index * CHUNK_SIZE
    } else {
        CHUNK_SIZE
    }
}

/// How many bytes the completed chunks stand for. Chunks may have completed in any order; one
/// that the archive does not have counts for nothing.
pub fn completed_upload_bytes(
    completed_chunks: &HashSet<u64>,
    total_bytes: u64,
    chunk_size: u64,
    chunk_count: u64,
) -> (bytes: u64)
    ensures
        bytes == ({
            let sum = completed_bytes(
                completed_chunks@,
                total_bytes as nat,
                chunk_size as nat,
                chunk_count as nat,
            );
            if sum <= u64::MAX {
                sum
            } else {
                u64::MAX as nat
            }
        }),
{
    let mut bytes: u64 = 0;
    let ghost keys = vstd::std_specs::iter::IteratorSpec::remaining(&completed_chunks.iter()).unref();
    let ghost total = total_bytes as nat;
    let ghost size = chunk_size as nat;
    let ghost count = chunk_count as nat;
    proof {
        lemma_credit_empty(count, total, size, count);
        assert(keys.take(0).to_set() == Set::<u64>::empty());
    }
    for index in it: completed_chunks.iter()
        invariant
            it.seq().unref() == keys,
            it.seq().no_duplicates(),
            keys.to_set() == completed_chunks@,
            total == total_bytes,
            size == chunk_size,
            count == chunk_count,
            bytes == ({
                let sum = completed_bytes(keys.take(it.index() as int).to_set(), total, size, count);
                if sum <= u64::MAX {
                    sum
                } else {
                    u64::MAX as nat
                }
            }),
    {
        let ghost k = it.index() as int;
        proof {
            let before = keys.take(k).to_set();
            assert(*index == keys[k]);
            assert(keys.take(k + 1) == keys.take(k).push(*index));
            assert(keys.take(k + 1).to_set() == before.insert(*index)) by {
                broadcast use vstd::seq_lib::group_seq_properties;

            }
            assert(!before.contains(*index)) by {
                if keys.take(k).contains(*index) {
                    let j = choose|j: int| 0 <= j < k && keys.take(k)[j] == *index;
                    assert(it.seq()[j] == it.seq()[k]);
                }
            }
            lemma_credit_insert(before, *index, count, total, size, count);
        }
        if *index < chunk_count {
            let credit = if *index == chunk_count - 1 {
                match index.checked_mul(chunk_size) {
                    Some(offset) => total_bytes.saturating_sub(offset),
                    None => 0,
                }
            } else {
                chunk_size
            };
            bytes = bytes.saturating_add(credit);
        }
    }
    assert(keys.take(keys.len() as int) == keys);
    bytes
}

proof fn lemma_last_chunk(bytes: nat)
    requires
        bytes > 0,
    ensures
        ({
            let last = (chunk_count_of(bytes) - 1) as nat;
            &&& chunk_count_of(bytes) > 0
            &&& chunk_offset(last) < bytes <= chunk_offset(last) + CHUNK_SIZE
        }),
{
}

/// The chunks of an archive, in order and end to end, are the archive: each starts where the
/// previous one ends, none is empty or longer than a chunk, and the last one ends at the end.
pub proof fn law_chunks_tile_the_archive(bytes: nat, index: nat)
    requires
        index < chunk_count_of(bytes),
    ensures
        chunk_offset(0) == 0,
        0 < chunk_length_of(bytes, index) <= CHUNK_SIZE,
        index + 1 < chunk_count_of(bytes) ==> chunk_offset(index) + chunk_length_of(bytes, index)
            == chunk_offset(index + 1),
        index + 1 == chunk_count_of(bytes) ==> chunk_offset(index) + chunk_length_of(bytes, index)
            == bytes,
{
}

/// A completed chunk counts for exactly the bytes that it holds.
pub proof fn law_credit_is_chunk_length(bytes: nat, index: nat)
    requires
        index < chunk_count_of(bytes),
    ensures
        chunk_credit(index, bytes, CHUNK_SIZE as nat, chunk_count_of(bytes)) == chunk_length_of(
            bytes,
            index,
        ),
{
    lemma_last_chunk(bytes);
}

proof fn lemma_credit_full(done: Set<u64>, bytes: nat, n: nat)
    requires
        bytes <= u64::MAX,
        n <= chunk_count_of(bytes),
        forall|i: u64| i < n ==> done.contains(i),
    ensures
        credit_below(done, n, bytes, CHUNK_SIZE as nat, chunk_count_of(bytes)) == (if n
            == chunk_count_of(bytes) {
            bytes
        } else {
            chunk_offset(n)
        }),
    decreases n,
{
    if n > 0 {
        lemma_credit_full(done, bytes, (n - 1) as nat);
        lemma_last_chunk(bytes);
        assert(done.contains((n - 1) as u64));
        law_credit_is_chunk_length(bytes, (n - 1) as nat);
    }
}

/// Once every chunk has completed, the completed bytes are the whole archive.
pub proof fn law_all_chunks_are_all_bytes(done: Set<u64>, bytes: nat)
    requires
        bytes <= u64::MAX,
        forall|i: u64| i < chunk_count_of(bytes) ==> done.contains(i),
    ensures
        completed_bytes(done, bytes, CHUNK_SIZE as nat, chunk_count_of(bytes)) == bytes,
{
    lemma_credit_full(done, bytes, chunk_count_of(bytes));
}

/// Completing one more chunk adds the bytes of that chunk, and completing it again adds nothing.
pub proof fn law_completing_adds_the_chunk(done: Set<u64>, bytes: nat, index: u64)
    requires
        index < chunk_count_of(bytes),
    ensures
        completed_bytes(done.insert(index), bytes, CHUNK_SIZE as nat, chunk_count_of(bytes))
            == completed_bytes(done, bytes, CHUNK_SIZE as nat, chunk_count_of(bytes)) + if done.contains(
            index,
        ) {
            0
        } else {
            chunk_length_of(bytes, index as nat)
        },
{
    let count = chunk_count_of(bytes);
    law_credit_is_chunk_length(bytes, index as nat);
    if done.contains(index) {
        assert(done.insert(index) == done);
    } else {
        lemma_credit_insert(done, index, count, bytes, CHUNK_SIZE as nat, count);
    }
}

/// An archive has as few chunks of 256 KiB as hold it, and every chunk but the last is full.
pub proof fn law_chunks_are_as_few_as_hold_the_archive(bytes: nat, index: nat)
    ensures
        CHUNK_SIZE == 256 * 1024,
        bytes <= chunk_count_of(bytes) * 262144,
        bytes > 0 ==> (chunk_count_of(bytes) - 1) * 262144 < bytes,
        bytes == 0 ==> chunk_count_of(bytes) == 0,
        chunk_offset(index) == index * 262144,
        index + 1 < chunk_count_of(bytes) ==> chunk_length_of(bytes, index) == 262144,
{
}

/// Without a completed chunk no byte counts, and a chunk that the archive does not have counts for
/// nothing.
pub proof fn law_only_chunks_of_the_archive_count(done: Set<u64>, bytes: nat, index: u64)
    requires
        index >= chunk_count_of(bytes),
    ensures
        completed_bytes(Set::empty(), bytes, CHUNK_SIZE as nat, chunk_count_of(bytes)) == 0,
        completed_bytes(done.insert(index), bytes, CHUNK_SIZE as nat, chunk_count_of(bytes))
            == completed_bytes(done, bytes, CHUNK_SIZE as nat, chunk_count_of(bytes)),
{
    let count = chunk_count_of(bytes);
    lemma_credit_empty(count, bytes, CHUNK_SIZE as nat, count);
    if done.contains(index) {
        assert(done.insert(index) == done);
    } else {
        lemma_credit_insert(done, index, count, bytes, CHUNK_SIZE as nat, count);
    }
}

/// Each completed chunk counts once, for the full size or, the last one, for what is left of the
/// total; this determines what any finite set of chunks counts for.
pub proof fn law_each_completed_chunk_counts_once(
    done: Set<u64>,
    index: u64,
    total: nat,
    size: nat,
    count: nat,
)
    ensures
        completed_bytes(Set::empty(), total, size, count) == 0,
        completed_bytes(done.insert(index), total, size, count) == completed_bytes(
            done,
            total,
            size,
            count,
        ) + (if done.contains(index) || index >= count {
            0int
        } else if index < count - 1 {
            size as int
        } else if index * size < total {
            total - index * size
        } else {
            0int
        }),
{
    lemma_credit_empty(count, total, size, count);
    if done.contains(index) {
        assert(done.insert(index) == done);
    } else {
        lemma_credit_insert(done, index, count, total, size, count);
    }
}

}
