//! Run configuration and the chunk plan.
//!
//! Configuration errors are detected before any work starts. A run is then
//! a fixed list of jobs, one per chunk; the jobs partition the input
//! exactly, so every output byte belongs to exactly one job, and each job
//! carries the absolute block index its chunk starts at.

use vstd::prelude::*;

use vstd::arithmetic::div_mod::lemma_fundamental_div_mod_converse;
use vstd::arithmetic::mul::lemma_mul_inequality;
use vstd::arithmetic::mul::lemma_mul_is_distributive_add_other_way;

verus! {

/// A configuration fault, detected before any I/O begins.
#[derive(Clone, Copy, Debug, PartialEq, Eq, Structural)]
pub enum ConfigError {
    /// The key size is not one of 128, 192 or 256.
    UnsupportedKeySize,
    /// The key does not hold key-size / 8 bytes.
    KeyLengthMismatch,
    /// The base counter does not hold exactly 16 bytes.
    IvLengthMismatch,
}

/// Checks a run's configuration. Key size 128, 192 or 256 selects
/// `(nk, nr)` = (4, 10), (6, 12) or (8, 14); the key must hold
/// key-size / 8 bytes and the base counter exactly 16.
pub fn check_config(key_size: u16, key_len: usize, iv_len: usize) -> (r: Result<
    (usize, usize),
    ConfigError,
>)
    ensures
        key_size != 128 && key_size != 192 && key_size != 256 ==> r == Err::<
            (usize, usize),
            ConfigError,
        >(ConfigError::UnsupportedKeySize),
        (key_size == 128 || key_size == 192 || key_size == 256) && key_len != key_size as int / 8
            ==> r == Err::<(usize, usize), ConfigError>(ConfigError::KeyLengthMismatch),
        (key_size == 128 || key_size == 192 || key_size == 256) && key_len == key_size as int / 8
            && iv_len != 16 ==> r == Err::<(usize, usize), ConfigError>(
            ConfigError::IvLengthMismatch,
        ),
        key_size == 128 && key_len == 16 && iv_len == 16 ==> r == Ok::<_, ConfigError>((
            4usize,
            10usize,
        )),
        key_size == 192 && key_len == 24 && iv_len == 16 ==> r == Ok::<_, ConfigError>((
            6usize,
            12usize,
        )),
        key_size == 256 && key_len == 32 && iv_len == 16 ==> r == Ok::<_, ConfigError>((
            8usize,
            14usize,
        )),
{
    let nk: usize;
    let nr: usize;
    if key_size == 128 {
        nk = 4;
        nr = 10;
    } else if key_size == 192 {
        nk = 6;
        nr = 12;
    } else if key_size == 256 {
        nk = 8;
        nr = 14;
    } else {
        return Err(ConfigError::UnsupportedKeySize);
    }
    if key_len != (key_size / 8) as usize {
        return Err(ConfigError::KeyLengthMismatch);
    }
    if iv_len != 16 {
        return Err(ConfigError::IvLengthMismatch);
    }
    Ok((nk, nr))
}

/// One chunk's worth of work: the byte range
/// `[start, start + len)` of the file and the absolute index of the block
/// the range starts at. Jobs are plain data and fully independent.
#[derive(Clone, Copy, Debug, PartialEq, Eq, Structural)]
pub struct Job {
    /// Position of the chunk in the plan.
    pub chunk_id: usize,
    /// First byte of the chunk in the file.
    pub start: u64,
    /// Number of bytes in the chunk.
    pub len: usize,
    /// Absolute index of the first block of the chunk: `start / 16`.
    pub starting_block: u64,
}

/// What the queue carries to a worker: a chunk job, or the signal to shut
/// down. One termination message is queued per worker.
#[derive(Clone, Copy, Debug)]
pub enum Message {
    /// Process this chunk.
    NewJob(Job),
    /// Stop the worker loop.
    Terminate,
}

/// How many chunks a file of `file_len` bytes makes at `chunk_size` bytes
/// per chunk: the ceiling of their quotient.
pub open spec fn spec_num_chunks(file_len: int, chunk_size: int) -> int {
    (file_len + chunk_size - 1) / chunk_size
}

/// Lays out one job per chunk. Chunks partition `[0, file_len)` exactly:
/// job `k` starts at byte `k * chunk_size`, every job but the last is
/// `chunk_size` bytes, and the last ends at `file_len`. A zero-length
/// file yields no jobs.
pub fn plan_jobs(file_len: u64, chunk_size: usize) -> (jobs: Vec<Job>)
    requires
        chunk_size >= 16,
        chunk_size % 16 == 0,
    ensures
        jobs@.len() == spec_num_chunks(file_len as int, chunk_size as int),
        forall|k: int| 0 <= k < jobs@.len() ==> {
            let job = #[trigger] jobs@[k];
            job.chunk_id == k && job.start == k * chunk_size && job.starting_block == job.start
                as int / 16 && job.len == (if (k + 1) * chunk_size <= file_len {
                chunk_size as int
            } else {
                file_len - k * chunk_size
            })
        },
        jobs@.len() > 0 ==> jobs@[0].start == 0 && jobs@.last().start + jobs@.last().len
            == file_len,
        forall|k: int| 0 <= k < jobs@.len() - 1 ==> (#[trigger] jobs@[k]).start + jobs@[k].len
            == jobs@[k + 1].start && jobs@[k].len == chunk_size,
{
    let cs = chunk_size as u64;
    let mut jobs: Vec<Job> = Vec::new();
    let mut start: u64 = 0;
    while start < file_len
        invariant
            16 <= cs,
            cs == chunk_size,
            chunk_size % 16 == 0,
            start <= file_len,
            jobs@.len() == 0 ==> start == 0,
            jobs@.len() > 0 ==> (jobs@.len() - 1) * cs < file_len,
            start == jobs@.len() * cs || (start == file_len && file_len < jobs@.len() * cs),
            forall|k: int| 0 <= k < jobs@.len() ==> {
                let job = #[trigger] jobs@[k];
                job.chunk_id == k && job.start == k * cs && job.starting_block == job.start as int
                    / 16 && job.len == (if (k + 1) * cs <= file_len {
                    cs as int
                } else {
                    file_len - k * cs
                })
            },
        decreases file_len - start,
    {
        let remaining = file_len - start;
        let len: usize = if remaining >= cs {
            chunk_size
        } else {
            remaining as usize
        };
        let chunk_id = jobs.len();
        jobs.push(
            Job {
                chunk_id,
                start,
                len,
                starting_block: start / 16,
            },
        );
        proof {
            let k = chunk_id as int;
            assert((k + 1) * cs == k * cs + cs) by {
                lemma_mul_is_distributive_add_other_way(cs as int, k, 1);
            }
        }
        start = start + if remaining >= cs {
            cs
        } else {
            remaining
        };
    }
    proof {
        let l = file_len as int;
        let c = chunk_size as int;
        let n = jobs@.len() as int;
        if l == 0 {
            assert(n == 0);
            lemma_fundamental_div_mod_converse(l + c - 1, c, 0, c - 1);
        } else {
            assert(n > 0);
            assert(n * c == (n - 1) * c + c) by {
                lemma_mul_is_distributive_add_other_way(c, n - 1, 1);
            }
            assert((n - 1) * c < l <= n * c);
            lemma_fundamental_div_mod_converse(l + c - 1, c, n, l + c - 1 - n * c);
            assert(jobs@.last().start + jobs@.last().len == l);
        }
        assert forall|k: int| 0 <= k < n - 1 implies (jobs@[k]).start + jobs@[k].len == jobs@[k
            + 1].start && jobs@[k].len == c by {
            lemma_mul_inequality(k + 1, n - 1, c);
            lemma_mul_is_distributive_add_other_way(c, k, 1);
        }
    }
    jobs
}

} // verus!
