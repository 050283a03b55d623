//! The chunked CTR cipher engine.
//!
//! Every byte of the output is its input byte XORed with one byte of
//! keystream, and the keystream for block `i` is the AES encryption of the
//! base counter incremented by `i`. Because the keystream depends only on
//! the base counter and the absolute block index, any split of the input
//! into block-aligned chunks, processed in any order, yields the same
//! output.

use vstd::prelude::*;

use vstd::arithmetic::div_mod::lemma_fundamental_div_mod_converse;

use crate::block::aes_v2;
use crate::block::spec_aes_block;
use crate::counter::ctr128_inc;
use crate::counter::spec_ctr_inc;
use crate::schedule::key_expansion_v2;
use crate::schedule::spec_key_schedule;

verus! {

/// The keystream block for absolute block index `blk`: the AES encryption
/// of the base counter stepped forward `blk` blocks.
pub open spec fn spec_keystream_block(iv: Seq<u8>, keys: Seq<u8>, nr: int, blk: nat) -> Seq<u8> {
    spec_aes_block(spec_ctr_inc(iv, blk), keys, nr)
}

/// Byte `off` of the keystream block for absolute block index `blk`.
pub open spec fn spec_keystream_byte(
    iv: Seq<u8>,
    keys: Seq<u8>,
    nr: int,
    blk: nat,
    off: int,
) -> u8 {
    spec_keystream_block(iv, keys, nr, blk)[off]
}

/// The CTR transform of a byte sequence whose first byte sits at the start
/// of absolute block `sb`: byte `j` is XORed with byte `j % 16` of the
/// keystream block `sb + j / 16`.
pub open spec fn spec_ctr_xor(
    data: Seq<u8>,
    keys: Seq<u8>,
    nr: int,
    iv: Seq<u8>,
    sb: nat,
) -> Seq<u8> {
    Seq::new(data.len(), |j: int| data[j] ^ spec_keystream_byte(iv, keys, nr, (sb + j / 16) as nat, j % 16))
}

/// The bytewise XOR of two sequences, as long as the shorter one.
pub open spec fn spec_xor_bytes(a: Seq<u8>, b: Seq<u8>) -> Seq<u8> {
    Seq::new(if a.len() <= b.len() { a.len() } else { b.len() }, |i: int| a[i] ^ b[i])
}

/// XORs two byte vectors elementwise; the result is as long as the
/// shorter input.
pub fn xor_for_vec(v1: &Vec<u8>, v2: &Vec<u8>) -> (v3: Vec<u8>)
    ensures
        v3@ == spec_xor_bytes(v1@, v2@),
{
    let n = if v1.len() <= v2.len() {
        v1.len()
    } else {
        v2.len()
    };
    let mut v3: Vec<u8> = Vec::new();
    let mut i: usize = 0;
    while i < n
        invariant
            n <= v1.len(),
            n <= v2.len(),
            i <= n,
            v3@.len() == i,
            forall|k: int| 0 <= k < i ==> v3@[k] == (v1@[k] ^ v2@[k]),
        decreases n - i,
    {
        v3.push(v1[i] ^ v2[i]);
        i += 1;
    }
    proof {
        assert(v3@ =~= spec_xor_bytes(v1@, v2@));
    }
    v3
}

/// Applies the CTR keystream to a chunk in place. The chunk starts at
/// absolute block `starting_block`; a final sub-block shorter than 16
/// bytes consumes only the leading bytes of its keystream block.
pub fn process_chunk(
    chunks: &mut Vec<u8>,
    keys: &Vec<u8>,
    counter: &Vec<u8>,
    nr: usize,
    starting_block: u64,
)
    requires
        counter.len() == 16,
        keys.len() == 16 * (nr + 1),
        1 <= nr,
        starting_block + (old(chunks).len() + 15) / 16 <= u64::MAX,
    ensures
        final(chunks)@ == spec_ctr_xor(
            old(chunks)@,
            keys@,
            nr as int,
            counter@,
            starting_block as nat,
        ),
{
    let total = chunks.len();
    let mut pos: usize = 0;
    while pos < total
        invariant
            counter.len() == 16,
            keys.len() == 16 * (nr + 1),
            1 <= nr,
            starting_block + (total + 15) / 16 <= u64::MAX,
            chunks@.len() == total,
            old(chunks)@.len() == total,
            pos % 16 == 0 || pos == total,
            pos <= total,
            forall|k: int| 0 <= k < pos && k < total ==> chunks@[k] == (old(chunks)@[k]
                ^ spec_keystream_byte(
                counter@,
                keys@,
                nr as int,
                (starting_block + k / 16) as nat,
                k % 16,
            )),
            forall|k: int| pos <= k < total ==> chunks@[k] == old(chunks)@[k],
        decreases total - pos,
    {
        proof {
            assert(pos / 16 < (total + 15) / 16) by {
                lemma_fundamental_div_mod_converse(pos as int, 16, pos as int / 16, 0);
            }
        }
        let block_index: u64 = starting_block + (pos / 16) as u64;
        let mut cipher_block = ctr128_inc(counter, block_index);
        aes_v2(&mut cipher_block, keys, nr);
        let mut j: usize = 0;
        while j < 16 && pos + j < total
            invariant
                counter.len() == 16,
                keys.len() == 16 * (nr + 1),
                1 <= nr,
                chunks@.len() == total,
                old(chunks)@.len() == total,
                pos % 16 == 0,
                pos < total,
                j <= 16,
                block_index == starting_block + pos / 16,
                cipher_block@ == spec_keystream_block(
                    counter@,
                    keys@,
                    nr as int,
                    block_index as nat,
                ),
                cipher_block@.len() == 16,
                forall|k: int| 0 <= k < pos + j && k < total ==> chunks@[k] == (old(chunks)@[k]
                    ^ spec_keystream_byte(
                    counter@,
                    keys@,
                    nr as int,
                    (starting_block + k / 16) as nat,
                    k % 16,
                )),
                forall|k: int| pos + j <= k < total ==> chunks@[k] == old(chunks)@[k],
            decreases 16 - j,
        {
            proof {
                lemma_fundamental_div_mod_converse(
                    (pos + j) as int,
                    16,
                    pos as int / 16,
                    j as int,
                );
            }
            chunks[pos + j] = chunks[pos + j] ^ cipher_block[j];
            j += 1;
        }
        if total - pos > 16 {
            pos += 16;
        } else {
            pos = total;
        }
    }
    proof {
        assert(chunks@ =~= spec_ctr_xor(
            old(chunks)@,
            keys@,
            nr as int,
            counter@,
            starting_block as nat,
        ));
    }
}

/// Expands the key and applies the CTR transform to a whole in-memory
/// buffer starting at absolute block 0. Running it twice with the same
/// key and base counter returns the original data.
pub fn ctr_transform(data: &mut Vec<u8>, key: &Vec<u8>, iv: &Vec<u8>, nk: usize, nr: usize)
    requires
        key.len() == 4 * nk,
        (nk == 4 && nr == 10) || (nk == 6 && nr == 12) || (nk == 8 && nr == 14),
        iv.len() == 16,
    ensures
        final(data)@ == spec_ctr_xor(
            old(data)@,
            spec_key_schedule(key@, nk as int, nr as int),
            nr as int,
            iv@,
            0,
        ),
{
    let keys = key_expansion_v2(key, nk, nr);
    process_chunk(data, &keys, iv, nr, 0);
}

/// XOR with the same byte twice gives the byte back.
proof fn lemma_xor_involution()
    ensures
        forall|x: u8, y: u8| #[trigger] ((x ^ y) ^ y) == x,
{
    assert(forall|x: u8, y: u8| #[trigger] ((x ^ y) ^ y) == x) by (bit_vector);
}

/// Round trip: applying the CTR transform twice with the same key
/// schedule, base counter and starting block returns the original data,
/// for data of any length. Encryption and decryption are the same
/// operation.
pub proof fn lemma_ctr_round_trip(data: Seq<u8>, keys: Seq<u8>, nr: int, iv: Seq<u8>, sb: nat)
    ensures
        spec_ctr_xor(spec_ctr_xor(data, keys, nr, iv, sb), keys, nr, iv, sb) == data,
{
    let once = spec_ctr_xor(data, keys, nr, iv, sb);
    let twice = spec_ctr_xor(once, keys, nr, iv, sb);
    lemma_xor_involution();
    assert(twice =~= data);
}

/// Positional writes: the transform of a block-aligned slice, started at
/// the slice's own absolute block, is exactly that range of the whole
/// transform. A job that writes its chunk's output at the chunk's offset
/// therefore produces the same bytes there as a single pass over the
/// whole file would.
pub proof fn lemma_ctr_xor_slice(
    data: Seq<u8>,
    keys: Seq<u8>,
    nr: int,
    iv: Seq<u8>,
    sb: nat,
    a: int,
    b: int,
)
    requires
        0 <= a <= b <= data.len(),
        a % 16 == 0,
    ensures
        spec_ctr_xor(data, keys, nr, iv, sb).subrange(a, b) == spec_ctr_xor(
            data.subrange(a, b),
            keys,
            nr,
            iv,
            (sb + a / 16) as nat,
        ),
{
    let whole = spec_ctr_xor(data, keys, nr, iv, sb).subrange(a, b);
    let part = spec_ctr_xor(data.subrange(a, b), keys, nr, iv, (sb + a / 16) as nat);
    assert forall|j: int| 0 <= j < b - a implies whole[j] == part[j] by {
        lemma_fundamental_div_mod_converse(a + j, 16, a / 16 + j / 16, j % 16);
    }
    assert(whole =~= part);
}

/// Chunk independence: transforming a block-aligned chunk and the rest
/// separately, with the rest starting that many blocks further on, equals
/// transforming the whole. Chunks may therefore be processed in any order,
/// by any number of workers, and written to their disjoint ranges: the
/// output is always the same.
pub proof fn lemma_ctr_xor_append(
    a: Seq<u8>,
    b: Seq<u8>,
    keys: Seq<u8>,
    nr: int,
    iv: Seq<u8>,
    sb: nat,
)
    requires
        a.len() % 16 == 0,
    ensures
        spec_ctr_xor(a + b, keys, nr, iv, sb) == spec_ctr_xor(a, keys, nr, iv, sb) + spec_ctr_xor(
            b,
            keys,
            nr,
            iv,
            sb + a.len() / 16,
        ),
{
    let whole = spec_ctr_xor(a + b, keys, nr, iv, sb);
    let parts = spec_ctr_xor(a, keys, nr, iv, sb) + spec_ctr_xor(b, keys, nr, iv, sb + a.len() / 16);
    let q = a.len() as int / 16;
    assert forall|j: int| a.len() <= j < a.len() + b.len() implies whole[j] == parts[j] by {
        let m = j - a.len();
        lemma_fundamental_div_mod_converse(j, 16, q + m / 16, m % 16);
    }
    assert(whole =~= parts);
}

} // verus!
