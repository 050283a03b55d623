//! Key schedule expansion.
//!
//! A raw key of `4 * nk` bytes expands to `nr + 1` round keys of 16 bytes
//! each, by the standard word recurrence. Each 16-byte round key is then
//! transposed so its bytes sit in the row-major layout the block transform
//! uses.

use vstd::prelude::*;

use crate::sbox::RCON;
use crate::sbox::SBOX;
use crate::sbox::spec_sbox;

verus! {

/// Word `i` of the expanded key, four bytes. The first `nk` words are the
/// raw key; word `i >= nk` is word `i - nk` XOR a function of word
/// `i - 1`: rotated, substituted and XORed with the round constant when
/// `i` is a multiple of `nk`; substituted alone when `nk > 6` and
/// `i % nk == 4`; unchanged otherwise.
pub open spec fn spec_key_word(key: Seq<u8>, nk: int, i: int) -> Seq<u8>
    decreases i,
{
    if nk < 1 || i < nk {
        key.subrange(4 * i, 4 * i + 4)
    } else {
        let prev = spec_key_word(key, nk, i - 1);
        let back = spec_key_word(key, nk, i - nk);
        if i % nk == 0 {
            seq![
                spec_sbox(prev[1]) ^ RCON[i / nk - 1] ^ back[0],
                spec_sbox(prev[2]) ^ back[1],
                spec_sbox(prev[3]) ^ back[2],
                spec_sbox(prev[0]) ^ back[3],
            ]
        } else if nk > 6 && i % nk == 4 {
            seq![
                spec_sbox(prev[0]) ^ back[0],
                spec_sbox(prev[1]) ^ back[1],
                spec_sbox(prev[2]) ^ back[2],
                spec_sbox(prev[3]) ^ back[3],
            ]
        } else {
            seq![
                prev[0] ^ back[0],
                prev[1] ^ back[1],
                prev[2] ^ back[2],
                prev[3] ^ back[3],
            ]
        }
    }
}

/// The full expanded key: `16 * (nr + 1)` bytes, each 16-byte round key
/// transposed into the row-major layout of the block transform. Byte
/// `16*r + 4*i + j` of the result is byte `i` of word `4*r + j`.
pub open spec fn spec_key_schedule(key: Seq<u8>, nk: int, nr: int) -> Seq<u8> {
    Seq::new(
        (16 * (nr + 1)) as nat,
        |idx: int| spec_key_word(key, nk, 4 * (idx / 16) + idx % 4)[(idx % 16) / 4],
    )
}

/// Expands a raw key of `4 * nk` bytes into `nr + 1` round keys of 16
/// bytes each, laid out row-major.
#[verifier::rlimit(60)]
pub fn key_expansion_v2(key: &Vec<u8>, nk: usize, nr: usize) -> (schedule: Vec<u8>)
    requires
        key.len() == 4 * nk,
        (nk == 4 && nr == 10) || (nk == 6 && nr == 12) || (nk == 8 && nr == 14),
    ensures
        schedule@ == spec_key_schedule(key@, nk as int, nr as int),
        schedule@.len() == 16 * (nr + 1),
{
    let mut words: Vec<u8> = Vec::new();
    let mut i: usize = 0;
    while i < 4 * nk
        invariant
            key.len() == 4 * nk,
            (nk == 4 && nr == 10) || (nk == 6 && nr == 12) || (nk == 8 && nr == 14),
            i <= 4 * nk,
            words@.len() == i,
            forall|idx: int| 0 <= idx < i ==> words@[idx] == spec_key_word(
                key@,
                nk as int,
                idx / 4,
            )[idx % 4],
        decreases 4 * nk - i,
    {
        words.push(key[i]);
        i += 1;
    }
    let mut w: usize = nk;
    while w < 4 * (nr + 1)
        invariant
            key.len() == 4 * nk,
            (nk == 4 && nr == 10) || (nk == 6 && nr == 12) || (nk == 8 && nr == 14),
            nk <= w <= 4 * (nr + 1),
            words@.len() == 4 * w,
            forall|idx: int| 0 <= idx < 4 * w ==> words@[idx] == spec_key_word(
                key@,
                nk as int,
                idx / 4,
            )[idx % 4],
        decreases 4 * (nr + 1) - w,
    {
        let prev_base = (w - 1) * 4;
        let back_base = (w - nk) * 4;
        let b0: u8;
        let b1: u8;
        let b2: u8;
        let b3: u8;
        if w % nk == 0 {
            b0 = SBOX[words[prev_base + 1] as usize] ^ RCON[w / nk - 1] ^ words[back_base];
            b1 = SBOX[words[prev_base + 2] as usize] ^ words[back_base + 1];
            b2 = SBOX[words[prev_base + 3] as usize] ^ words[back_base + 2];
            b3 = SBOX[words[prev_base] as usize] ^ words[back_base + 3];
        } else if nk > 6 && w % nk == 4 {
            b0 = SBOX[words[prev_base] as usize] ^ words[back_base];
            b1 = SBOX[words[prev_base + 1] as usize] ^ words[back_base + 1];
            b2 = SBOX[words[prev_base + 2] as usize] ^ words[back_base + 2];
            b3 = SBOX[words[prev_base + 3] as usize] ^ words[back_base + 3];
        } else {
            b0 = words[prev_base] ^ words[back_base];
            b1 = words[prev_base + 1] ^ words[back_base + 1];
            b2 = words[prev_base + 2] ^ words[back_base + 2];
            b3 = words[prev_base + 3] ^ words[back_base + 3];
        }
        words.push(b0);
        words.push(b1);
        words.push(b2);
        words.push(b3);
        proof {
            let wi = w as int;
            let nki = nk as int;
            let prev = spec_key_word(key@, nki, wi - 1);
            let back = spec_key_word(key@, nki, wi - nki);
            assert(words@[(wi - 1) * 4] == prev[0]);
            assert(words@[(wi - 1) * 4 + 1] == prev[1]);
            assert(words@[(wi - 1) * 4 + 2] == prev[2]);
            assert(words@[(wi - 1) * 4 + 3] == prev[3]);
            assert(words@[(wi - nki) * 4] == back[0]);
            assert(words@[(wi - nki) * 4 + 1] == back[1]);
            assert(words@[(wi - nki) * 4 + 2] == back[2]);
            assert(words@[(wi - nki) * 4 + 3] == back[3]);
            assert(words@[4 * wi] == spec_key_word(key@, nki, wi)[0]);
            assert(words@[4 * wi + 1] == spec_key_word(key@, nki, wi)[1]);
            assert(words@[4 * wi + 2] == spec_key_word(key@, nki, wi)[2]);
            assert(words@[4 * wi + 3] == spec_key_word(key@, nki, wi)[3]);
        }
        w += 1;
    }
    let total = 16 * (nr + 1);
    let mut schedule: Vec<u8> = Vec::new();
    let mut idx: usize = 0;
    while idx < total
        invariant
            total == 16 * (nr + 1),
            (nk == 4 && nr == 10) || (nk == 6 && nr == 12) || (nk == 8 && nr == 14),
            words@.len() == total,
            forall|k: int| 0 <= k < total ==> words@[k] == spec_key_word(
                key@,
                nk as int,
                k / 4,
            )[k % 4],
            idx <= total,
            schedule@.len() == idx,
            forall|k: int| 0 <= k < idx ==> schedule@[k] == spec_key_schedule(
                key@,
                nk as int,
                nr as int,
            )[k],
        decreases total - idx,
    {
        let r = idx / 16;
        let p = idx % 16;
        schedule.push(words[r * 16 + (p % 4) * 4 + p / 4]);
        proof {
            let ki = idx as int;
            let src = (ki / 16) * 16 + (ki % 16 % 4) * 4 + (ki % 16) / 4;
            assert(src / 4 == 4 * (ki / 16) + ki % 16 % 4 && src % 4 == (ki % 16) / 4);
            assert(ki % 16 % 4 == ki % 4);
        }
        idx += 1;
    }
    proof {
        assert(schedule@ =~= spec_key_schedule(key@, nk as int, nr as int));
    }
    schedule
}

} // verus!
