//! The forward AES block transform.
//!
//! A 16-byte state is a 4x4 byte matrix held row-major: byte `4*r + c` is
//! row `r`, column `c`. Counter blocks and round keys arrive in the byte
//! order of the standard (column-major), so the transform transposes the
//! state on entry and exit and the key schedule is stored transposed to
//! match.

use vstd::prelude::*;

use crate::gf::gmul;
use crate::gf::spec_gmul;
use crate::sbox::SBOX;
use crate::sbox::spec_sbox;
use crate::sbox::spec_sub_bytes;

verus! {

/// The transpose of a 4x4 byte matrix: entry `(r, c)` moves to `(c, r)`.
pub open spec fn spec_transpose(s: Seq<u8>) -> Seq<u8> {
    Seq::new(s.len(), |i: int| s[(i % 4) * 4 + i / 4])
}

/// Transposes a 16-byte state between the standard's column-major byte
/// order and the row-major layout the round functions use.
pub fn rotate(input: &mut Vec<u8>)
    requires
        old(input).len() == 16,
    ensures
        final(input)@ == spec_transpose(old(input)@),
{
    let mut t: Vec<u8> = Vec::new();
    t.push(input[0]);
    t.push(input[4]);
    t.push(input[8]);
    t.push(input[12]);
    t.push(input[1]);
    t.push(input[5]);
    t.push(input[9]);
    t.push(input[13]);
    t.push(input[2]);
    t.push(input[6]);
    t.push(input[10]);
    t.push(input[14]);
    t.push(input[3]);
    t.push(input[7]);
    t.push(input[11]);
    t.push(input[15]);
    *input = t;
    proof {
        assert(input@ =~= spec_transpose(old(input)@));
    }
}

/// The state XORed with round `round` of the expanded key.
pub open spec fn spec_add_round_key(s: Seq<u8>, keys: Seq<u8>, round: int) -> Seq<u8> {
    Seq::new(s.len(), |i: int| s[i] ^ keys[16 * round + i])
}

/// XORs round `round` of the expanded key into the state.
pub fn add_round_keys_v2(stage: &mut Vec<u8>, expanded_key: &Vec<u8>, round: usize)
    requires
        16 * round + old(stage).len() <= expanded_key.len(),
    ensures
        final(stage)@ == spec_add_round_key(old(stage)@, expanded_key@, round as int),
{
    let offset = round * 16;
    let mut i: usize = 0;
    while i < stage.len()
        invariant
            offset == round * 16,
            16 * round + stage.len() <= expanded_key.len(),
            stage.len() == old(stage).len(),
            i <= stage.len(),
            forall|k: int| 0 <= k < i ==> stage@[k] == (old(stage)@[k] ^ expanded_key@[16 * round + k]),
            forall|k: int| i <= k < stage.len() ==> stage@[k] == old(stage)@[k],
        decreases stage.len() - i,
    {
        stage[i] = stage[i] ^ expanded_key[offset + i];
        i += 1;
    }
    proof {
        assert(stage@ =~= spec_add_round_key(old(stage)@, expanded_key@, round as int));
    }
}

/// Substitutes every state byte through the S-box.
pub fn sub_bytes_v2(stage: &mut Vec<u8>)
    ensures
        final(stage)@ == spec_sub_bytes(old(stage)@),
{
    let mut i: usize = 0;
    while i < stage.len()
        invariant
            stage.len() == old(stage).len(),
            i <= stage.len(),
            forall|k: int| 0 <= k < i ==> stage@[k] == spec_sbox(old(stage)@[k]),
            forall|k: int| i <= k < stage.len() ==> stage@[k] == old(stage)@[k],
        decreases stage.len() - i,
    {
        stage[i] = SBOX[stage[i] as usize];
        i += 1;
    }
    proof {
        assert(stage@ =~= spec_sub_bytes(old(stage)@));
    }
}

/// Where the ShiftRows step reads the new entry at index `i` from: row `r`
/// rotates left by `r`, so entry `(r, c)` comes from `(r, (c + r) % 4)`.
pub open spec fn spec_shift_src(i: int) -> int {
    4 * (i / 4) + (i % 4 + i / 4) % 4
}

/// The ShiftRows step: row `r` of the state cyclically rotated left by `r`.
pub open spec fn spec_shift_rows(s: Seq<u8>) -> Seq<u8> {
    Seq::new(s.len(), |i: int| s[spec_shift_src(i)])
}

/// Rotates row `r` of the state left by `r` positions.
pub fn shift_rows_v2(stage: &mut Vec<u8>)
    requires
        old(stage).len() == 16,
    ensures
        final(stage)@ == spec_shift_rows(old(stage)@),
{
    let mut t: Vec<u8> = Vec::new();
    t.push(stage[0]);
    t.push(stage[1]);
    t.push(stage[2]);
    t.push(stage[3]);
    t.push(stage[5]);
    t.push(stage[6]);
    t.push(stage[7]);
    t.push(stage[4]);
    t.push(stage[10]);
    t.push(stage[11]);
    t.push(stage[8]);
    t.push(stage[9]);
    t.push(stage[15]);
    t.push(stage[12]);
    t.push(stage[13]);
    t.push(stage[14]);
    *stage = t;
    proof {
        assert(stage@ =~= spec_shift_rows(old(stage)@));
    }
}

/// The fused SubBytes-then-ShiftRows step, as the round loop applies it.
pub fn shift_rows_v3(stage: &mut Vec<u8>)
    requires
        old(stage).len() == 16,
    ensures
        final(stage)@ == spec_shift_rows(spec_sub_bytes(old(stage)@)),
{
    let mut t: Vec<u8> = Vec::new();
    t.push(SBOX[stage[0] as usize]);
    t.push(SBOX[stage[1] as usize]);
    t.push(SBOX[stage[2] as usize]);
    t.push(SBOX[stage[3] as usize]);
    t.push(SBOX[stage[5] as usize]);
    t.push(SBOX[stage[6] as usize]);
    t.push(SBOX[stage[7] as usize]);
    t.push(SBOX[stage[4] as usize]);
    t.push(SBOX[stage[10] as usize]);
    t.push(SBOX[stage[11] as usize]);
    t.push(SBOX[stage[8] as usize]);
    t.push(SBOX[stage[9] as usize]);
    t.push(SBOX[stage[15] as usize]);
    t.push(SBOX[stage[12] as usize]);
    t.push(SBOX[stage[13] as usize]);
    t.push(SBOX[stage[14] as usize]);
    *stage = t;
    proof {
        assert(stage@ =~= spec_shift_rows(spec_sub_bytes(old(stage)@)));
    }
}

/// Entry `i` of the MixColumns result: the column of `i` multiplied by the
/// row of `i` of the fixed matrix [[2,3,1,1],[1,2,3,1],[1,1,2,3],[3,1,1,2]]
/// over GF(2^8).
pub open spec fn spec_mix_entry(s: Seq<u8>, i: int) -> u8 {
    let c = i % 4;
    let r = i / 4;
    let t0 = s[c];
    let t1 = s[c + 4];
    let t2 = s[c + 8];
    let t3 = s[c + 12];
    if r == 0 {
        spec_gmul(t0, 0x2) ^ spec_gmul(t1, 0x3) ^ t2 ^ t3
    } else if r == 1 {
        t0 ^ spec_gmul(t1, 0x2) ^ spec_gmul(t2, 0x3) ^ t3
    } else if r == 2 {
        t0 ^ t1 ^ spec_gmul(t2, 0x2) ^ spec_gmul(t3, 0x3)
    } else {
        spec_gmul(t0, 0x3) ^ t1 ^ t2 ^ spec_gmul(t3, 0x2)
    }
}

/// The MixColumns step applied to a 16-byte state.
pub open spec fn spec_mix_columns(s: Seq<u8>) -> Seq<u8> {
    Seq::new(s.len(), |i: int| spec_mix_entry(s, i))
}

/// Multiplies every column of the state by the fixed MixColumns matrix.
pub fn mix_columns_v2(stage: &mut Vec<u8>)
    requires
        old(stage).len() == 16,
    ensures
        final(stage)@ == spec_mix_columns(old(stage)@),
{
    let mut column: usize = 0;
    while column < 4
        invariant
            stage.len() == 16,
            column <= 4,
            forall|i: int| 0 <= i < 16 && i % 4 < column ==> stage@[i] == spec_mix_entry(old(stage)@, i),
            forall|i: int| 0 <= i < 16 && i % 4 >= column ==> stage@[i] == old(stage)@[i],
        decreases 4 - column,
    {
        let t0: u8 = stage[column];
        let t1: u8 = stage[column + 4];
        let t2: u8 = stage[column + 8];
        let t3: u8 = stage[column + 12];
        stage[column] = gmul(t0, 0x2) ^ gmul(t1, 0x3) ^ t2 ^ t3;
        stage[column + 4] = t0 ^ gmul(t1, 0x2) ^ gmul(t2, 0x3) ^ t3;
        stage[column + 8] = t0 ^ t1 ^ gmul(t2, 0x2) ^ gmul(t3, 0x3);
        stage[column + 12] = gmul(t0, 0x3) ^ t1 ^ t2 ^ gmul(t3, 0x2);
        column += 1;
    }
    proof {
        assert(stage@ =~= spec_mix_columns(old(stage)@));
    }
}

/// Rounds `i` through `nr` applied to a row-major state: each round
/// substitutes, shifts, mixes (except in round `nr`), and adds the round
/// key.
pub open spec fn spec_aes_rounds(s: Seq<u8>, keys: Seq<u8>, i: int, nr: int) -> Seq<u8>
    decreases nr + 1 - i,
{
    if i < 1 || i > nr {
        s
    } else {
        let shifted = spec_shift_rows(spec_sub_bytes(s));
        let mixed = if i < nr {
            spec_mix_columns(shifted)
        } else {
            shifted
        };
        spec_aes_rounds(spec_add_round_key(mixed, keys, i), keys, i + 1, nr)
    }
}

/// One forward AES encryption of a 16-byte block (in the standard's byte
/// order) under an expanded key of `nr + 1` round keys.
pub open spec fn spec_aes_block(block: Seq<u8>, keys: Seq<u8>, nr: int) -> Seq<u8> {
    spec_transpose(
        spec_aes_rounds(spec_add_round_key(spec_transpose(block), keys, 0), keys, 1, nr),
    )
}

/// Encrypts one 16-byte block in place with the expanded key `keys` over
/// `nr` rounds.
pub fn aes_v2(stage: &mut Vec<u8>, keys: &Vec<u8>, nr: usize)
    requires
        old(stage).len() == 16,
        keys.len() == 16 * (nr + 1),
        1 <= nr,
    ensures
        final(stage)@.len() == 16,
        final(stage)@ == spec_aes_block(old(stage)@, keys@, nr as int),
{
    let ghost start = spec_add_round_key(spec_transpose(old(stage)@), keys@, 0);
    rotate(stage);
    add_round_keys_v2(stage, keys, 0);
    let mut i: usize = 1;
    while i < nr + 1
        invariant
            stage.len() == 16,
            keys.len() == 16 * (nr + 1),
            1 <= i <= nr + 1,
            spec_aes_rounds(stage@, keys@, i as int, nr as int) == spec_aes_rounds(
                start,
                keys@,
                1,
                nr as int,
            ),
        decreases nr + 1 - i,
    {
        shift_rows_v3(stage);
        if i < nr {
            mix_columns_v2(stage);
        }
        add_round_keys_v2(stage, keys, i);
        i += 1;
    }
    rotate(stage);
}

} // verus!
