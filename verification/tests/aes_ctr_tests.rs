use aes_ctr::block::aes_v2;
use aes_ctr::block::add_round_keys_v2;
use aes_ctr::block::mix_columns_v2;
use aes_ctr::block::rotate;
use aes_ctr::block::shift_rows_v2;
use aes_ctr::block::shift_rows_v3;
use aes_ctr::block::sub_bytes_v2;
use aes_ctr::counter::ctr128_inc;
use aes_ctr::engine::ctr_transform;
use aes_ctr::engine::process_chunk;
use aes_ctr::engine::xor_for_vec;
use aes_ctr::gf::gmul;
use aes_ctr::plan::check_config;
use aes_ctr::plan::plan_jobs;
use aes_ctr::plan::ConfigError;
use aes_ctr::plan::Message;
use aes_ctr::sbox::initialize_aes_sbox;
use aes_ctr::sbox::rcon;
use aes_ctr::sbox::sub_word;
use aes_ctr::schedule::key_expansion_v2;

fn sbox_table() -> Vec<u8> {
    let mut sbox = vec![0u8; 256];
    initialize_aes_sbox(&mut sbox);
    sbox
}

fn keystream_block(iv: &Vec<u8>, keys: &Vec<u8>, nr: usize, block: u64) -> Vec<u8> {
    let mut b = ctr128_inc(iv, block);
    aes_v2(&mut b, keys, nr);
    b
}

#[test]
fn gmul_known_products() {
    assert_eq!(gmul(0x57, 0x83), 0xc1);
    assert_eq!(gmul(0x57, 0x13), 0xfe);
    assert_eq!(gmul(2, 3), 6);
    assert_eq!(gmul(0, 0xab), 0);
    assert_eq!(gmul(1, 0xab), 0xab);
}

#[test]
fn gmul_commutes_on_samples() {
    for a in [0u8, 1, 2, 3, 0x1b, 0x53, 0x80, 0xff] {
        for b in [0u8, 1, 2, 3, 0x1b, 0x53, 0x80, 0xff] {
            assert_eq!(gmul(a, b), gmul(b, a));
        }
    }
}

#[test]
fn sbox_known_entries() {
    let sbox = sbox_table();
    assert_eq!(sbox.len(), 256);
    assert_eq!(sbox[0], 0x63);
    assert_eq!(sbox[1], 0x7c);
    assert_eq!(sbox[0x53], 0xed);
    assert_eq!(sbox[0xff], 0x16);
}

#[test]
fn sbox_matches_field_arithmetic() {
    // Recompute every entry from first principles: the multiplicative
    // inverse in GF(2^8), found by brute force with gmul, followed by the
    // affine transform. Entry 0 uses 0 in place of an inverse.
    let sbox = sbox_table();
    for i in 0..256u32 {
        let x = i as u8;
        let mut inv = 0u8;
        if x != 0 {
            for y in 0..256u32 {
                if gmul(x, y as u8) == 1 {
                    inv = y as u8;
                }
            }
        }
        let rotl = |v: u8, s: u32| v.rotate_left(s);
        let expected = inv ^ rotl(inv, 1) ^ rotl(inv, 2) ^ rotl(inv, 3) ^ rotl(inv, 4) ^ 0x63;
        assert_eq!(sbox[i as usize], expected);
    }
}

#[test]
fn sub_word_substitutes_each_byte() {
    let sbox = sbox_table();
    let mut row = vec![0x00u8, 0x01, 0x53, 0xff];
    sub_word(&mut row, &sbox);
    assert_eq!(row, vec![0x63, 0x7c, 0xed, 0x16]);
}

#[test]
fn rcon_words() {
    assert_eq!(rcon(0), vec![0x01, 0, 0, 0]);
    assert_eq!(rcon(3), vec![0x08, 0, 0, 0]);
    assert_eq!(rcon(8), vec![0x1b, 0, 0, 0]);
    assert_eq!(rcon(9), vec![0x36, 0, 0, 0]);
}

#[test]
fn rcon_entries_double_in_field() {
    // Each round constant is the GF(2^8) double of the one before it,
    // starting from 1.
    let mut expected = 1u8;
    for round in 0..15 {
        assert_eq!(rcon(round)[0], expected);
        assert_eq!(&rcon(round)[1..], &[0, 0, 0]);
        expected = gmul(expected, 2);
    }
}

#[test]
fn xor_for_vec_pairs() {
    let a = vec![0x0fu8, 0xf0, 0xaa];
    let b = vec![0xffu8, 0xf0, 0x55, 0x99];
    assert_eq!(xor_for_vec(&a, &b), vec![0xf0, 0x00, 0xff]);
    assert_eq!(xor_for_vec(&b, &a), vec![0xf0, 0x00, 0xff]);
    assert_eq!(xor_for_vec(&a, &a), vec![0, 0, 0]);
}

#[test]
fn rotate_transposes_state() {
    let mut state: Vec<u8> = (0..16).collect();
    rotate(&mut state);
    assert_eq!(
        state,
        vec![0, 4, 8, 12, 1, 5, 9, 13, 2, 6, 10, 14, 3, 7, 11, 15]
    );
    rotate(&mut state);
    let back: Vec<u8> = (0..16).collect();
    assert_eq!(state, back);
}

#[test]
fn shift_rows_rotates_each_row() {
    let mut state: Vec<u8> = (0..16).collect();
    shift_rows_v2(&mut state);
    assert_eq!(
        state,
        vec![0, 1, 2, 3, 5, 6, 7, 4, 10, 11, 8, 9, 15, 12, 13, 14]
    );
}

#[test]
fn fused_shift_rows_matches_steps() {
    let base: Vec<u8> = (100..116).collect();
    let mut fused = base.clone();
    shift_rows_v3(&mut fused);
    let mut stepped = base.clone();
    sub_bytes_v2(&mut stepped);
    shift_rows_v2(&mut stepped);
    assert_eq!(fused, stepped);
}

#[test]
fn mix_columns_known_vectors() {
    // Columns sit at stride 4 in the row-major state. Known pairs:
    // db 13 53 45 -> 8e 4d a1 bc, f2 0a 22 5c -> 9f dc 58 9d,
    // 01 01 01 01 -> 01 01 01 01, 2d 26 31 4c -> 4d 7e bd f8.
    let mut state = vec![
        0xdb, 0xf2, 0x01, 0x2d, // row 0
        0x13, 0x0a, 0x01, 0x26, // row 1
        0x53, 0x22, 0x01, 0x31, // row 2
        0x45, 0x5c, 0x01, 0x4c, // row 3
    ];
    mix_columns_v2(&mut state);
    let expected = vec![
        0x8e, 0x9f, 0x01, 0x4d, //
        0x4d, 0xdc, 0x01, 0x7e, //
        0xa1, 0x58, 0x01, 0xbd, //
        0xbc, 0x9d, 0x01, 0xf8, //
    ];
    assert_eq!(state, expected);
}

#[test]
fn key_schedule_lengths_by_key_size() {
    let key128: Vec<u8> = (0..16).collect();
    assert_eq!(key_expansion_v2(&key128, 4, 10).len(), 176);
    let key192: Vec<u8> = (0..24).collect();
    assert_eq!(key_expansion_v2(&key192, 6, 12).len(), 208);
    let key256: Vec<u8> = (0..32).collect();
    assert_eq!(key_expansion_v2(&key256, 8, 14).len(), 240);
}

#[test]
fn key_schedule_round_zero_is_transposed_key() {
    let key: Vec<u8> = (0..16).collect();
    let keys = key_expansion_v2(&key, 4, 10);
    assert_eq!(
        &keys[..16],
        &[0, 4, 8, 12, 1, 5, 9, 13, 2, 6, 10, 14, 3, 7, 11, 15]
    );
}

#[test]
fn key_schedule_round_one_known_vector() {
    // FIPS-197 A.1: key 2b7e151628aed2a6abf7158809cf4f3c expands with
    // w4..w7 = a0fafe17 88542cb1 23a33939 2a6c7605; round key 1 is those
    // words transposed into the row-major layout.
    let key = vec![
        0x2b, 0x7e, 0x15, 0x16, 0x28, 0xae, 0xd2, 0xa6, 0xab, 0xf7, 0x15, 0x88, 0x09, 0xcf, 0x4f,
        0x3c,
    ];
    let keys = key_expansion_v2(&key, 4, 10);
    assert_eq!(
        &keys[16..32],
        &[
            0xa0, 0x88, 0x23, 0x2a, 0xfa, 0x54, 0xa3, 0x6c, 0xfe, 0x2c, 0x39, 0x76, 0x17, 0xb1,
            0x39, 0x05,
        ]
    );
}

#[test]
fn ctr_mode_nist_vector() {
    // NIST SP 800-38A F.5.1, AES-128 CTR: the first two plaintext blocks
    // encrypt to the published ciphertext under counter f0f1..ff.
    let key = vec![
        0x2b, 0x7e, 0x15, 0x16, 0x28, 0xae, 0xd2, 0xa6, 0xab, 0xf7, 0x15, 0x88, 0x09, 0xcf, 0x4f,
        0x3c,
    ];
    let iv: Vec<u8> = (0xf0..=0xff).collect();
    let mut data = vec![
        0x6b, 0xc1, 0xbe, 0xe2, 0x2e, 0x40, 0x9f, 0x96, 0xe9, 0x3d, 0x7e, 0x11, 0x73, 0x93, 0x17,
        0x2a, // block 1
        0xae, 0x2d, 0x8a, 0x57, 0x1e, 0x03, 0xac, 0x9c, 0x9e, 0xb7, 0x6f, 0xac, 0x45, 0xaf, 0x8e,
        0x51, // block 2
    ];
    ctr_transform(&mut data, &key, &iv, 4, 10);
    let expected = vec![
        0x87, 0x4d, 0x61, 0x91, 0xb6, 0x20, 0xe3, 0x26, 0x1b, 0xef, 0x68, 0x64, 0x99, 0x0d, 0xb6,
        0xce, //
        0x98, 0x06, 0xf6, 0x6b, 0x79, 0x70, 0xfd, 0xff, 0x86, 0x17, 0x18, 0x7b, 0xb9, 0xff, 0xfd,
        0xff, //
    ];
    assert_eq!(data, expected);
}

#[test]
fn block_transform_fips_vector_128() {
    let key: Vec<u8> = (0x00..0x10).collect();
    let keys = key_expansion_v2(&key, 4, 10);
    let mut block = vec![
        0x00, 0x11, 0x22, 0x33, 0x44, 0x55, 0x66, 0x77, 0x88, 0x99, 0xaa, 0xbb, 0xcc, 0xdd, 0xee,
        0xff,
    ];
    aes_v2(&mut block, &keys, 10);
    assert_eq!(
        block,
        vec![
            0x69, 0xc4, 0xe0, 0xd8, 0x6a, 0x7b, 0x04, 0x30, 0xd8, 0xcd, 0xb7, 0x80, 0x70, 0xb4,
            0xc5, 0x5a,
        ]
    );
}

#[test]
fn block_transform_fips_vector_192() {
    let key: Vec<u8> = (0x00..0x18).collect();
    let keys = key_expansion_v2(&key, 6, 12);
    let mut block = vec![
        0x00, 0x11, 0x22, 0x33, 0x44, 0x55, 0x66, 0x77, 0x88, 0x99, 0xaa, 0xbb, 0xcc, 0xdd, 0xee,
        0xff,
    ];
    aes_v2(&mut block, &keys, 12);
    assert_eq!(
        block,
        vec![
            0xdd, 0xa9, 0x7c, 0xa4, 0x86, 0x4c, 0xdf, 0xe0, 0x6e, 0xaf, 0x70, 0xa0, 0xec, 0x0d,
            0x71, 0x91,
        ]
    );
}

#[test]
fn block_transform_fips_vector_256() {
    let key: Vec<u8> = (0x00..0x20).collect();
    let keys = key_expansion_v2(&key, 8, 14);
    let mut block = vec![
        0x00, 0x11, 0x22, 0x33, 0x44, 0x55, 0x66, 0x77, 0x88, 0x99, 0xaa, 0xbb, 0xcc, 0xdd, 0xee,
        0xff,
    ];
    aes_v2(&mut block, &keys, 14);
    assert_eq!(
        block,
        vec![
            0x8e, 0xa2, 0xb7, 0xca, 0x51, 0x67, 0x45, 0xbf, 0xea, 0xfc, 0x49, 0x90, 0x4b, 0x49,
            0x60, 0x89,
        ]
    );
}

#[test]
fn add_round_keys_xors_selected_round() {
    let keys: Vec<u8> = (0..32).collect();
    let mut state = vec![0xffu8; 16];
    add_round_keys_v2(&mut state, &keys, 1);
    let expected: Vec<u8> = (16..32).map(|b| 0xff ^ b).collect();
    assert_eq!(state, expected);
}

#[test]
fn counter_increment_by_one() {
    let iv = vec![0u8; 16];
    let out = ctr128_inc(&iv, 1);
    let mut expected = vec![0u8; 16];
    expected[15] = 1;
    assert_eq!(out, expected);
}

#[test]
fn counter_wraps_at_full_range() {
    let iv = vec![0xffu8; 16];
    let out = ctr128_inc(&iv, 1);
    assert_eq!(out, vec![0u8; 16]);
}

#[test]
fn counter_increment_by_256_is_big_endian() {
    let iv = vec![0u8; 16];
    let out = ctr128_inc(&iv, 256);
    let mut expected = vec![0u8; 16];
    expected[14] = 1;
    assert_eq!(out, expected);
}

#[test]
fn counter_carry_chain() {
    let mut iv = vec![0u8; 16];
    iv[14] = 0x01;
    iv[15] = 0xff;
    let out = ctr128_inc(&iv, 1);
    let mut expected = vec![0u8; 16];
    expected[14] = 0x02;
    assert_eq!(out, expected);
    let big = ctr128_inc(&vec![0u8; 16], u64::MAX);
    let mut expected_big = vec![0u8; 16];
    for i in 8..16 {
        expected_big[i] = 0xff;
    }
    assert_eq!(big, expected_big);
}

#[test]
fn counter_derivation_is_positional() {
    // Deriving block 5 directly equals stepping block 3's counter by 2.
    let iv: Vec<u8> = (10..26).collect();
    let direct = ctr128_inc(&iv, 5);
    let stepped = ctr128_inc(&ctr128_inc(&iv, 3), 2);
    assert_eq!(direct, stepped);
}

#[test]
fn partial_final_block_preserves_length() {
    let key: Vec<u8> = (0x00..0x10).collect();
    let keys = key_expansion_v2(&key, 4, 10);
    let iv: Vec<u8> = (0x30..0x40).collect();
    let plain: Vec<u8> = (0..18).collect();
    let mut data = plain.clone();
    process_chunk(&mut data, &keys, &iv, 10, 0);
    assert_eq!(data.len(), 18);
    let ks0 = keystream_block(&iv, &keys, 10, 0);
    let ks1 = keystream_block(&iv, &keys, 10, 1);
    for i in 0..16 {
        assert_eq!(data[i], plain[i] ^ ks0[i]);
    }
    for i in 0..2 {
        assert_eq!(data[16 + i], plain[16 + i] ^ ks1[i]);
    }
}

#[test]
fn empty_input_stays_empty() {
    let key: Vec<u8> = (0x00..0x10).collect();
    let keys = key_expansion_v2(&key, 4, 10);
    let iv = vec![0u8; 16];
    let mut data: Vec<u8> = Vec::new();
    process_chunk(&mut data, &keys, &iv, 10, 0);
    assert_eq!(data.len(), 0);
}

#[test]
fn round_trip_all_key_sizes_and_lengths() {
    let iv: Vec<u8> = (0x40..0x50).collect();
    for (key_len, nk, nr) in [(16usize, 4usize, 10usize), (24, 6, 12), (32, 8, 14)] {
        let key: Vec<u8> = (0..key_len as u8).collect();
        for len in [0usize, 1, 15, 16, 17, 18, 31, 32, 33, 100] {
            let plain: Vec<u8> = (0..len).map(|i| (i * 7 + 13) as u8).collect();
            let mut data = plain.clone();
            ctr_transform(&mut data, &key, &iv, nk, nr);
            if len > 0 {
                assert_ne!(data, plain);
            }
            ctr_transform(&mut data, &key, &iv, nk, nr);
            assert_eq!(data, plain);
        }
    }
}

#[test]
fn chunked_processing_matches_whole_in_any_order() {
    let key: Vec<u8> = (0x00..0x20).collect();
    let keys = key_expansion_v2(&key, 8, 14);
    let iv: Vec<u8> = (0x60..0x70).collect();
    let plain: Vec<u8> = (0..100u32).map(|i| (i * 31 + 5) as u8).collect();

    let mut whole = plain.clone();
    process_chunk(&mut whole, &keys, &iv, 14, 0);

    let jobs = plan_jobs(plain.len() as u64, 32);
    assert_eq!(jobs.len(), 4);
    let mut out = vec![0u8; plain.len()];
    // Walk the jobs in reverse: the outcome must not depend on order.
    for job in jobs.iter().rev() {
        let start = job.start as usize;
        let mut chunk = plain[start..start + job.len].to_vec();
        process_chunk(&mut chunk, &keys, &iv, 14, job.starting_block);
        out[start..start + job.len].copy_from_slice(&chunk);
    }
    assert_eq!(out, whole);
}

#[test]
fn config_selects_rounds_by_key_size() {
    assert_eq!(check_config(128, 16, 16), Ok((4, 10)));
    assert_eq!(check_config(192, 24, 16), Ok((6, 12)));
    assert_eq!(check_config(256, 32, 16), Ok((8, 14)));
}

#[test]
fn config_rejects_unsupported_key_size() {
    assert_eq!(check_config(64, 8, 16), Err(ConfigError::UnsupportedKeySize));
    assert_eq!(check_config(0, 0, 16), Err(ConfigError::UnsupportedKeySize));
    assert_eq!(
        check_config(255, 32, 16),
        Err(ConfigError::UnsupportedKeySize)
    );
}

#[test]
fn config_rejects_wrong_key_length() {
    assert_eq!(
        check_config(128, 24, 16),
        Err(ConfigError::KeyLengthMismatch)
    );
    assert_eq!(
        check_config(256, 16, 16),
        Err(ConfigError::KeyLengthMismatch)
    );
}

#[test]
fn config_rejects_wrong_iv_length() {
    assert_eq!(check_config(128, 16, 0), Err(ConfigError::IvLengthMismatch));
    assert_eq!(
        check_config(192, 24, 15),
        Err(ConfigError::IvLengthMismatch)
    );
}

#[test]
fn plan_partitions_file_exactly() {
    let jobs = plan_jobs(100, 32);
    assert_eq!(jobs.len(), 4);
    let starts: Vec<u64> = jobs.iter().map(|j| j.start).collect();
    assert_eq!(starts, vec![0, 32, 64, 96]);
    let lens: Vec<usize> = jobs.iter().map(|j| j.len).collect();
    assert_eq!(lens, vec![32, 32, 32, 4]);
    let blocks: Vec<u64> = jobs.iter().map(|j| j.starting_block).collect();
    assert_eq!(blocks, vec![0, 2, 4, 6]);
    for (k, job) in jobs.iter().enumerate() {
        assert_eq!(job.chunk_id, k);
    }
}

#[test]
fn plan_of_empty_file_is_empty() {
    let jobs = plan_jobs(0, 1024);
    assert_eq!(jobs.len(), 0);
}

#[test]
fn plan_of_exact_multiple_has_full_chunks() {
    let jobs = plan_jobs(64, 32);
    assert_eq!(jobs.len(), 2);
    assert_eq!(jobs[1].start, 32);
    assert_eq!(jobs[1].len, 32);
    assert_eq!(jobs[1].starting_block, 2);
}

#[test]
fn messages_carry_jobs() {
    let jobs = plan_jobs(40, 16);
    let msg = Message::NewJob(jobs[1]);
    match msg {
        Message::NewJob(job) => {
            assert_eq!(job.start, 16);
            assert_eq!(job.len, 16);
        }
        Message::Terminate => panic!("expected a job"),
    }
    assert!(matches!(Message::Terminate, Message::Terminate));
}
