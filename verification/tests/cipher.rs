use srun::cipher::{
    decipher, decrypt, derive_key, encipher, encrypt, frame, unframe, Block, Key, DELTA,
};

fn counting_key() -> Key {
    Key { k0: 0x0001_0203, k1: 0x0405_0607, k2: 0x0809_0a0b, k3: 0x0c0d_0e0f }
}

fn zero_key() -> Key {
    Key { k0: 0, k1: 0, k2: 0, k3: 0 }
}

#[test]
fn encipher_gives_the_published_answers_for_the_counting_key() {
    let key = counting_key();
    assert_eq!(
        encipher(Block { v0: 0x4142_4344, v1: 0x4546_4748 }, &key, 32),
        Block { v0: 0x497d_f3d0, v1: 0x7261_2cb5 }
    );
    assert_eq!(
        encipher(Block { v0: 0x4141_4141, v1: 0x4141_4141 }, &key, 32),
        Block { v0: 0xe78f_2d13, v1: 0x7443_41d8 }
    );
    assert_eq!(
        encipher(Block { v0: 0x5a5b_6e27, v1: 0x8948_d77f }, &key, 32),
        Block { v0: 0x4141_4141, v1: 0x4141_4141 }
    );
}

#[test]
fn encipher_gives_the_published_answers_for_the_zero_key() {
    let key = zero_key();
    assert_eq!(
        encipher(Block { v0: 0x4142_4344, v1: 0x4546_4748 }, &key, 32),
        Block { v0: 0xa039_0589, v1: 0xf8b8_efa5 }
    );
    assert_eq!(
        encipher(Block { v0: 0x4141_4141, v1: 0x4141_4141 }, &key, 32),
        Block { v0: 0xed23_375a, v1: 0x821a_8c2d }
    );
    assert_eq!(
        encipher(Block { v0: 0x70e1_225d, v1: 0x6e4e_7655 }, &key, 32),
        Block { v0: 0x4141_4141, v1: 0x4141_4141 }
    );
}

#[test]
fn one_cycle_is_two_half_rounds() {
    let key = Key { k0: 3, k1: 4, k2: 5, k3: 6 };
    assert_eq!(encipher(Block { v0: 1, v1: 2 }, &key, 1), Block { v0: 0x22, v1: 0x9e37_7bfe });
    assert_eq!(DELTA, 0x9e37_79b9);
}

#[test]
fn no_cycle_leaves_the_block() {
    let block = Block { v0: 0xdead_beef, v1: 7 };
    assert_eq!(encipher(block, &counting_key(), 0), block);
    assert_eq!(decipher(block, &counting_key(), 0), block);
}

#[test]
fn decipher_undoes_encipher() {
    let key = counting_key();
    assert_eq!(
        decipher(Block { v0: 0x497d_f3d0, v1: 0x7261_2cb5 }, &key, 32),
        Block { v0: 0x4142_4344, v1: 0x4546_4748 }
    );
    for rounds in [0u32, 1, 2, 6, 32, 64] {
        for seed in [0u32, 1, 0x8000_0000, 0xffff_ffff, 0x1234_5678] {
            let block = Block { v0: seed, v1: seed.wrapping_mul(0x9e37_79b1).wrapping_add(rounds) };
            assert_eq!(decipher(encipher(block, &key, rounds), &key, rounds), block);
        }
    }
}

#[test]
fn key_word_takes_the_last_word_above_two() {
    let key = Key { k0: 10, k1: 11, k2: 12, k3: 13 };
    assert_eq!(key.word(0), 10);
    assert_eq!(key.word(1), 11);
    assert_eq!(key.word(2), 12);
    assert_eq!(key.word(3), 13);
    assert_eq!(key.word(9), 13);
}

#[test]
fn short_token_is_filled_with_zeros() {
    assert_eq!(
        derive_key(b"abc123"),
        Key { k0: 0x3163_6261, k1: 0x0000_3332, k2: 0, k3: 0 }
    );
    assert_eq!(derive_key(b""), Key { k0: 0, k1: 0, k2: 0, k3: 0 });
}

#[test]
fn long_token_is_cut_after_sixteen_bytes() {
    let key = Key { k0: 0x3332_3130, k1: 0x3736_3534, k2: 0x6261_3938, k3: 0x6665_6463 };
    assert_eq!(derive_key(b"0123456789abcdefXYZ"), key);
    assert_eq!(derive_key(b"0123456789abcdef"), key);
}

#[test]
fn frame_counts_the_bytes_of_the_last_block() {
    assert_eq!(frame(b"hello"), vec![6, b'h', b'e', b'l', b'l', b'o', 0, 0]);
    assert_eq!(frame(b""), vec![1, 0, 0, 0, 0, 0, 0, 0]);
    assert_eq!(frame(b"1234567"), b"\x081234567".to_vec());
    assert_eq!(frame(b"12345678"), b"\x0112345678\0\0\0\0\0\0\0".to_vec());
}

#[test]
fn unframe_gives_the_message_back() {
    for n in 0usize..40 {
        let message: Vec<u8> = (0..n).map(|i| (i * 7 + 1) as u8).collect();
        let framed = frame(&message);
        assert_eq!(framed.len() % 8, 0);
        assert_eq!(framed.len(), n + 8 - n % 8);
        assert_eq!(unframe(&framed), Some(message));
    }
}

#[test]
fn unframe_refuses_what_is_no_frame() {
    assert_eq!(unframe(b""), None);
    assert_eq!(unframe(b"\x01234"), None);
    assert_eq!(unframe(&[0, 0, 0, 0, 0, 0, 0, 0]), None);
    assert_eq!(unframe(&[9, 0, 0, 0, 0, 0, 0, 0]), None);
    assert_eq!(unframe(&[2, b'a', 1, 0, 0, 0, 0, 0]), None);
    assert_eq!(unframe(&[2, b'a', 0, 0, 0, 0, 0, 1]), None);
    assert_eq!(unframe(&[2, b'a', 0, 0, 0, 0, 0, 0]), Some(vec![b'a']));
}

#[test]
fn encrypt_gives_the_known_ciphertext() {
    let key = derive_key(b"abc123");
    assert_eq!(encrypt(b"hello", &key, 32), vec![0x6c, 0xa9, 0xdf, 0x0f, 0x45, 0xe9, 0xc0, 0x78]);
}

#[test]
fn encrypt_with_no_cycle_is_the_frame() {
    let key = derive_key(b"abc123");
    assert_eq!(encrypt(b"hello", &key, 0), frame(b"hello"));
}

#[test]
fn decrypt_undoes_encrypt() {
    let key = derive_key(b"some token");
    for n in 0usize..50 {
        let message: Vec<u8> = (0..n).map(|i| (i * 31 + n) as u8).collect();
        for rounds in [1u32, 32] {
            let cipher = encrypt(&message, &key, rounds);
            assert_eq!(cipher.len(), n + 8 - n % 8);
            assert_eq!(decrypt(&cipher, &key, rounds), Some(message.clone()));
        }
    }
}

#[test]
fn decrypt_refuses_a_broken_length() {
    let key = derive_key(b"abc123");
    assert_eq!(decrypt(b"", &key, 32), None);
    assert_eq!(decrypt(&[0x6c, 0xa9, 0xdf, 0x0f, 0x45, 0xe9, 0xc0], &key, 32), None);
}

#[test]
fn another_key_does_not_open_the_message() {
    let cipher = encrypt(b"hello", &derive_key(b"abc123"), 32);
    assert_ne!(decrypt(&cipher, &derive_key(b"abc124"), 32), Some(b"hello".to_vec()));
    assert_ne!(decrypt(&cipher, &derive_key(b"abc123"), 31), Some(b"hello".to_vec()));
}
