use eolib::encrypt::{
    decrypt_packet, encrypt_packet, server_verification_hash, swap_multiples, valid_for_encryption,
};

#[test]
fn swap_multiples_of_three() {
    let mut bytes = [10, 21, 27];
    swap_multiples(&mut bytes, 3);
    assert_eq!(bytes, [10, 27, 21]);
}

#[test]
fn swap_multiples_reverses_each_run() {
    let mut bytes = [6, 12, 18, 1, 24, 30, 2, 36];
    swap_multiples(&mut bytes, 6);
    assert_eq!(bytes, [18, 12, 6, 1, 30, 24, 2, 36]);
}

#[test]
fn swap_multiples_reverses_a_run_of_the_whole() {
    let mut bytes = [7, 14, 21, 28];
    swap_multiples(&mut bytes, 7);
    assert_eq!(bytes, [28, 21, 14, 7]);
}

#[test]
fn swap_multiples_counts_zero_as_a_multiple() {
    let mut bytes = [0, 9, 5, 0];
    swap_multiples(&mut bytes, 9);
    assert_eq!(bytes, [9, 0, 5, 0]);
}

#[test]
fn swap_multiples_leaves_what_has_no_run() {
    let mut bytes = [1, 6, 2, 12, 3];
    swap_multiples(&mut bytes, 6);
    assert_eq!(bytes, [1, 6, 2, 12, 3]);
    let mut bytes: [u8; 0] = [];
    swap_multiples(&mut bytes, 6);
    assert_eq!(bytes, []);
    let mut bytes = [12];
    swap_multiples(&mut bytes, 6);
    assert_eq!(bytes, [12]);
}

#[test]
fn swap_multiples_of_one_reverses_everything() {
    let mut bytes = [1, 2, 3, 4, 5];
    swap_multiples(&mut bytes, 1);
    assert_eq!(bytes, [5, 4, 3, 2, 1]);
}

#[test]
fn swap_multiples_twice_gives_the_bytes_back() {
    for multiple in 1..=13u8 {
        let plain: Vec<u8> = (0..64u32).map(|i| ((i * i * 7 + i * 3) % 256) as u8).collect();
        let mut bytes = plain.clone();
        swap_multiples(&mut bytes, multiple);
        swap_multiples(&mut bytes, multiple);
        assert_eq!(bytes, plain);
    }
}

#[test]
fn valid_for_encryption_passes_over_short_and_marked_packets() {
    assert!(!valid_for_encryption(&[]));
    assert!(!valid_for_encryption(&[1]));
    assert!(!valid_for_encryption(&[1, 2]));
    assert!(!valid_for_encryption(&[255, 255, 1]));
    assert!(valid_for_encryption(&[255, 1, 255]));
    assert!(valid_for_encryption(&[1, 255, 255]));
    assert!(valid_for_encryption(&[1, 2, 3]));
}

#[test]
fn encrypt_packet_of_hello_world() {
    let mut buf = [21, 18, 145, 72, 101, 108, 108, 111, 44, 32, 119, 111, 114, 108, 100, 33];
    encrypt_packet(&mut buf, 6);
    assert_eq!(
        buf,
        [149, 161, 146, 228, 17, 242, 200, 236, 229, 239, 236, 247, 236, 160, 239, 172]
    );
}

#[test]
fn decrypt_packet_of_hello_world() {
    let mut buf = [149, 161, 146, 228, 17, 242, 200, 236, 229, 239, 236, 247, 236, 160, 239, 172];
    decrypt_packet(&mut buf, 6);
    assert_eq!(buf, [21, 18, 145, 72, 101, 108, 108, 111, 44, 32, 119, 111, 114, 108, 100, 33]);
}

#[test]
fn encrypt_packet_weaves_and_flips() {
    // No byte is a multiple of 7, so nothing is swapped; 0 and 128 are not
    // flipped.
    let mut buf = [1, 2, 3, 0, 128];
    encrypt_packet(&mut buf, 7);
    assert_eq!(buf, [129, 128, 130, 0, 131]);
    let mut buf = [1, 2, 3, 4, 5, 6];
    encrypt_packet(&mut buf, 7);
    assert_eq!(buf, [129, 134, 130, 133, 131, 132]);
}

#[test]
fn decrypt_packet_flips_and_unweaves() {
    let mut buf = [129, 128, 130, 0, 131];
    decrypt_packet(&mut buf, 7);
    assert_eq!(buf, [1, 2, 3, 0, 128]);
    let mut buf = [129, 134, 130, 133, 131, 132];
    decrypt_packet(&mut buf, 7);
    assert_eq!(buf, [1, 2, 3, 4, 5, 6]);
}

#[test]
fn packet_cipher_passes_over_short_and_marked_packets() {
    for multiple in [0u8, 6, 12] {
        let mut buf = [6, 12];
        encrypt_packet(&mut buf, multiple);
        assert_eq!(buf, [6, 12]);
        decrypt_packet(&mut buf, multiple);
        assert_eq!(buf, [6, 12]);
        let mut buf = [255, 255, 6, 12, 18];
        encrypt_packet(&mut buf, multiple);
        assert_eq!(buf, [255, 255, 6, 12, 18]);
        decrypt_packet(&mut buf, multiple);
        assert_eq!(buf, [255, 255, 6, 12, 18]);
        let mut buf: [u8; 0] = [];
        encrypt_packet(&mut buf, multiple);
        decrypt_packet(&mut buf, multiple);
        assert_eq!(buf, []);
    }
}

#[test]
fn decrypt_packet_inverts_encrypt_packet() {
    for multiple in 6..=12u8 {
        for len in 3..40usize {
            for seed in 0..8u32 {
                let plain: Vec<u8> = (0..len as u32)
                    .map(|i| ((i * i * 11 + i * (seed + 3) + seed * 29) % 251) as u8)
                    .collect();
                let mut buf = plain.clone();
                encrypt_packet(&mut buf, multiple);
                if buf[0] == 255 && buf[1] == 255 {
                    continue;
                }
                decrypt_packet(&mut buf, multiple);
                assert_eq!(buf, plain);
            }
        }
    }
}

#[test]
fn a_cipher_text_that_starts_like_a_marked_packet_is_not_decrypted() {
    let mut buf = [127, 1, 127];
    encrypt_packet(&mut buf, 6);
    assert_eq!(buf, [255, 255, 129]);
    decrypt_packet(&mut buf, 6);
    assert_eq!(buf, [255, 255, 129]);
}

#[test]
fn server_verification_hash_of_123456() {
    assert_eq!(server_verification_hash(123456), 300733);
}

#[test]
fn server_verification_hash_of_small_challenges() {
    // 110905 + (1 % 9 + 1) * ((11092004 - 1) % ((1 % 11 + 1) * 119)) * 119 + 1 % 2004
    assert_eq!(server_verification_hash(0), 110905 + 2 * (11092003 % 238) * 119 + 1);
    assert_eq!(server_verification_hash(1), 110905 + 3 * (11092002 % 357) * 119 + 2);
    assert_eq!(server_verification_hash(-1), 110905 + (11092004 % 119) * 119);
}

#[test]
fn server_verification_hash_is_negative_for_some_large_challenge() {
    // 11092004 - 20000000 has the remainder -846 by 10 * 119.
    let hash = server_verification_hash(19_999_999);
    assert_eq!(hash, 110905 + 3 * (-846) * 119 + 20_000_000 % 2004);
    assert_eq!(hash, -191037);
    assert!(server_verification_hash(2_000_000_000) < 0);
}

#[test]
fn server_verification_hash_takes_remainders_as_the_machine_does() {
    // -21 + 1 = -20 has the remainders -2 by 9 and -9 by 11, so that the
    // modulus is -8 * 119.
    let expected = 110905 + (-2 + 1) * (11092024 % (8 * 119)) * 119 + (-20);
    assert_eq!(server_verification_hash(-21), expected);
}

#[test]
fn server_verification_hash_is_not_negative_in_the_safe_range() {
    for challenge in (0..11_092_004).step_by(9973) {
        assert!(server_verification_hash(challenge) >= 110905);
    }
    assert!(server_verification_hash(11_092_003) >= 110905);
}
