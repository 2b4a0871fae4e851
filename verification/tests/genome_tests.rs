use kitties::genome::{combine, random_value};

#[test]
fn combine_multiplexes_each_byte() {
    let a: [u8; 16] = [0xAB; 16];
    let b: [u8; 16] = [0x34; 16];
    let mut sel: [u8; 16] = [0x00; 16];
    sel[0] = 0xFF;
    sel[1] = 0xF0;
    let child = combine(&a, &b, &sel);
    assert_eq!(child[0], 0xAB);
    assert_eq!(child[1], (0xF0 & 0xAB) | (0x0F & 0x34));
    assert_eq!(child[1], 0xA4);
    for i in 2..16 {
        assert_eq!(child[i], 0x34);
    }
}

#[test]
fn all_ones_selector_copies_the_first_parent() {
    let a: [u8; 16] = [1, 2, 3, 4, 5, 6, 7, 8, 9, 10, 11, 12, 13, 14, 15, 16];
    let b: [u8; 16] = [0xEE; 16];
    assert_eq!(combine(&a, &b, &[0xFF; 16]), a);
    assert_eq!(combine(&a, &b, &[0x00; 16]), b);
}

#[test]
fn random_value_is_deterministic_in_its_inputs() {
    let seed: [u8; 32] = [42; 32];
    let first = random_value(&seed, 7, 3);
    let second = random_value(&seed, 7, 3);
    assert_eq!(first, second);
    let other_nonce = random_value(&seed, 7, 4);
    assert_ne!(first, other_nonce);
}
