use vanity_search::base58::to_base58;

const ALPHABET: &str = "123456789ABCDEFGHJKLMNPQRSTUVWXYZabcdefghijkmnopqrstuvwxyz";

#[test]
fn encode_empty_is_empty() {
    assert_eq!(to_base58(&[]), "");
}

#[test]
fn encode_leading_zeros_shape() {
    // two leading zero bytes give exactly two '1's, then the tail's encoding
    let s = to_base58(&[0, 0, 5]);
    assert_eq!(&s[..2], "11");
    assert_ne!(&s[2..3], "1");
    assert_eq!(s, format!("11{}", to_base58(&[5])));
}

#[test]
fn encode_single_values() {
    assert_eq!(to_base58(&[0]), "1");
    assert_eq!(to_base58(&[1]), "2");
    assert_eq!(to_base58(&[57]), "z");
    assert_eq!(to_base58(&[58]), "21");
    assert_eq!(to_base58(&[255]), "5Q");
}

#[test]
fn encode_known_vectors() {
    assert_eq!(to_base58(&[0x61]), "2g");
    assert_eq!(to_base58(&[0x62, 0x62, 0x62]), "a3gV");
    assert_eq!(to_base58(&[0x63, 0x63, 0x63]), "aPEr");
    assert_eq!(to_base58(&[0x51, 0x6b, 0x6f, 0xcd, 0x0f]), "ABnLTmg");
    assert_eq!(to_base58(&[0x57, 0x2e, 0x47, 0x94]), "3EFU7m");
    assert_eq!(to_base58(&[0x10, 0xc8, 0x51, 0x1e]), "Rt5zm");
    assert_eq!(to_base58(b"Hello World!"), "2NEpo7TZRRrLZSi2U");
}

#[test]
fn encode_all_zero_input() {
    assert_eq!(to_base58(&[0u8; 10]), "1111111111");
}

#[test]
fn encode_is_deterministic() {
    let input: Vec<u8> = (0u8..=255).collect();
    let a = to_base58(&input);
    let b = to_base58(&input);
    assert_eq!(a, b);
}

#[test]
fn encode_uses_only_alphabet_symbols() {
    let inputs: [&[u8]; 5] = [
        &[],
        &[0, 0, 0, 7],
        &[255, 254, 253],
        b"some sample bytes",
        &[0, 128, 0, 64, 255],
    ];
    for input in inputs {
        for c in to_base58(input).chars() {
            assert!(ALPHABET.contains(c), "symbol {c:?} outside the alphabet");
        }
    }
}

#[test]
fn encode_distinguishes_leading_zero_lengths() {
    // the '1' prefix preserves the length information the value drops
    assert_ne!(to_base58(&[0, 1]), to_base58(&[1]));
    assert_eq!(to_base58(&[0, 1]), "12");
}
