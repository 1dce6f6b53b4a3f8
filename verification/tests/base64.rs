use battle_net_oauth::base64::encode;

#[test]
fn encodes_the_empty_input_as_the_empty_text() {
    assert_eq!(encode(b""), "");
}

#[test]
fn pads_a_last_group_of_one_byte_with_two_signs() {
    assert_eq!(encode(b"f"), "Zg==");
    assert_eq!(encode(b"foob"), "Zm9vYg==");
}

#[test]
fn pads_a_last_group_of_two_bytes_with_one_sign() {
    assert_eq!(encode(b"fo"), "Zm8=");
    assert_eq!(encode(b"fooba"), "Zm9vYmE=");
}

#[test]
fn encodes_whole_groups_without_padding() {
    assert_eq!(encode(b"foo"), "Zm9v");
    assert_eq!(encode(b"foobar"), "Zm9vYmFy");
}

#[test]
fn uses_every_character_of_the_alphabet() {
    let mut bytes: Vec<u8> = Vec::new();
    let mut group: u32 = 0;
    while group < 16 {
        let a = 4 * group;
        let word = (a << 18) | ((a + 1) << 12) | ((a + 2) << 6) | (a + 3);
        bytes.push((word >> 16) as u8);
        bytes.push((word >> 8) as u8);
        bytes.push(word as u8);
        group += 1;
    }
    assert_eq!(
        encode(&bytes),
        "ABCDEFGHIJKLMNOPQRSTUVWXYZabcdefghijklmnopqrstuvwxyz0123456789+/"
    );
}

#[test]
fn encodes_bytes_with_the_high_bit_set() {
    assert_eq!(encode(&[0xff]), "/w==");
    assert_eq!(encode(&[0xfb, 0xff]), "+/8=");
    assert_eq!(encode(&[0xff, 0xff, 0xff]), "////");
    assert_eq!(encode(&[0, 0, 0]), "AAAA");
    assert_eq!(encode(&[0]), "AA==");
}

#[test]
fn the_text_has_four_characters_for_every_three_bytes() {
    let mut bytes: Vec<u8> = Vec::new();
    let mut n: usize = 0;
    while n < 50 {
        assert_eq!(encode(&bytes).len(), (n + 2) / 3 * 4);
        bytes.push(n as u8);
        n += 1;
    }
}
