use tailsend::session::event::{format_transfer_id, parse_transfer_id};

#[test]
fn transfer_identifier_preserves_padding_and_lowercase() {
    assert_eq!(
        format_transfer_id([
            0x00, 0x01, 0x0a, 0x10, 0x22, 0x33, 0x44, 0x55, 0x66, 0x77, 0x88, 0x99, 0xaa, 0xbb,
            0xcc, 0xff,
        ]),
        "00010a102233445566778899aabbccff",
    );
}

#[test]
fn transfer_identifier_parsing_preserves_accepted_input() {
    let id = [0x0a; 16];
    assert_eq!(parse_transfer_id(&format_transfer_id(id)), Some(id));
    assert_eq!(
        parse_transfer_id("000102030405060708090A0B0C0D0E0F"),
        Some([0, 1, 2, 3, 4, 5, 6, 7, 8, 9, 10, 11, 12, 13, 14, 15])
    );
    // The radix parser also accepts a leading '+' in each pair.
    assert_eq!(parse_transfer_id(&"+1".repeat(16)), Some([1; 16]));
    for invalid in [
        "",
        &"0".repeat(31),
        &"0".repeat(33),
        &"é".repeat(16),
        &"gg".repeat(16),
    ] {
        assert_eq!(parse_transfer_id(invalid), None, "{invalid:?}");
    }
}

#[test]
fn every_identifier_survives_formatting_and_parsing() {
    for seed in [0u8, 1, 0x7f, 0x80, 0xfe, 0xff] {
        let mut id = [0u8; 16];
        for (i, b) in id.iter_mut().enumerate() {
            *b = seed.wrapping_add((i as u8).wrapping_mul(17));
        }
        let text = format_transfer_id(id);
        assert_eq!(text.len(), 32);
        assert_eq!(text, text.to_lowercase());
        assert_eq!(parse_transfer_id(&text), Some(id));
    }
}
