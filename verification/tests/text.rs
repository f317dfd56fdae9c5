use broquest::text::char_is_whitespace;

#[test]
fn white_space_matches_std_for_every_character() {
    for n in 0u32..=0x10FFFF {
        if let Some(c) = char::from_u32(n) {
            assert_eq!(char_is_whitespace(c), c.is_whitespace(), "U+{:04X}", n);
        }
    }
}
