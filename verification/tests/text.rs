use audio_split::text::{is_control, is_whitespace};

#[test]
fn white_space_is_that_of_char() {
    for u in 0..=0x10ffffu32 {
        if let Some(c) = char::from_u32(u) {
            assert_eq!(is_whitespace(c), c.is_whitespace(), "{u:x}");
        }
    }
}

#[test]
fn control_characters_are_those_of_char() {
    for u in 0..=0x10ffffu32 {
        if let Some(c) = char::from_u32(u) {
            assert_eq!(is_control(c), c.is_control(), "{u:x}");
        }
    }
}
