use my_kernel::keyboard::{describe_scancode, Key};

#[test]
fn named_keys() {
    assert_eq!(describe_scancode(0x01), Some(Key::Escape));
    assert_eq!(describe_scancode(0x39), Some(Key::Space));
    assert_eq!(describe_scancode(0x1C), Some(Key::Enter));
}

#[test]
fn letter_keys() {
    let table: [(u8, u8); 26] = [
        (0x1E, b'A'), (0x30, b'B'), (0x2E, b'C'), (0x20, b'D'), (0x12, b'E'), (0x21, b'F'),
        (0x22, b'G'), (0x23, b'H'), (0x17, b'I'), (0x24, b'J'), (0x25, b'K'), (0x26, b'L'),
        (0x32, b'M'), (0x31, b'N'), (0x18, b'O'), (0x19, b'P'), (0x10, b'Q'), (0x13, b'R'),
        (0x1F, b'S'), (0x14, b'T'), (0x16, b'U'), (0x2F, b'V'), (0x11, b'W'), (0x2D, b'X'),
        (0x15, b'Y'), (0x2C, b'Z'),
    ];
    for (code, letter) in table {
        assert_eq!(describe_scancode(code), Some(Key::Letter(letter)));
    }
}

#[test]
fn other_scancodes_are_not_named() {
    let named = 29;
    let count = (0u8..=255).filter(|c| describe_scancode(*c).is_some()).count();
    assert_eq!(count, named);
    assert_eq!(describe_scancode(0x02), None);
    assert_eq!(describe_scancode(0x9E), None);
    assert_eq!(describe_scancode(0x00), None);
}

#[test]
fn no_two_scancodes_name_the_same_key() {
    let named: Vec<Key> = (0u8..=255).filter_map(describe_scancode).collect();
    for (i, a) in named.iter().enumerate() {
        for b in &named[i + 1..] {
            assert_ne!(a, b);
        }
    }
}
