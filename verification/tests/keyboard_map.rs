use cloud_vmm::devices::keyboard_map::{KeyboardMap, ScanCode};

#[test]
fn plain_keys() {
    assert_eq!(KeyboardMap::scan_codes(0x61, true), vec![0x1E]);
    assert_eq!(KeyboardMap::scan_codes(0x30, true), vec![0x0B]);
    assert_eq!(KeyboardMap::scan_codes(0x20, true), vec![0x39]);
    assert_eq!(KeyboardMap::scan_codes(0xFFEA, true), vec![0xB8]);
    assert_eq!(KeyboardMap::scan_codes(0xFFC9, true), vec![0x46]);
    assert_eq!(KeyboardMap::scan_codes(0xFF95, false), vec![0xF0, 0x4C]);
}

#[test]
fn unknown_keys_have_no_codes() {
    assert_eq!(KeyboardMap::scan_codes(0, true), Vec::<u8>::new());
    assert_eq!(KeyboardMap::scan_codes(0xFFFE, false), Vec::<u8>::new());
    assert_eq!(KeyboardMap::lookup(0x21), None);
}

#[test]
fn release_inserts_break() {
    for key in [0x71u32, 0xFF51, 0xFF8D, 0xFF0D] {
        let mut codes = KeyboardMap::scan_codes(key, true);
        let make = codes.pop().unwrap();
        codes.push(0xF0);
        codes.push(make);
        assert_eq!(KeyboardMap::scan_codes(key, false), codes);
    }
}

#[test]
fn letters_ignore_case() {
    for letter in 0x61u32..=0x7A {
        assert_eq!(
            KeyboardMap::scan_codes(letter, true),
            KeyboardMap::scan_codes(letter - 0x20, true)
        );
        assert_eq!(KeyboardMap::scan_codes(letter, true).len(), 1);
    }
}

#[test]
fn extended_keys() {
    for key in [
        0xFF50u32, 0xFF51, 0xFF52, 0xFF53, 0xFF54, 0xFF55, 0xFF56, 0xFF57, 0xFF63, 0xFF67, 0xFFFF,
        0xFF8D, 0xFF6F,
    ] {
        assert_eq!(KeyboardMap::scan_codes(key, true)[0], 0xE0);
    }
    assert_eq!(
        KeyboardMap::lookup(0xFFFF),
        Some(ScanCode { make: 0x53, extended: true })
    );
    assert_eq!(
        KeyboardMap::lookup(0xFFAE),
        Some(ScanCode { make: 0x53, extended: false })
    );
}

#[test]
fn at_most_three_bytes() {
    for key in 0xFF00u32..=0xFFFF {
        assert!(KeyboardMap::scan_codes(key, false).len() <= 3);
        assert_eq!(
            KeyboardMap::scan_codes(key, true).is_empty(),
            KeyboardMap::lookup(key).is_none()
        );
    }
}
