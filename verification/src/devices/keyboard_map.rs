//! Translation of X11 keysyms (US layout) to PS/2 scan codes.

use vstd::prelude::*;

verus! {

/// First byte of the codes of an extended key.
pub const PREFIX_EXTENDED: u8 = 0xE0;

/// Byte that announces the release of a key.
pub const PREFIX_BREAK: u8 = 0xF0;

/// The code of one key: the byte sent when it goes down, and whether the key
/// belongs to the extended set, whose codes start with [`PREFIX_EXTENDED`].
#[derive(Debug, Clone, Copy, PartialEq, Eq, Structural)]
pub struct ScanCode {
    pub make: u8,
    pub extended: bool,
}

/// The keysym without its case: capital letters become small ones.
pub open spec fn fold_case(key: u32) -> u32 {
    if 0x41 <= key <= 0x5A {
        (key + 0x20) as u32
    } else {
        key
    }
}

/// Codes of the small letters `a` to `z`.
pub open spec fn letter_code(key: u32) -> Option<u8> {
    match key {
        // top row: q w e r t y u i o p
        0x71 => Some(0x10u8),
        0x77 => Some(0x11u8),
        0x65 => Some(0x12u8),
        0x72 => Some(0x13u8),
        0x74 => Some(0x14u8),
        0x79 => Some(0x15u8),
        0x75 => Some(0x16u8),
        0x69 => Some(0x17u8),
        0x6F => Some(0x18u8),
        0x70 => Some(0x19u8),
        // home row: a s d f g h j k l
        0x61 => Some(0x1Eu8),
        0x73 => Some(0x1Fu8),
        0x64 => Some(0x20u8),
        0x66 => Some(0x21u8),
        0x67 => Some(0x22u8),
        0x68 => Some(0x23u8),
        0x6A => Some(0x24u8),
        0x6B => Some(0x25u8),
        0x6C => Some(0x26u8),
        // bottom row: z x c v b n m
        0x7A => Some(0x2Cu8),
        0x78 => Some(0x2Du8),
        0x63 => Some(0x2Eu8),
        0x76 => Some(0x2Fu8),
        0x62 => Some(0x30u8),
        0x6E => Some(0x31u8),
        0x6D => Some(0x32u8),
        _ => None,
    }
}

/// Codes of the digits: `1` to `9` count up from 2, and `0` follows `9`.
pub open spec fn digit_code(key: u32) -> Option<u8> {
    if key == 0x30 {
        Some(0x0Bu8)
    } else if 0x31 <= key <= 0x39 {
        Some((key - 0x31 + 0x02) as u8)
    } else {
        None
    }
}

/// Codes of the space bar and of the punctuation keys.
pub open spec fn punctuation_code(key: u32) -> Option<u8> {
    match key {
        0x20 => Some(0x39u8),
        0x27 => Some(0x28u8),
        0x2C => Some(0x33u8),
        0x2D => Some(0x0Cu8),
        0x2E => Some(0x34u8),
        0x2F => Some(0x35u8),
        0x3B => Some(0x27u8),
        0x3D => Some(0x0Du8),
        0x5B => Some(0x1Au8),
        0x5C => Some(0x2Bu8),
        0x5D => Some(0x1Bu8),
        0x60 => Some(0x29u8),
        _ => None,
    }
}

/// Codes of the editing and modifier keys.
pub open spec fn control_code(key: u32) -> Option<u8> {
    match key {
        // BackSpace, Tab, Return, Escape
        0xFF08 => Some(0x0Eu8),
        0xFF09 => Some(0x0Fu8),
        0xFF0D => Some(0x1Cu8),
        0xFF1B => Some(0x01u8),
        // Shift_L, Shift_R, Control_L, Control_R
        0xFFE1 => Some(0x2Au8),
        0xFFE2 => Some(0x36u8),
        0xFFE3 => Some(0x1Du8),
        0xFFE4 => Some(0x1Du8),
        // Caps_Lock, Alt_L, Alt_R
        0xFFE5 => Some(0x3Au8),
        0xFFE9 => Some(0x38u8),
        0xFFEA => Some(0xB8u8),
        _ => None,
    }
}

/// Codes of the function keys: F1 to F12 count up from 0x3B.
pub open spec fn function_code(key: u32) -> Option<u8> {
    if 0xFFBE <= key <= 0xFFC9 {
        Some((key - 0xFFBE + 0x3B) as u8)
    } else {
        None
    }
}

/// Codes of the keypad keys that need no prefix.
pub open spec fn keypad_code(key: u32) -> Option<u8> {
    match key {
        // 7 8 9, 4 5 6, 1 2 3, 0 and the decimal point
        0xFF97 => Some(0x47u8),
        0xFF98 => Some(0x48u8),
        0xFF99 => Some(0x49u8),
        0xFF94 => Some(0x4Bu8),
        0xFF95 => Some(0x4Cu8),
        0xFF96 => Some(0x4Du8),
        0xFF91 => Some(0x4Fu8),
        0xFF92 => Some(0x50u8),
        0xFF93 => Some(0x51u8),
        0xFF90 => Some(0x52u8),
        0xFFAE => Some(0x53u8),
        // multiply, add, subtract
        0xFF6A => Some(0x37u8),
        0xFF6B => Some(0x4Eu8),
        0xFF6D => Some(0x4Au8),
        _ => None,
    }
}

/// Codes of the extended keys: the navigation cluster, KP_Enter and KP_Divide.
pub open spec fn extended_code(key: u32) -> Option<u8> {
    match key {
        // Home, Up, Prior
        0xFF50 => Some(0x47u8),
        0xFF52 => Some(0x48u8),
        0xFF55 => Some(0x49u8),
        // Left, Right
        0xFF51 => Some(0x4Bu8),
        0xFF53 => Some(0x4Du8),
        // End, Down, Next
        0xFF57 => Some(0x4Fu8),
        0xFF54 => Some(0x50u8),
        0xFF56 => Some(0x51u8),
        // Insert, and the two keysyms of Delete
        0xFF63 => Some(0x52u8),
        0xFFFF => Some(0x53u8),
        0xFF67 => Some(0x53u8),
        // KP_Enter, KP_Divide
        0xFF8D => Some(0x1Cu8),
        0xFF6F => Some(0x35u8),
        _ => None,
    }
}

/// The first of two codes that is there.
pub open spec fn either(first: Option<u8>, second: Option<u8>) -> Option<u8> {
    if first is Some {
        first
    } else {
        second
    }
}

/// Code of a key that is not extended. The groups do not overlap.
pub open spec fn plain_code(key: u32) -> Option<u8> {
    either(
        letter_code(fold_case(key)),
        either(
            digit_code(key),
            either(
                punctuation_code(key),
                either(control_code(key), either(function_code(key), keypad_code(key))),
            ),
        ),
    )
}

/// Code of the key with the given keysym; `None` for a keysym without a key.
pub open spec fn scan_code_of(key: u32) -> Option<ScanCode> {
    match extended_code(key) {
        Some(make) => Some(ScanCode { make, extended: true }),
        None => match plain_code(key) {
            Some(make) => Some(ScanCode { make, extended: false }),
            None => None,
        },
    }
}

/// The bytes that the keyboard sends when `key` is pressed or released: the
/// extension prefix where the key needs it, the break prefix on release, and the
/// make code. Keysyms without a key send nothing.
pub open spec fn key_bytes(key: u32, pressed: bool) -> Seq<u8> {
    match scan_code_of(key) {
        None => Seq::empty(),
        Some(code) => {
            let prefix = if code.extended {
                seq![PREFIX_EXTENDED]
            } else {
                Seq::empty()
            };
            let release = if pressed {
                Seq::empty()
            } else {
                seq![PREFIX_BREAK]
            };
            prefix + release + seq![code.make]
        },
    }
}

/// The keyboard's table of keys.
pub struct KeyboardMap;

impl KeyboardMap {
    /// Looks the code of `key` up.
    pub fn lookup(key: u32) -> (code: Option<ScanCode>)
        ensures
            code == scan_code_of(key),
    {
        match key {
            // Letters.
            0x61 => Some(ScanCode { make: 0x1E, extended: false }),  // a
            0x62 => Some(ScanCode { make: 0x30, extended: false }),  // b
            0x63 => Some(ScanCode { make: 0x2E, extended: false }),  // c
            0x64 => Some(ScanCode { make: 0x20, extended: false }),  // d
            0x65 => Some(ScanCode { make: 0x12, extended: false }),  // e
            0x66 => Some(ScanCode { make: 0x21, extended: false }),  // f
            0x67 => Some(ScanCode { make: 0x22, extended: false }),  // g
            0x68 => Some(ScanCode { make: 0x23, extended: false }),  // h
            0x69 => Some(ScanCode { make: 0x17, extended: false }),  // i
            0x6A => Some(ScanCode { make: 0x24, extended: false }),  // j
            0x6B => Some(ScanCode { make: 0x25, extended: false }),  // k
            0x6C => Some(ScanCode { make: 0x26, extended: false }),  // l
            0x6D => Some(ScanCode { make: 0x32, extended: false }),  // m
            0x6E => Some(ScanCode { make: 0x31, extended: false }),  // n
            0x6F => Some(ScanCode { make: 0x18, extended: false }),  // o
            0x70 => Some(ScanCode { make: 0x19, extended: false }),  // p
            0x71 => Some(ScanCode { make: 0x10, extended: false }),  // q
            0x72 => Some(ScanCode { make: 0x13, extended: false }),  // r
            0x73 => Some(ScanCode { make: 0x1F, extended: false }),  // s
            0x74 => Some(ScanCode { make: 0x14, extended: false }),  // t
            0x75 => Some(ScanCode { make: 0x16, extended: false }),  // u
            0x76 => Some(ScanCode { make: 0x2F, extended: false }),  // v
            0x77 => Some(ScanCode { make: 0x11, extended: false }),  // w
            0x78 => Some(ScanCode { make: 0x2D, extended: false }),  // x
            0x79 => Some(ScanCode { make: 0x15, extended: false }),  // y
            0x7A => Some(ScanCode { make: 0x2C, extended: false }),  // z
            // Capital letters: the guest tracks the shift key itself.
            0x41 => Some(ScanCode { make: 0x1E, extended: false }),  // A
            0x42 => Some(ScanCode { make: 0x30, extended: false }),  // B
            0x43 => Some(ScanCode { make: 0x2E, extended: false }),  // C
            0x44 => Some(ScanCode { make: 0x20, extended: false }),  // D
            0x45 => Some(ScanCode { make: 0x12, extended: false }),  // E
            0x46 => Some(ScanCode { make: 0x21, extended: false }),  // F
            0x47 => Some(ScanCode { make: 0x22, extended: false }),  // G
            0x48 => Some(ScanCode { make: 0x23, extended: false }),  // H
            0x49 => Some(ScanCode { make: 0x17, extended: false }),  // I
            0x4A => Some(ScanCode { make: 0x24, extended: false }),  // J
            0x4B => Some(ScanCode { make: 0x25, extended: false }),  // K
            0x4C => Some(ScanCode { make: 0x26, extended: false }),  // L
            0x4D => Some(ScanCode { make: 0x32, extended: false }),  // M
            0x4E => Some(ScanCode { make: 0x31, extended: false }),  // N
            0x4F => Some(ScanCode { make: 0x18, extended: false }),  // O
            0x50 => Some(ScanCode { make: 0x19, extended: false }),  // P
            0x51 => Some(ScanCode { make: 0x10, extended: false }),  // Q
            0x52 => Some(ScanCode { make: 0x13, extended: false }),  // R
            0x53 => Some(ScanCode { make: 0x1F, extended: false }),  // S
            0x54 => Some(ScanCode { make: 0x14, extended: false }),  // T
            0x55 => Some(ScanCode { make: 0x16, extended: false }),  // U
            0x56 => Some(ScanCode { make: 0x2F, extended: false }),  // V
            0x57 => Some(ScanCode { make: 0x11, extended: false }),  // W
            0x58 => Some(ScanCode { make: 0x2D, extended: false }),  // X
            0x59 => Some(ScanCode { make: 0x15, extended: false }),  // Y
            0x5A => Some(ScanCode { make: 0x2C, extended: false }),  // Z
            // Digits.
            0x30 => Some(ScanCode { make: 0x0B, extended: false }),  // 0
            0x31 => Some(ScanCode { make: 0x02, extended: false }),  // 1
            0x32 => Some(ScanCode { make: 0x03, extended: false }),  // 2
            0x33 => Some(ScanCode { make: 0x04, extended: false }),  // 3
            0x34 => Some(ScanCode { make: 0x05, extended: false }),  // 4
            0x35 => Some(ScanCode { make: 0x06, extended: false }),  // 5
            0x36 => Some(ScanCode { make: 0x07, extended: false }),  // 6
            0x37 => Some(ScanCode { make: 0x08, extended: false }),  // 7
            0x38 => Some(ScanCode { make: 0x09, extended: false }),  // 8
            0x39 => Some(ScanCode { make: 0x0A, extended: false }),  // 9
            // Punctuation.
            0x20 => Some(ScanCode { make: 0x39, extended: false }),  // Space
            0x60 => Some(ScanCode { make: 0x29, extended: false }),  // Grave (`)
            0x2D => Some(ScanCode { make: 0x0C, extended: false }),  // Minus (-)
            0x3D => Some(ScanCode { make: 0x0D, extended: false }),  // Equals (=)
            0x5B => Some(ScanCode { make: 0x1A, extended: false }),  // Left Bracket ([)
            0x5D => Some(ScanCode { make: 0x1B, extended: false }),  // Right Bracket (])
            0x5C => Some(ScanCode { make: 0x2B, extended: false }),  // Backslash (\)
            0x3B => Some(ScanCode { make: 0x27, extended: false }),  // Semicolon (;)
            0x27 => Some(ScanCode { make: 0x28, extended: false }),  // Quote (')
            0x2C => Some(ScanCode { make: 0x33, extended: false }),  // Comma (,)
            0x2E => Some(ScanCode { make: 0x34, extended: false }),  // Period (.)
            0x2F => Some(ScanCode { make: 0x35, extended: false }),  // Slash (/)
            // Control keys.
            0xFF1B => Some(ScanCode { make: 0x01, extended: false }),  // Escape
            0xFF09 => Some(ScanCode { make: 0x0F, extended: false }),  // Tab
            0xFF0D => Some(ScanCode { make: 0x1C, extended: false }),  // Return/Enter
            0xFFE1 => Some(ScanCode { make: 0x2A, extended: false }),  // Shift_L
            0xFFE2 => Some(ScanCode { make: 0x36, extended: false }),  // Shift_R
            0xFFE3 => Some(ScanCode { make: 0x1D, extended: false }),  // Control_L
            0xFFE4 => Some(ScanCode { make: 0x1D, extended: false }),  // Control_R
            0xFFE9 => Some(ScanCode { make: 0x38, extended: false }),  // Alt_L
            0xFFEA => Some(ScanCode { make: 0xB8, extended: false }),  // Alt_R (AltGr)
            0xFFE5 => Some(ScanCode { make: 0x3A, extended: false }),  // Caps_Lock
            0xFF08 => Some(ScanCode { make: 0x0E, extended: false }),  // BackSpace
            // Navigation cluster.
            0xFFFF => Some(ScanCode { make: 0x53, extended: true }),  // Delete
            0xFF67 => Some(ScanCode { make: 0x53, extended: true }),  // Delete (alternate)
            0xFF50 => Some(ScanCode { make: 0x47, extended: true }),  // Home
            0xFF57 => Some(ScanCode { make: 0x4F, extended: true }),  // End
            0xFF55 => Some(ScanCode { make: 0x49, extended: true }),  // Prior/PageUp
            0xFF56 => Some(ScanCode { make: 0x51, extended: true }),  // Next/PageDown
            0xFF52 => Some(ScanCode { make: 0x48, extended: true }),  // Up
            0xFF54 => Some(ScanCode { make: 0x50, extended: true }),  // Down
            0xFF51 => Some(ScanCode { make: 0x4B, extended: true }),  // Left
            0xFF53 => Some(ScanCode { make: 0x4D, extended: true }),  // Right
            0xFF63 => Some(ScanCode { make: 0x52, extended: true }),  // Insert
            // Function keys.
            0xFFBE => Some(ScanCode { make: 0x3B, extended: false }),  // F1
            0xFFBF => Some(ScanCode { make: 0x3C, extended: false }),  // F2
            0xFFC0 => Some(ScanCode { make: 0x3D, extended: false }),  // F3
            0xFFC1 => Some(ScanCode { make: 0x3E, extended: false }),  // F4
            0xFFC2 => Some(ScanCode { make: 0x3F, extended: false }),  // F5
            0xFFC3 => Some(ScanCode { make: 0x40, extended: false }),  // F6
            0xFFC4 => Some(ScanCode { make: 0x41, extended: false }),  // F7
            0xFFC5 => Some(ScanCode { make: 0x42, extended: false }),  // F8
            0xFFC6 => Some(ScanCode { make: 0x43, extended: false }),  // F9
            0xFFC7 => Some(ScanCode { make: 0x44, extended: false }),  // F10
            0xFFC8 => Some(ScanCode { make: 0x45, extended: false }),  // F11
            0xFFC9 => Some(ScanCode { make: 0x46, extended: false }),  // F12
            // Keypad.
            0xFF90 => Some(ScanCode { make: 0x52, extended: false }),  // KP_0
            0xFF91 => Some(ScanCode { make: 0x4F, extended: false }),  // KP_1
            0xFF92 => Some(ScanCode { make: 0x50, extended: false }),  // KP_2
            0xFF93 => Some(ScanCode { make: 0x51, extended: false }),  // KP_3
            0xFF94 => Some(ScanCode { make: 0x4B, extended: false }),  // KP_4
            0xFF95 => Some(ScanCode { make: 0x4C, extended: false }),  // KP_5
            0xFF96 => Some(ScanCode { make: 0x4D, extended: false }),  // KP_6
            0xFF97 => Some(ScanCode { make: 0x47, extended: false }),  // KP_7
            0xFF98 => Some(ScanCode { make: 0x48, extended: false }),  // KP_8
            0xFF99 => Some(ScanCode { make: 0x49, extended: false }),  // KP_9
            0xFFAE => Some(ScanCode { make: 0x53, extended: false }),  // KP_Decimal
            0xFF8D => Some(ScanCode { make: 0x1C, extended: true }),  // KP_Enter (E0-prefixed)
            0xFF6B => Some(ScanCode { make: 0x4E, extended: false }),  // KP_Add
            0xFF6D => Some(ScanCode { make: 0x4A, extended: false }),  // KP_Subtract
            0xFF6A => Some(ScanCode { make: 0x37, extended: false }),  // KP_Multiply
            0xFF6F => Some(ScanCode { make: 0x35, extended: true }),  // KP_Divide (E0-prefixed)
            _ => None,
        }
    }

    /// Bytes to put on the data port when `key` is pressed or released.
    pub fn scan_codes(key: u32, pressed: bool) -> (bytes: Vec<u8>)
        ensures
            bytes@ == key_bytes(key, pressed),
    {
        match Self::lookup(key) {
            None => Vec::new(),
            Some(code) => if pressed {
                if code.extended {
                    vec![PREFIX_EXTENDED, code.make]
                } else {
                    vec![code.make]
                }
            } else if code.extended {
                vec![PREFIX_EXTENDED, PREFIX_BREAK, code.make]
            } else {
                vec![PREFIX_BREAK, code.make]
            },
        }
    }
}

/// Releasing a key sends what pressing it sends, with the break prefix put before
/// the make code, which comes last.
pub proof fn law_release_inserts_break(key: u32)
    requires
        scan_code_of(key) is Some,
    ensures
        key_bytes(key, true).len() > 0,
        key_bytes(key, false) == key_bytes(key, true).drop_last() + seq![
            PREFIX_BREAK,
            key_bytes(key, true).last(),
        ],
{
    assert(key_bytes(key, false) =~= key_bytes(key, true).drop_last() + seq![
        PREFIX_BREAK,
        key_bytes(key, true).last(),
    ]);
}

/// A capital letter and its small letter are one key.
pub proof fn law_letters_ignore_case(letter: u32, pressed: bool)
    requires
        0x61 <= letter <= 0x7A,
    ensures
        key_bytes((letter - 0x20) as u32, pressed) == key_bytes(letter, pressed),
        key_bytes(letter, pressed).len() > 0,
{
}

/// The keys that carry the extension prefix are those of the navigation cluster
/// (Home, End, Prior, Next, the arrows, Insert, Delete), KP_Enter and KP_Divide,
/// and no others.
pub proof fn law_extended_keys(key: u32)
    ensures
        (scan_code_of(key) matches Some(code) && code.extended) <==> {
            ||| 0xFF50 <= key <= 0xFF57
            ||| key == 0xFF63
            ||| key == 0xFF67
            ||| key == 0xFFFF
            ||| key == 0xFF8D
            ||| key == 0xFF6F
        },
{
}

/// One key event takes at most three bytes, and none exactly where the keysym has
/// no key, whether it is pressed or released.
pub proof fn law_key_bytes_length(key: u32, pressed: bool)
    ensures
        key_bytes(key, pressed).len() <= 3,
        key_bytes(key, pressed).len() == 0 <==> scan_code_of(key) is None,
{
}

/// The number row, from Escape over `1` to `0`, `-` and `=` to BackSpace, counts up from
/// 0x01.
pub proof fn law_number_row(i: int)
    requires
        0 <= i < 14,
    ensures
        key_bytes(
            seq![0xFF1Bu32, 0x31, 0x32, 0x33, 0x34, 0x35, 0x36, 0x37, 0x38, 0x39, 0x30, 0x2D, 0x3D, 0xFF08][i],
            true,
        ) == seq![(0x01 + i) as u8],
{
    let row = seq![0xFF1Bu32, 0x31, 0x32, 0x33, 0x34, 0x35, 0x36, 0x37, 0x38, 0x39, 0x30, 0x2D, 0x3D, 0xFF08];
    assert(key_bytes(row[i], true) =~= seq![(0x01 + i) as u8]);
}

/// The top row, from Tab over `q` to `]` to Return, goes on from 0x0F.
pub proof fn law_top_row(i: int)
    requires
        0 <= i < 14,
    ensures
        key_bytes(
            seq![0xFF09u32, 0x71, 0x77, 0x65, 0x72, 0x74, 0x79, 0x75, 0x69, 0x6F, 0x70, 0x5B, 0x5D, 0xFF0D][i],
            true,
        ) == seq![(0x0F + i) as u8],
{
    let row = seq![0xFF09u32, 0x71, 0x77, 0x65, 0x72, 0x74, 0x79, 0x75, 0x69, 0x6F, 0x70, 0x5B, 0x5D, 0xFF0D];
    assert(key_bytes(row[i], true) =~= seq![(0x0F + i) as u8]);
}

/// The home row, from Control over `a` to the grave accent, goes on from 0x1D.
pub proof fn law_home_row(i: int)
    requires
        0 <= i < 13,
    ensures
        key_bytes(
            seq![0xFFE3u32, 0x61, 0x73, 0x64, 0x66, 0x67, 0x68, 0x6A, 0x6B, 0x6C, 0x3B, 0x27, 0x60][i],
            true,
        ) == seq![(0x1D + i) as u8],
{
    let row = seq![0xFFE3u32, 0x61, 0x73, 0x64, 0x66, 0x67, 0x68, 0x6A, 0x6B, 0x6C, 0x3B, 0x27, 0x60];
    assert(key_bytes(row[i], true) =~= seq![(0x1D + i) as u8]);
}

/// The bottom row, from the left Shift over the backslash and `z` to `/` to the right
/// Shift, and the keypad's multiplication sign, go on from 0x2A.
pub proof fn law_bottom_row(i: int)
    requires
        0 <= i < 14,
    ensures
        key_bytes(
            seq![0xFFE1u32, 0x5C, 0x7A, 0x78, 0x63, 0x76, 0x62, 0x6E, 0x6D, 0x2C, 0x2E, 0x2F, 0xFFE2, 0xFF6A][i],
            true,
        ) == seq![(0x2A + i) as u8],
{
    let row = seq![0xFFE1u32, 0x5C, 0x7A, 0x78, 0x63, 0x76, 0x62, 0x6E, 0x6D, 0x2C, 0x2E, 0x2F, 0xFFE2, 0xFF6A];
    assert(key_bytes(row[i], true) =~= seq![(0x2A + i) as u8]);
}

/// Alt, the space bar and Caps Lock go on from 0x38.
pub proof fn law_space_row(i: int)
    requires
        0 <= i < 3,
    ensures
        key_bytes(
            seq![0xFFE9u32, 0x20, 0xFFE5][i],
            true,
        ) == seq![(0x38 + i) as u8],
{
    let row = seq![0xFFE9u32, 0x20, 0xFFE5];
    assert(key_bytes(row[i], true) =~= seq![(0x38 + i) as u8]);
}

/// The function keys F1 to F12 go on from 0x3B.
pub proof fn law_function_row(i: int)
    requires
        0 <= i < 12,
    ensures
        key_bytes(
            seq![0xFFBEu32, 0xFFBF, 0xFFC0, 0xFFC1, 0xFFC2, 0xFFC3, 0xFFC4, 0xFFC5, 0xFFC6, 0xFFC7, 0xFFC8, 0xFFC9][i],
            true,
        ) == seq![(0x3B + i) as u8],
{
    let row = seq![0xFFBEu32, 0xFFBF, 0xFFC0, 0xFFC1, 0xFFC2, 0xFFC3, 0xFFC4, 0xFFC5, 0xFFC6, 0xFFC7, 0xFFC8, 0xFFC9];
    assert(key_bytes(row[i], true) =~= seq![(0x3B + i) as u8]);
}

/// The keypad, row by row from `7` to the decimal point, with the minus and plus signs at
/// the ends of its rows, goes on from 0x47.
pub proof fn law_keypad(i: int)
    requires
        0 <= i < 13,
    ensures
        key_bytes(
            seq![0xFF97u32, 0xFF98, 0xFF99, 0xFF6D, 0xFF94, 0xFF95, 0xFF96, 0xFF6B, 0xFF91, 0xFF92, 0xFF93, 0xFF90, 0xFFAE][i],
            true,
        ) == seq![(0x47 + i) as u8],
{
    let row = seq![0xFF97u32, 0xFF98, 0xFF99, 0xFF6D, 0xFF94, 0xFF95, 0xFF96, 0xFF6B, 0xFF91, 0xFF92, 0xFF93, 0xFF90, 0xFFAE];
    assert(key_bytes(row[i], true) =~= seq![(0x47 + i) as u8]);
}

/// The keys that stand apart from the keypad and do what its keys do without Num Lock
/// (Home, Up, Prior, Left, Right, End, Down, Next, Insert, Delete), its own Enter and its
/// division sign send what the key that they double sends, behind the extension prefix.
pub proof fn law_doubled_keys(i: int)
    requires
        0 <= i < 13,
    ensures
        ({
            let doubles = seq![
                0xFF50u32, 0xFF52, 0xFF55, 0xFF51, 0xFF53, 0xFF57, 0xFF54, 0xFF56, 0xFF63, 0xFFFF,
                0xFF67, 0xFF8D, 0xFF6F,
            ];
            let keys = seq![
                0xFF97u32, 0xFF98, 0xFF99, 0xFF94, 0xFF96, 0xFF91, 0xFF92, 0xFF93, 0xFF90, 0xFFAE,
                0xFFAE, 0xFF0D, 0x2F,
            ];
            key_bytes(doubles[i], true) == seq![0xE0u8] + key_bytes(keys[i], true)
        }),
{
    let doubles = seq![
        0xFF50u32, 0xFF52, 0xFF55, 0xFF51, 0xFF53, 0xFF57, 0xFF54, 0xFF56, 0xFF63, 0xFFFF,
        0xFF67, 0xFF8D, 0xFF6F,
    ];
    let keys = seq![
        0xFF97u32, 0xFF98, 0xFF99, 0xFF94, 0xFF96, 0xFF91, 0xFF92, 0xFF93, 0xFF90, 0xFFAE,
        0xFFAE, 0xFF0D, 0x2F,
    ];
    assert(key_bytes(doubles[i], true) =~= seq![0xE0u8] + key_bytes(keys[i], true));
}

/// The right Control key is the left one; the right Alt key is the left one with the
/// highest bit set.
pub proof fn law_right_hand_modifiers(pressed: bool)
    ensures
        key_bytes(0xFFE4, pressed) == key_bytes(0xFFE3, pressed),
        key_bytes(0xFFEA, pressed).len() == key_bytes(0xFFE9, pressed).len(),
        key_bytes(0xFFEA, pressed).last() == key_bytes(0xFFE9, pressed).last() + 0x80,
        pressed ==> key_bytes(0xFFEA, pressed).len() == 1,
{
}

/// Releasing a key sends the byte 0xF0 before its last byte, and nothing else that
/// pressing it does not send.
pub proof fn law_release_bytes(key: u32)
    ensures
        key_bytes(key, true).len() == 1 ==> key_bytes(key, false) == seq![
            0xF0u8,
            key_bytes(key, true)[0],
        ],
        key_bytes(key, true).len() == 2 ==> key_bytes(key, false) == seq![
            0xE0u8,
            0xF0u8,
            key_bytes(key, true)[1],
        ] && key_bytes(key, true)[0] == 0xE0,
        key_bytes(key, true).len() <= 2,
        key_bytes(key, true).len() == 0 ==> key_bytes(key, false).len() == 0,
{
}

/// Only keys of the board send anything: letters, digits, the punctuation that needs no
/// Shift, the space bar, and the keys that have no character.
pub proof fn law_only_keys_of_the_board(key: u32, pressed: bool)
    ensures
        key_bytes(key, pressed).len() > 0 <==> {
            ||| 0x30 <= key <= 0x39
            ||| 0x41 <= key <= 0x5D
            ||| 0x60 <= key <= 0x7A
            ||| 0x2C <= key <= 0x2F
            ||| key == 0x20 || key == 0x27 || key == 0x3B || key == 0x3D
            ||| key == 0xFF08 || key == 0xFF09 || key == 0xFF0D || key == 0xFF1B
            ||| 0xFF50 <= key <= 0xFF57
            ||| key == 0xFF63 || key == 0xFF67 || key == 0xFF6A || key == 0xFF6B
            ||| key == 0xFF6D || key == 0xFF6F || key == 0xFF8D
            ||| 0xFF90 <= key <= 0xFF99
            ||| key == 0xFFAE
            ||| 0xFFBE <= key <= 0xFFC9
            ||| 0xFFE1 <= key <= 0xFFE5
            ||| key == 0xFFE9 || key == 0xFFEA || key == 0xFFFF
        },
{
}

/// The code that is looked up for a key is what pressing it sends: behind the prefix
/// 0xE0 where the key is extended, and alone where it is not.
pub proof fn law_scan_code_is_sent(key: u32)
    ensures
        match scan_code_of(key) {
            Some(code) => key_bytes(key, true) == (if code.extended {
                seq![0xE0u8, code.make]
            } else {
                seq![code.make]
            }),
            None => key_bytes(key, true) == Seq::<u8>::empty(),
        },
{
    if let Some(code) = scan_code_of(key) {
        assert(key_bytes(key, true) =~= if code.extended {
            seq![0xE0u8, code.make]
        } else {
            seq![code.make]
        });
    }
}

} // verus!
