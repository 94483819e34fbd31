//! Keys and mouse events, and the bytes that they are for a terminal.

use vstd::prelude::*;
use vstd::utf8::encode_utf8;

verus! {

/// A key on the keyboard.
#[derive(Debug, Clone, Copy, PartialEq, Eq, Structural)]
pub enum KeyCode {
    Char(char),
    Enter,
    Backspace,
    Tab,
    BackTab,
    Esc,
    Up,
    Down,
    Left,
    Right,
    Home,
    End,
    PageUp,
    PageDown,
    Insert,
    Delete,
    F(u8),
    /// A key that stands for nothing here.
    Other,
}

/// The keys that are held down beside another.
#[derive(Debug, Clone, Copy, PartialEq, Eq, Structural)]
pub struct Modifiers {
    pub shift: bool,
    pub alt: bool,
    pub control: bool,
}

/// A key event.
#[derive(Debug, Clone, Copy, PartialEq, Eq, Structural)]
pub struct KeyEvent {
    pub code: KeyCode,
    pub modifiers: Modifiers,
    /// Whether the key went down, as opposed to up.
    pub press: bool,
}

/// A button of the mouse.
#[derive(Debug, Clone, Copy, PartialEq, Eq, Structural)]
pub enum MouseButton {
    Left,
    Middle,
    Right,
}

/// What the mouse did.
#[derive(Debug, Clone, Copy, PartialEq, Eq, Structural)]
pub enum MouseKind {
    Down(MouseButton),
    Up(MouseButton),
    Drag(MouseButton),
    Moved,
    ScrollUp,
    ScrollDown,
    /// Something that stands for nothing here.
    Other,
}

/// A mouse event.
#[derive(Debug, Clone, Copy, PartialEq, Eq, Structural)]
pub struct MouseEvent {
    pub kind: MouseKind,
    pub column: u16,
    pub row: u16,
    pub modifiers: Modifiers,
}

/// The number that stands for modifiers in an escape sequence.
pub open spec fn modifier_code(m: Modifiers) -> int {
    1 + (if m.shift {
        1int
    } else {
        0
    }) + (if m.alt {
        2int
    } else {
        0
    }) + (if m.control {
        4int
    } else {
        0
    })
}

/// The byte that a character is together with the control key.
pub open spec fn control_byte(c: char) -> Option<u8> {
    if 'a' <= c && c <= 'z' {
        Some((c as u8 - 96) as u8)
    } else if 'A' <= c && c <= 'Z' {
        Some((c as u8 - 64) as u8)
    } else if c == '[' {
        Some(27)
    } else if c == '\\' {
        Some(28)
    } else if c == ']' {
        Some(29)
    } else if c == '^' {
        Some(30)
    } else if c == '_' {
        Some(31)
    } else if c == ' ' {
        Some(0)
    } else {
        None
    }
}

/// The bytes of a character, with the control key or without.
pub open spec fn char_bytes(c: char, control: bool) -> Seq<u8> {
    if control && control_byte(c) is Some {
        seq![control_byte(c)->0]
    } else {
        encode_utf8(seq![c])
    }
}

/// The end of the escape sequence of a key that has one. A tilde at the end
/// stands for itself; what is before it is the number of the key.
pub open spec fn key_ending(code: KeyCode) -> Seq<u8> {
    match code {
        KeyCode::Up => seq![0x41u8],
        KeyCode::Down => seq![0x42u8],
        KeyCode::Right => seq![0x43u8],
        KeyCode::Left => seq![0x44u8],
        KeyCode::Home => seq![0x48u8],
        KeyCode::End => seq![0x46u8],
        KeyCode::PageUp => seq![0x35u8, 0x7e],
        KeyCode::PageDown => seq![0x36u8, 0x7e],
        KeyCode::Insert => seq![0x32u8, 0x7e],
        KeyCode::Delete => seq![0x33u8, 0x7e],
        KeyCode::F(1) => seq![0x50u8],
        KeyCode::F(2) => seq![0x51u8],
        KeyCode::F(3) => seq![0x52u8],
        KeyCode::F(4) => seq![0x53u8],
        KeyCode::F(5) => seq![0x31u8, 0x35, 0x7e],
        KeyCode::F(6) => seq![0x31u8, 0x37, 0x7e],
        KeyCode::F(7) => seq![0x31u8, 0x38, 0x7e],
        KeyCode::F(8) => seq![0x31u8, 0x39, 0x7e],
        KeyCode::F(9) => seq![0x32u8, 0x30, 0x7e],
        KeyCode::F(10) => seq![0x32u8, 0x31, 0x7e],
        KeyCode::F(11) => seq![0x32u8, 0x33, 0x7e],
        KeyCode::F(12) => seq![0x32u8, 0x34, 0x7e],
        _ => Seq::empty(),
    }
}

/// The escape sequence of a key: with `O` for the first function keys alone,
/// with the number of the modifiers where there are any, and else plain.
pub open spec fn key_sequence(code: KeyCode, m: Modifiers) -> Seq<u8> {
    let end = key_ending(code);
    let number = (0x30 + modifier_code(m)) as u8;
    if end.len() == 0 {
        Seq::empty()
    } else if modifier_code(m) > 1 {
        if end.last() == 0x7e {
            seq![0x1bu8, 0x5b] + end.drop_last() + seq![0x3bu8, number, 0x7e]
        } else {
            seq![0x1bu8, 0x5b, 0x31, 0x3b, number] + end
        }
    } else if code matches KeyCode::F(n) && 1 <= n <= 4 {
        seq![0x1bu8, 0x4f] + end
    } else {
        seq![0x1bu8, 0x5b] + end
    }
}

/// The byte that marks the alt key, where it is held down.
pub open spec fn alt_mark(m: Modifiers) -> Seq<u8> {
    if m.alt {
        seq![27u8]
    } else {
        Seq::empty()
    }
}

/// The bytes that a key is for a terminal.
pub open spec fn key_bytes(code: KeyCode, m: Modifiers) -> Seq<u8> {
    match code {
        KeyCode::Char(c) => alt_mark(m) + char_bytes(c, m.control),
        KeyCode::Enter => alt_mark(m) + seq![13u8],
        KeyCode::Backspace => alt_mark(m) + seq![127u8],
        KeyCode::Tab => alt_mark(m) + seq![9u8],
        KeyCode::BackTab => seq![0x1bu8, 0x5b, 0x5a],
        KeyCode::Esc => seq![27u8] + alt_mark(m),
        _ => key_sequence(code, m),
    }
}

/// Appends bytes.
pub fn push_all(v: &mut Vec<u8>, more: &[u8])
    ensures
        final(v)@ == old(v)@ + more@,
{
    v.extend_from_slice(more);
}

/// The bytes of a text.
pub fn text_bytes(s: &str) -> (r: Vec<u8>)
    ensures
        r@ == encode_utf8(s@),
{
    let mut v: Vec<u8> = Vec::new();
    v.extend_from_slice(s.as_bytes());
    assert(v@ =~= encode_utf8(s@));
    v
}

fn push_char(v: &mut Vec<u8>, c: char, control: bool)
    ensures
        final(v)@ == old(v)@ + char_bytes(c, control),
{
    if control {
        let byte: Option<u8> = if 'a' <= c && c <= 'z' {
            Some(c as u8 - 96)
        } else if 'A' <= c && c <= 'Z' {
            Some(c as u8 - 64)
        } else {
            match c {
                '[' => Some(27),
                '\\' => Some(28),
                ']' => Some(29),
                '^' => Some(30),
                '_' => Some(31),
                ' ' => Some(0),
                _ => None,
            }
        };
        assert(byte == control_byte(c));
        if let Some(b) = byte {
            v.push(b);
            assert(v@ =~= old(v)@ + char_bytes(c, control));
            return;
        }
    }
    let mut s = String::new();
    s.push(c);
    assert(s@ =~= seq![c]);
    v.extend_from_slice(s.as_str().as_bytes());
}

fn key_end(code: KeyCode) -> (r: Vec<u8>)
    ensures
        r@ == key_ending(code),
{
    match code {
        KeyCode::Up => vec![0x41u8],
        KeyCode::Down => vec![0x42u8],
        KeyCode::Right => vec![0x43u8],
        KeyCode::Left => vec![0x44u8],
        KeyCode::Home => vec![0x48u8],
        KeyCode::End => vec![0x46u8],
        KeyCode::PageUp => vec![0x35u8, 0x7e],
        KeyCode::PageDown => vec![0x36u8, 0x7e],
        KeyCode::Insert => vec![0x32u8, 0x7e],
        KeyCode::Delete => vec![0x33u8, 0x7e],
        KeyCode::F(n) => match n {
            1 => vec![0x50u8],
            2 => vec![0x51u8],
            3 => vec![0x52u8],
            4 => vec![0x53u8],
            5 => vec![0x31u8, 0x35, 0x7e],
            6 => vec![0x31u8, 0x37, 0x7e],
            7 => vec![0x31u8, 0x38, 0x7e],
            8 => vec![0x31u8, 0x39, 0x7e],
            9 => vec![0x32u8, 0x30, 0x7e],
            10 => vec![0x32u8, 0x31, 0x7e],
            11 => vec![0x32u8, 0x33, 0x7e],
            12 => vec![0x32u8, 0x34, 0x7e],
            _ => Vec::new(),
        },
        _ => Vec::new(),
    }
}

fn modifier_number(m: Modifiers) -> (r: u8)
    ensures
        r == modifier_code(m),
{
    let mut n: u8 = 1;
    if m.shift {
        n += 1;
    }
    if m.alt {
        n += 2;
    }
    if m.control {
        n += 4;
    }
    n
}

fn encode_sequence(code: KeyCode, m: Modifiers) -> (r: Vec<u8>)
    ensures
        r@ == key_sequence(code, m),
{
    let mut end = key_end(code);
    let ghost full = end@;
    let mut r: Vec<u8> = Vec::new();
    if end.len() == 0 {
        return r;
    }
    let n: u8 = modifier_number(m);
    r.push(0x1b);
    if n > 1 {
        r.push(0x5b);
        if end[end.len() - 1] == 0x7e {
            end.pop();
            assert(end@ =~= full.drop_last());
            push_all(&mut r, end.as_slice());
            r.push(0x3b);
            r.push(0x30 + n);
            r.push(0x7e);
        } else {
            r.push(0x31);
            r.push(0x3b);
            r.push(0x30 + n);
            push_all(&mut r, end.as_slice());
        }
    } else {
        let function_key = match code {
            KeyCode::F(k) => 1 <= k && k <= 4,
            _ => false,
        };
        if function_key {
            r.push(0x4f);
        } else {
            r.push(0x5b);
        }
        push_all(&mut r, end.as_slice());
    }
    assert(r@ =~= key_sequence(code, m));
    r
}

/// Works out the bytes that a key is for a terminal.
pub fn encode_key(code: KeyCode, m: Modifiers) -> (r: Vec<u8>)
    ensures
        r@ == key_bytes(code, m),
{
    let mut r: Vec<u8> = Vec::new();
    match code {
        KeyCode::Char(c) => {
            if m.alt {
                r.push(27);
            }
            assert(r@ =~= alt_mark(m));
            push_char(&mut r, c, m.control);
        },
        KeyCode::Enter => {
            if m.alt {
                r.push(27);
            }
            r.push(13);
        },
        KeyCode::Backspace => {
            if m.alt {
                r.push(27);
            }
            r.push(127);
        },
        KeyCode::Tab => {
            if m.alt {
                r.push(27);
            }
            r.push(9);
        },
        KeyCode::BackTab => {
            r.push(0x1b);
            r.push(0x5b);
            r.push(0x5a);
        },
        KeyCode::Esc => {
            r.push(27);
            if m.alt {
                r.push(27);
            }
        },
        _ => {
            return encode_sequence(code, m);
        },
    }
    assert(r@ =~= key_bytes(code, m));
    r
}

/// A character without modifiers is sent as itself.
pub proof fn law_plain_character_is_itself(c: char)
    ensures
        key_bytes(
            KeyCode::Char(c),
            (Modifiers { shift: false, alt: false, control: false }),
        ) == encode_utf8(seq![c]),
{
    let m = Modifiers { shift: false, alt: false, control: false };
    assert(alt_mark(m) + char_bytes(c, false) =~= encode_utf8(seq![c]));
}

/// The bytes of a number in decimal digits.
pub open spec fn decimal_bytes(n: nat) -> Seq<u8>
    decreases n,
{
    if n < 10 {
        seq![(0x30 + n) as u8]
    } else {
        decimal_bytes(n / 10).push((0x30 + n % 10) as u8)
    }
}

/// Appends the decimal digits of a number.
pub fn push_number(v: &mut Vec<u8>, n: u32)
    ensures
        final(v)@ == old(v)@ + decimal_bytes(n as nat),
    decreases n,
{
    if n < 10 {
        v.push(0x30 + n as u8);
    } else {
        push_number(v, n / 10);
        v.push(0x30 + (n % 10) as u8);
    }
    assert(v@ =~= old(v)@ + decimal_bytes(n as nat));
}

/// The number of a button in a mouse report.
pub open spec fn button_code(button: MouseButton) -> int {
    match button {
        MouseButton::Left => 0,
        MouseButton::Middle => 1,
        MouseButton::Right => 2,
    }
}

/// What modifiers add to the number in a mouse report.
pub open spec fn modifier_bits(m: Modifiers) -> int {
    (if m.shift {
        4int
    } else {
        0
    }) + (if m.alt {
        8int
    } else {
        0
    }) + (if m.control {
        16int
    } else {
        0
    })
}

/// A report of the mouse at a column and row of a terminal, counted from zero:
/// the number of the event, column and row counted from one, and a letter that
/// tells a release from the rest.
pub open spec fn mouse_report(code: int, col: int, row: int, release: bool) -> Seq<u8> {
    seq![0x1bu8, 0x5b, 0x3c] + decimal_bytes(code as nat) + seq![0x3bu8] + decimal_bytes(
        (col + 1) as nat,
    ) + seq![0x3bu8] + decimal_bytes((row + 1) as nat) + seq![
        if release {
            0x6du8
        } else {
            0x4du8
        },
    ]
}

/// Writes a report of the mouse.
pub fn encode_mouse(code: u32, col: u16, row: u16, release: bool) -> (r: Vec<u8>)
    ensures
        r@ == mouse_report(code as int, col as int, row as int, release),
{
    let mut r: Vec<u8> = Vec::new();
    r.push(0x1b);
    r.push(0x5b);
    r.push(0x3c);
    push_number(&mut r, code);
    r.push(0x3b);
    push_number(&mut r, col as u32 + 1);
    r.push(0x3b);
    push_number(&mut r, row as u32 + 1);
    if release {
        r.push(0x6d);
    } else {
        r.push(0x4d);
    }
    assert(r@ =~= mouse_report(code as int, col as int, row as int, release));
    r
}

/// The number of a button with modifiers in a mouse report.
pub fn button_number(button: MouseButton, m: Modifiers) -> (r: u32)
    ensures
        r == button_code(button) + modifier_bits(m),
{
    let mut n: u32 = match button {
        MouseButton::Left => 0,
        MouseButton::Middle => 1,
        MouseButton::Right => 2,
    };
    if m.shift {
        n += 4;
    }
    if m.alt {
        n += 8;
    }
    if m.control {
        n += 16;
    }
    n
}

/// The number that decimal digits stand for.
pub open spec fn digits_value(s: Seq<u8>) -> int
    decreases s.len(),
{
    if s.len() == 0 {
        0
    } else {
        digits_value(s.drop_last()) * 10 + (s.last() - 0x30)
    }
}

/// A number in decimal digits is read back as that number.
pub proof fn law_digits_are_read_back(n: nat)
    ensures
        digits_value(decimal_bytes(n)) == n,
        decimal_bytes(n).len() > 0,
        forall|i: int|
            0 <= i < decimal_bytes(n).len() ==> 0x30 <= #[trigger] decimal_bytes(n)[i] <= 0x39,
    decreases n,
{
    let s = decimal_bytes(n);
    if n < 10 {
        assert(s.drop_last() =~= Seq::<u8>::empty());
        assert(digits_value(s.drop_last()) == 0);
    } else {
        law_digits_are_read_back(n / 10);
        assert(s.drop_last() =~= decimal_bytes(n / 10));
    }
}

/// A report of the mouse has the number of the event, the column and the row, both
/// counted from one, in decimal digits, and ends in a letter that tells a release
/// from the rest.
pub proof fn law_mouse_report_tells_where_and_what(
    code: nat,
    col: nat,
    row: nat,
    release: bool,
)
    ensures
        exists|a: Seq<u8>, b: Seq<u8>, c: Seq<u8>|
            #![trigger digits_value(a), digits_value(b), digits_value(c)]
            {
                &&& mouse_report(code as int, col as int, row as int, release) == seq![
                    0x1bu8,
                    0x5b,
                    0x3c,
                ] + a + seq![0x3bu8] + b + seq![0x3bu8] + c + seq![
                    if release {
                        0x6du8
                    } else {
                        0x4du8
                    },
                ]
                &&& digits_value(a) == code
                &&& digits_value(b) == col + 1
                &&& digits_value(c) == row + 1
            },
{
    law_digits_are_read_back(code);
    law_digits_are_read_back(col + 1);
    law_digits_are_read_back(row + 1);
}

/// The buttons have numbers of their own, and the modifiers add a bit each.
pub proof fn law_buttons_and_modifiers_have_their_numbers(m: Modifiers)
    ensures
        button_code(MouseButton::Left) == 0,
        button_code(MouseButton::Middle) == 1,
        button_code(MouseButton::Right) == 2,
        modifier_bits(m) / 4 % 2 == 1 <==> m.shift,
        modifier_bits(m) / 8 % 2 == 1 <==> m.alt,
        modifier_bits(m) / 16 % 2 == 1 <==> m.control,
        0 <= modifier_bits(m) <= 28,
        modifier_bits(m) % 4 == 0,
{
}

/// The alt key puts ESC before what a character, Enter, Tab or Backspace is
/// without it.
pub proof fn law_alt_puts_escape_before(code: KeyCode, shift: bool, control: bool)
    requires
        code is Char || code == KeyCode::Enter || code == KeyCode::Tab || code
            == KeyCode::Backspace,
    ensures
        key_bytes(code, (Modifiers { shift, alt: true, control })) == seq![27u8] + key_bytes(
            code,
            (Modifiers { shift, alt: false, control }),
        ),
{
    let plain = Modifiers { shift, alt: false, control };
    let with = Modifiers { shift, alt: true, control };
    assert(key_bytes(code, with) =~= seq![27u8] + key_bytes(code, plain));
}

/// With the control key a letter is the control character that has its number in
/// the alphabet, in either case.
pub proof fn law_control_letters_are_numbered(c: char, shift: bool)
    ensures
        'a' <= c <= 'z' ==> key_bytes(
            KeyCode::Char(c),
            (Modifiers { shift, alt: false, control: true }),
        ) == seq![(c as int - 'a' as int + 1) as u8],
        'A' <= c <= 'Z' ==> key_bytes(
            KeyCode::Char(c),
            (Modifiers { shift, alt: false, control: true }),
        ) == seq![(c as int - 'A' as int + 1) as u8],
        c == ' ' ==> key_bytes(
            KeyCode::Char(c),
            (Modifiers { shift, alt: false, control: true }),
        ) == seq![0u8],
        !('a' <= c <= 'z') && !('A' <= c <= 'Z') && !('[' <= c <= '_') && c != ' ' ==> key_bytes(
            KeyCode::Char(c),
            (Modifiers { shift, alt: false, control: true }),
        ) == encode_utf8(seq![c]),
        '[' <= c <= '_' ==> key_bytes(
            KeyCode::Char(c),
            (Modifiers { shift, alt: false, control: true }),
        ) == seq![(c as int - '[' as int + 27) as u8],
{
    let m = Modifiers { shift, alt: false, control: true };
    assert(alt_mark(m) + char_bytes(c, true) =~= char_bytes(c, true));
    if '[' <= c <= '_' {
        assert(c == '[' || c == '\\' || c == ']' || c == '^' || c == '_');
    }
}

/// Enter is a carriage return, Tab a tabulator, Backspace a delete character and
/// Esc an escape character; they are so with the shift and control keys, too.
pub proof fn law_editing_keys_are_control_characters(shift: bool, control: bool)
    ensures
        ({
            let m = Modifiers { shift, alt: false, control };
            &&& key_bytes(KeyCode::Enter, m) == seq![13u8]
            &&& key_bytes(KeyCode::Tab, m) == seq![9u8]
            &&& key_bytes(KeyCode::Backspace, m) == seq![127u8]
            &&& key_bytes(KeyCode::Esc, m) == seq![27u8]
        }),
        forall|m: Modifiers| #[trigger]
            key_bytes(KeyCode::BackTab, m) == seq![0x1bu8, 0x5b, 0x5a],
{
    let m = Modifiers { shift, alt: false, control };
    assert(alt_mark(m) + seq![13u8] =~= seq![13u8]);
    assert(alt_mark(m) + seq![9u8] =~= seq![9u8]);
    assert(alt_mark(m) + seq![127u8] =~= seq![127u8]);
    assert(seq![27u8] + alt_mark(m) =~= seq![27u8]);
}

/// The keys that move the cursor are ESC, a bracket and a letter: up is A, down is
/// B, right is C, left is D, home is H and end is F. With modifiers there are a one
/// and their number before the letter.
pub proof fn law_cursor_keys_are_sequences(code: KeyCode, letter: u8, m: Modifiers)
    requires
        (code == KeyCode::Up && letter == 0x41) || (code == KeyCode::Down && letter == 0x42) || (
        code == KeyCode::Right && letter == 0x43) || (code == KeyCode::Left && letter == 0x44) || (
        code == KeyCode::Home && letter == 0x48) || (code == KeyCode::End && letter == 0x46),
    ensures
        ({
            let number = 1 + (if m.shift {
                1int
            } else {
                0
            }) + (if m.alt {
                2int
            } else {
                0
            }) + (if m.control {
                4int
            } else {
                0
            });
            &&& number == 1 ==> key_bytes(code, m) == seq![0x1bu8, 0x5b, letter]
            &&& number > 1 ==> key_bytes(code, m) == seq![
                0x1bu8,
                0x5b,
                0x31,
                0x3b,
                (0x30 + number) as u8,
                letter,
            ]
        }),
{
    assert(key_bytes(code, m) =~= if modifier_code(m) == 1 {
        seq![0x1bu8, 0x5b, letter]
    } else {
        seq![0x1bu8, 0x5b, 0x31, 0x3b, (0x30 + modifier_code(m)) as u8, letter]
    });
}

/// The other keys with a sequence have a number: 2 for Insert, 3 for Delete, 5 and
/// 6 for a page up and down, and 15 to 24 for the function keys from the fifth on.
/// The sequence is ESC, a bracket, the number and a tilde. With modifiers their
/// number is behind that of the key.
pub proof fn law_numbered_keys_are_sequences(code: KeyCode, number: nat, m: Modifiers)
    requires
        match code {
            KeyCode::Insert => number == 2,
            KeyCode::Delete => number == 3,
            KeyCode::PageUp => number == 5,
            KeyCode::PageDown => number == 6,
            KeyCode::F(5) => number == 15,
            KeyCode::F(6) => number == 17,
            KeyCode::F(7) => number == 18,
            KeyCode::F(8) => number == 19,
            KeyCode::F(9) => number == 20,
            KeyCode::F(10) => number == 21,
            KeyCode::F(11) => number == 23,
            KeyCode::F(12) => number == 24,
            _ => false,
        },
    ensures
        ({
            let none = !m.shift && !m.alt && !m.control;
            let held = 1 + (if m.shift {
                1int
            } else {
                0
            }) + (if m.alt {
                2int
            } else {
                0
            }) + (if m.control {
                4int
            } else {
                0
            });
            exists|digits: Seq<u8>| #[trigger]
                digits_value(digits) == number && key_bytes(code, m) == seq![0x1bu8, 0x5b] + digits
                    + if none {
                    seq![0x7eu8]
                } else {
                    seq![0x3bu8, (0x30 + held) as u8, 0x7e]
                }
        }),
{
    let digits = key_ending(code).drop_last();
    let held = modifier_code(m);
    reveal_with_fuel(digits_value, 3);
    if digits.len() == 1 {
        assert(digits.drop_last() =~= Seq::<u8>::empty());
    } else {
        assert(digits.drop_last() =~= seq![digits[0]]);
        assert(seq![digits[0]].drop_last() =~= Seq::<u8>::empty());
    }
    assert(digits_value(digits) == number);
    assert(key_ending(code) =~= digits + seq![0x7eu8]);
    if held == 1 {
        assert(key_bytes(code, m) =~= seq![0x1bu8, 0x5b] + digits + seq![0x7eu8]);
    } else {
        assert(key_bytes(code, m) =~= seq![0x1bu8, 0x5b] + digits + seq![
            0x3bu8,
            (0x30 + held) as u8,
            0x7e,
        ]);
    }
}

/// The first four function keys are ESC, O and a letter from P to S alone, and as
/// the keys that move the cursor with modifiers.
pub proof fn law_first_function_keys_are_sequences(n: u8, m: Modifiers)
    requires
        1 <= n <= 4,
    ensures
        ({
            let letter = (0x50 + n - 1) as u8;
            let held = 1 + (if m.shift {
                1int
            } else {
                0
            }) + (if m.alt {
                2int
            } else {
                0
            }) + (if m.control {
                4int
            } else {
                0
            });
            &&& held == 1 ==> key_bytes(KeyCode::F(n), m) == seq![0x1bu8, 0x4f, letter]
            &&& held > 1 ==> key_bytes(KeyCode::F(n), m) == seq![
                0x1bu8,
                0x5b,
                0x31,
                0x3b,
                (0x30 + held) as u8,
                letter,
            ]
        }),
{
    let letter = (0x50 + n - 1) as u8;
    assert(key_ending(KeyCode::F(n)) =~= seq![letter]);
    assert(key_bytes(KeyCode::F(n), m) =~= if modifier_code(m) == 1 {
        seq![0x1bu8, 0x4f, letter]
    } else {
        seq![0x1bu8, 0x5b, 0x31, 0x3b, (0x30 + modifier_code(m)) as u8, letter]
    });
}

/// Keys that stand for nothing are no bytes.
pub proof fn law_other_keys_are_no_bytes(n: u8, m: Modifiers)
    ensures
        key_bytes(KeyCode::Other, m).len() == 0,
        n == 0 || n > 12 ==> key_bytes(KeyCode::F(n), m).len() == 0,
{
}

/// The escape key is the byte that begins sequences, also before itself where the
/// alternate key is held; the tab key with the shift key held is a sequence of its own,
/// whatever else is held.
pub proof fn law_escape_and_back_tab(m: Modifiers)
    ensures
        !m.alt ==> key_bytes(KeyCode::Esc, m) == seq![27u8],
        m.alt ==> key_bytes(KeyCode::Esc, m) == seq![27u8, 27u8],
        key_bytes(KeyCode::BackTab, m) == seq![27u8, 0x5b, 0x5a],
{
    assert(seq![27u8] + Seq::<u8>::empty() =~= seq![27u8]);
    assert(seq![27u8] + seq![27u8] =~= seq![27u8, 27u8]);
}

/// With the control key held, the signs behind the letters go on where the letters
/// end, and a blank is the byte 0.
pub proof fn law_control_signs_follow_the_letters(c: char)
    ensures
        0x5b <= c as int <= 0x5f ==> control_byte(c) == Some((c as int - 0x40) as u8),
        c == ' ' ==> control_byte(c) == Some(0u8),
        control_byte(c) is Some <==> c == ' ' || 0x41 <= c as int <= 0x5f || 0x61 <= c as int
            <= 0x7a,
        control_byte(c) is Some ==> control_byte(c)->0 < 32,
{
}

} // verus!
