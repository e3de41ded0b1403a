//! Linux input event codes, as the `evdev` crate gives them.

use crate::text::same;
use evdev::Key;
use vstd::prelude::*;
use vstd::string::*;

verus! {

/// The event codes of the letters A to Z.
pub open spec fn letter_codes() -> Seq<u16> {
    seq![
        30u16, 48, 46, 32, 18, 33, 34, 35, 23, 36, 37, 38, 50, 49, 24, 25, 16, 19, 31, 20, 22, 47,
        17, 45, 21, 44,
    ]
}

/// The event codes of the digits 0 to 9.
pub open spec fn digit_codes() -> Seq<u16> {
    seq![11u16, 2, 3, 4, 5, 6, 7, 8, 9, 10]
}

/// The event codes of F1 to F12, Space, Enter, Tab and Esc.
pub open spec fn named_codes() -> Seq<u16> {
    seq![59u16, 60, 61, 62, 63, 64, 65, 66, 67, 68, 87, 88, 57, 28, 15, 1]
}

/// The event codes of the modifier keys: left and right Ctrl, Alt, Shift, Meta.
pub open spec fn modifier_codes() -> Seq<u16> {
    seq![29u16, 97, 56, 100, 42, 54, 125, 126]
}

/// `evdev::Key::code` on the constants `KEY_A` to `KEY_Z`: the codes of the Linux
/// input event interface that `letter_codes` lists.
#[verifier::external_body]
fn letter_code(index: usize) -> (code: u16)
    requires
        index < 26,
    ensures
        code == letter_codes()[index as int],
{
    [
        Key::KEY_A, Key::KEY_B, Key::KEY_C, Key::KEY_D, Key::KEY_E, Key::KEY_F, Key::KEY_G,
        Key::KEY_H, Key::KEY_I, Key::KEY_J, Key::KEY_K, Key::KEY_L, Key::KEY_M, Key::KEY_N,
        Key::KEY_O, Key::KEY_P, Key::KEY_Q, Key::KEY_R, Key::KEY_S, Key::KEY_T, Key::KEY_U,
        Key::KEY_V, Key::KEY_W, Key::KEY_X, Key::KEY_Y, Key::KEY_Z,
    ][index].code()
}

/// `evdev::Key::code` on the constants `KEY_0` to `KEY_9`: the codes of the Linux
/// input event interface that `digit_codes` lists.
#[verifier::external_body]
fn digit_code(index: usize) -> (code: u16)
    requires
        index < 10,
    ensures
        code == digit_codes()[index as int],
{
    [
        Key::KEY_0, Key::KEY_1, Key::KEY_2, Key::KEY_3, Key::KEY_4, Key::KEY_5, Key::KEY_6,
        Key::KEY_7, Key::KEY_8, Key::KEY_9,
    ][index].code()
}

/// `evdev::Key::code` on the constants of F1 to F12, Space, Enter, Tab and Esc: the
/// codes of the Linux input event interface that `named_codes` lists.
#[verifier::external_body]
fn named_code(index: usize) -> (code: u16)
    requires
        index < 16,
    ensures
        code == named_codes()[index as int],
{
    [
        Key::KEY_F1, Key::KEY_F2, Key::KEY_F3, Key::KEY_F4, Key::KEY_F5, Key::KEY_F6, Key::KEY_F7,
        Key::KEY_F8, Key::KEY_F9, Key::KEY_F10, Key::KEY_F11, Key::KEY_F12, Key::KEY_SPACE,
        Key::KEY_ENTER, Key::KEY_TAB, Key::KEY_ESC,
    ][index].code()
}

/// `evdev::Key::code` on the constants of the modifier keys: the codes of the Linux
/// input event interface that `modifier_codes` lists.
#[verifier::external_body]
fn modifier_code(index: usize) -> (code: u16)
    requires
        index < 8,
    ensures
        code == modifier_codes()[index as int],
{
    [
        Key::KEY_LEFTCTRL, Key::KEY_RIGHTCTRL, Key::KEY_LEFTALT, Key::KEY_RIGHTALT,
        Key::KEY_LEFTSHIFT, Key::KEY_RIGHTSHIFT, Key::KEY_LEFTMETA, Key::KEY_RIGHTMETA,
    ][index].code()
}

/// `evdev::InputEvent::kind`: an event is a key event exactly when its type is
/// `EV_KEY`, and then carries the key of its code.
#[verifier::external_body]
pub(crate) fn event_key(event_type: u16, code: u16, value: i32) -> (r: Option<u16>)
    ensures
        r == (if event_type == 1 {
            Some(code)
        } else {
            None
        }),
{
    match evdev::InputEvent::new(evdev::EventType(event_type), code, value).kind() {
        evdev::InputEventKind::Key(key) => Some(key.code()),
        _ => None,
    }
}

/// The keys of the `evdev` crate.
#[verifier::external_type_specification]
#[verifier::external_body]
pub struct ExKey(evdev::Key);

/// The set of keys that a device supports, as the `evdev` crate holds it.
#[verifier::external_type_specification]
#[verifier::external_body]
#[verifier::reject_recursive_types(T)]
pub struct ExAttributeSetRef<T>(evdev::AttributeSetRef<T>);

/// The codes of the keys in a set of keys.
pub uninterp spec fn key_set(keys: &evdev::AttributeSetRef<evdev::Key>) -> Set<u16>;

/// `evdev::AttributeSetRef::contains`: whether the key of a code is in the set.
#[verifier::external_body]
fn contains_key(keys: &evdev::AttributeSetRef<evdev::Key>, code: u16) -> (r: bool)
    ensures
        r == key_set(keys).contains(code),
{
    keys.contains(evdev::Key::new(code))
}

/// Heuristic: a keyboard supports the letter keys A and Z.
pub fn is_keyboard(keys: Option<&evdev::AttributeSetRef<evdev::Key>>) -> (r: bool)
    ensures
        r == match keys {
            Some(keys) => key_set(keys).contains(letter_codes()[0]) && key_set(keys).contains(
                letter_codes()[25],
            ),
            None => false,
        },
{
    match keys {
        Some(keys) => contains_key(keys, letter_code(0)) && contains_key(keys, letter_code(25)),
        None => false,
    }
}

/// The place of a key with a name among the named keys: F1 to F12, Space, Enter, Tab
/// and Esc.
pub open spec fn named_index(key: Seq<char>) -> Option<int> {
    if key == "F1"@ {
        Some(0)
    } else if key == "F2"@ {
        Some(1)
    } else if key == "F3"@ {
        Some(2)
    } else if key == "F4"@ {
        Some(3)
    } else if key == "F5"@ {
        Some(4)
    } else if key == "F6"@ {
        Some(5)
    } else if key == "F7"@ {
        Some(6)
    } else if key == "F8"@ {
        Some(7)
    } else if key == "F9"@ {
        Some(8)
    } else if key == "F10"@ {
        Some(9)
    } else if key == "F11"@ {
        Some(10)
    } else if key == "F12"@ {
        Some(11)
    } else if key == "SPACE"@ {
        Some(12)
    } else if key == "ENTER"@ || key == "RETURN"@ {
        Some(13)
    } else if key == "TAB"@ {
        Some(14)
    } else if key == "ESC"@ || key == "ESCAPE"@ {
        Some(15)
    } else {
        None
    }
}

/// The event code of a key token in capital letters: letters, digits, function keys
/// and a handful of named keys.
pub open spec fn key_code(key: Seq<char>) -> Option<u16> {
    if key.len() == 1 && 'A' <= key[0] <= 'Z' {
        Some(letter_codes()[key[0] as int - 'A' as int])
    } else if key.len() == 1 && '0' <= key[0] <= '9' {
        Some(digit_codes()[key[0] as int - '0' as int])
    } else {
        match named_index(key) {
            Some(i) => Some(named_codes()[i]),
            None => None,
        }
    }
}

fn find_named(key: &str) -> (r: Option<usize>)
    ensures
        r is Some <==> named_index(key@) is Some,
        r is Some ==> r->0 == named_index(key@)->0,
{
    if same(key, "F1") {
        Some(0)
    } else if same(key, "F2") {
        Some(1)
    } else if same(key, "F3") {
        Some(2)
    } else if same(key, "F4") {
        Some(3)
    } else if same(key, "F5") {
        Some(4)
    } else if same(key, "F6") {
        Some(5)
    } else if same(key, "F7") {
        Some(6)
    } else if same(key, "F8") {
        Some(7)
    } else if same(key, "F9") {
        Some(8)
    } else if same(key, "F10") {
        Some(9)
    } else if same(key, "F11") {
        Some(10)
    } else if same(key, "F12") {
        Some(11)
    } else if same(key, "SPACE") {
        Some(12)
    } else if same(key, "ENTER") || same(key, "RETURN") {
        Some(13)
    } else if same(key, "TAB") {
        Some(14)
    } else if same(key, "ESC") || same(key, "ESCAPE") {
        Some(15)
    } else {
        None
    }
}

/// Maps a key token in capital letters to its event code.
pub fn key_to_evdev(key: &str) -> (r: Option<u16>)
    ensures
        r == key_code(key@),
{
    let n = key.unicode_len();
    if n == 1 {
        let c = key.get_char(0);
        if 'A' <= c && c <= 'Z' {
            return Some(letter_code((c as u8 - 65) as usize));
        }
        if '0' <= c && c <= '9' {
            return Some(digit_code((c as u8 - 48) as usize));
        }
    }
    match find_named(key) {
        Some(i) => Some(named_code(i)),
        None => None,
    }
}

/// Modifiers, each standing for the left and the right key.
#[derive(Debug, Clone, Copy, PartialEq, Eq, Structural)]
pub enum Modifier {
    Ctrl,
    Alt,
    Shift,
    Logo,
}

/// The modifier that an event code stands for.
pub open spec fn modifier_key(code: u16) -> Option<Modifier> {
    if code == modifier_codes()[0] || code == modifier_codes()[1] {
        Some(Modifier::Ctrl)
    } else if code == modifier_codes()[2] || code == modifier_codes()[3] {
        Some(Modifier::Alt)
    } else if code == modifier_codes()[4] || code == modifier_codes()[5] {
        Some(Modifier::Shift)
    } else if code == modifier_codes()[6] || code == modifier_codes()[7] {
        Some(Modifier::Logo)
    } else {
        None
    }
}

/// The modifier that an event code stands for.
pub fn modifier_of_code(code: u16) -> (r: Option<Modifier>)
    ensures
        r == modifier_key(code),
{
    if code == modifier_code(0) || code == modifier_code(1) {
        Some(Modifier::Ctrl)
    } else if code == modifier_code(2) || code == modifier_code(3) {
        Some(Modifier::Alt)
    } else if code == modifier_code(4) || code == modifier_code(5) {
        Some(Modifier::Shift)
    } else if code == modifier_code(6) || code == modifier_code(7) {
        Some(Modifier::Logo)
    } else {
        None
    }
}

/// The side of the keyboard on which a modifier key is.
#[derive(Debug, Clone, Copy, PartialEq, Eq, Structural)]
pub enum Side {
    Left,
    Right,
}

/// The side of the modifier key with an event code.
pub open spec fn modifier_side(code: u16) -> Side {
    if code == modifier_codes()[1] || code == modifier_codes()[3] || code == modifier_codes()[5]
        || code == modifier_codes()[7] {
        Side::Right
    } else {
        Side::Left
    }
}

/// The side of the modifier key with an event code.
pub(crate) fn side_of_code(code: u16) -> (r: Side)
    requires
        modifier_key(code) is Some,
    ensures
        r == modifier_side(code),
{
    if code == modifier_code(1) || code == modifier_code(3) || code == modifier_code(5) || code
        == modifier_code(7) {
        Side::Right
    } else {
        Side::Left
    }
}

/// No key of an accelerator is a modifier key.
pub proof fn law_accelerator_keys_are_no_modifiers(key: Seq<char>)
    ensures
        key_code(key) is Some ==> modifier_key(key_code(key)->0) is None,
{
}

/// The letters of a row of the keyboard have codes one after the other, and so have the
/// digits from 1 on, with 0 behind 9.
pub proof fn law_keys_of_a_row(key: &str, r: Option<u16>, i: int)
    requires
        call_ensures(key_to_evdev, (key,), r),
        key@.len() == 1,
    ensures
        0 <= i < 10 && key@[0] == "QWERTYUIOP"@[i] ==> r is Some && r->0 == 16 + i,
        0 <= i < 9 && key@[0] == "ASDFGHJKL"@[i] ==> r is Some && r->0 == 30 + i,
        0 <= i < 7 && key@[0] == "ZXCVBNM"@[i] ==> r is Some && r->0 == 44 + i,
        '1' <= key@[0] <= '9' ==> r is Some && r->0 == 2 + (key@[0] as int - '1' as int),
        key@[0] == '0' ==> r == Some(11u16),
        r is Some <==> 'A' <= key@[0] <= 'Z' || '0' <= key@[0] <= '9',
{
    reveal_strlit("QWERTYUIOP");
    reveal_strlit("ASDFGHJKL");
    reveal_strlit("ZXCVBNM");
    lemma_names_are_longer();
}

proof fn lemma_names_are_longer()
    ensures
        forall|key: Seq<char>| key.len() == 1 ==> #[trigger] named_index(key) is None,
{
    reveal_strlit("F1");
    reveal_strlit("F2");
    reveal_strlit("F3");
    reveal_strlit("F4");
    reveal_strlit("F5");
    reveal_strlit("F6");
    reveal_strlit("F7");
    reveal_strlit("F8");
    reveal_strlit("F9");
    reveal_strlit("F10");
    reveal_strlit("F11");
    reveal_strlit("F12");
    reveal_strlit("SPACE");
    reveal_strlit("ENTER");
    reveal_strlit("RETURN");
    reveal_strlit("TAB");
    reveal_strlit("ESC");
    reveal_strlit("ESCAPE");
}

/// The function keys and the keys with a name have the codes of the Linux input event
/// interface, and a longer word that names no key has none.
pub proof fn law_keys_with_a_name(key: &str, r: Option<u16>)
    requires
        call_ensures(key_to_evdev, (key,), r),
        key@.len() > 1,
    ensures
        key@.len() == 2 && key@[0] == 'F' && '1' <= key@[1] <= '9' ==> r is Some && r->0 == 59 + (
        key@[1] as int - '1' as int),
        key@ == "F10"@ ==> r == Some(68u16),
        key@ == "F11"@ ==> r == Some(87u16),
        key@ == "F12"@ ==> r == Some(88u16),
        key@ == "SPACE"@ ==> r == Some(57u16),
        key@ == "ENTER"@ || key@ == "RETURN"@ ==> r == Some(28u16),
        key@ == "TAB"@ ==> r == Some(15u16),
        key@ == "ESC"@ || key@ == "ESCAPE"@ ==> r == Some(1u16),
        r is Some ==> (key@.len() == 2 && key@[0] == 'F' && '1' <= key@[1] <= '9') || key@ == "F10"@
            || key@ == "F11"@ || key@ == "F12"@ || key@ == "SPACE"@ || key@ == "ENTER"@ || key@
            == "RETURN"@ || key@ == "TAB"@ || key@ == "ESC"@ || key@ == "ESCAPE"@,
{
    reveal_strlit("F1");
    reveal_strlit("F2");
    reveal_strlit("F3");
    reveal_strlit("F4");
    reveal_strlit("F5");
    reveal_strlit("F6");
    reveal_strlit("F7");
    reveal_strlit("F8");
    reveal_strlit("F9");
    reveal_strlit("F10");
    reveal_strlit("F11");
    reveal_strlit("F12");
    reveal_strlit("SPACE");
    reveal_strlit("ENTER");
    reveal_strlit("RETURN");
    reveal_strlit("TAB");
    reveal_strlit("ESC");
    reveal_strlit("ESCAPE");
    let k = key@;
    assert("F1"@.len() == 2 && "F9"@.len() == 2);
    if k.len() == 2 && k[0] == 'F' && '1' <= k[1] <= '9' {
        let c = k[1];
        if c == '1' {
            assert(k =~= "F1"@);
        } else if c == '2' {
            assert(k =~= "F2"@);
        } else if c == '3' {
            assert(k =~= "F3"@);
        } else if c == '4' {
            assert(k =~= "F4"@);
        } else if c == '5' {
            assert(k =~= "F5"@);
        } else if c == '6' {
            assert(k =~= "F6"@);
        } else if c == '7' {
            assert(k =~= "F7"@);
        } else if c == '8' {
            assert(k =~= "F8"@);
        } else {
            assert(k =~= "F9"@);
        }
    }
    if k == "F10"@ {
        assert(k[2] == '0');
    }
    if k == "F11"@ {
        assert(k[2] == '1');
    }
    if k == "F12"@ {
        assert(k[2] == '2');
    }
    if k == "TAB"@ {
        assert(k[0] == 'T');
    }
    if k == "ESC"@ {
        assert(k[0] == 'E');
    }
    if k == "SPACE"@ {
        assert(k[0] == 'S');
    }
    if k == "ENTER"@ {
        assert(k[0] == 'E' && k[1] == 'N');
    }
    if k == "RETURN"@ {
        assert(k[0] == 'R');
    }
    if k == "ESCAPE"@ {
        assert(k[0] == 'E' && k[1] == 'S');
    }
}

/// Each modifier has two keys, and no other key is one.
pub proof fn law_modifier_codes(code: u16, r: Option<Modifier>)
    requires
        call_ensures(modifier_of_code, (code,), r),
    ensures
        r == Some(Modifier::Ctrl) <==> code == 29 || code == 97,
        r == Some(Modifier::Alt) <==> code == 56 || code == 100,
        r == Some(Modifier::Shift) <==> code == 42 || code == 54,
        r == Some(Modifier::Logo) <==> code == 125 || code == 126,
{
}

/// A device is a keyboard exactly where it has the keys A and Z.
pub proof fn law_keyboards_have_letters(
    keys: Option<&evdev::AttributeSetRef<evdev::Key>>,
    r: bool,
    a: Option<u16>,
    z: Option<u16>,
    first: &str,
    last: &str,
)
    requires
        call_ensures(is_keyboard, (keys,), r),
        first@ == seq!['A'],
        last@ == seq!['Z'],
        call_ensures(key_to_evdev, (first,), a),
        call_ensures(key_to_evdev, (last,), z),
    ensures
        keys is None ==> !r,
        keys matches Some(set) ==> (r <==> key_set(set).contains(a->0) && key_set(set).contains(
            z->0,
        )),
{
}

} // verus!
