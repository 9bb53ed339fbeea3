//! The keyboard layout: which key of the host stands for which key of the
//! hexadecimal keypad.

use vstd::prelude::*;
use crate::machine::NUM_KEYS;

verus! {

/// The keypad key for the character that a key of the host produces
/// unshifted. The four rows `1234`, `qwer`, `asdf`, `zxcv` stand for the
/// keypad rows `123C`, `456D`, `789E`, `A0BF`; no other character stands for
/// a key.
pub open spec fn key_index(key: char) -> Option<usize> {
    match key {
        '1' => Some(0x1usize),
        '2' => Some(0x2usize),
        '3' => Some(0x3usize),
        '4' => Some(0xCusize),
        'q' => Some(0x4usize),
        'w' => Some(0x5usize),
        'e' => Some(0x6usize),
        'r' => Some(0xDusize),
        'a' => Some(0x7usize),
        's' => Some(0x8usize),
        'd' => Some(0x9usize),
        'f' => Some(0xEusize),
        'z' => Some(0xAusize),
        'x' => Some(0x0usize),
        'c' => Some(0xBusize),
        'v' => Some(0xFusize),
        _ => None,
    }
}

/// The keypad key for a character of the host keyboard, if it stands for one.
pub fn convert_keycode(key: char) -> (index: Option<usize>)
    ensures
        index == key_index(key),
        index matches Some(k) ==> k < NUM_KEYS,
{
    match key {
        '1' => Some(0x1),
        '2' => Some(0x2),
        '3' => Some(0x3),
        '4' => Some(0xC),
        'q' => Some(0x4),
        'w' => Some(0x5),
        'e' => Some(0x6),
        'r' => Some(0xD),
        'a' => Some(0x7),
        's' => Some(0x8),
        'd' => Some(0x9),
        'f' => Some(0xE),
        'z' => Some(0xA),
        'x' => Some(0x0),
        'c' => Some(0xB),
        'v' => Some(0xF),
        _ => None,
    }
}

/// The character of the host keyboard that stands for keypad key `index`.
pub open spec fn key_char(index: usize) -> char {
    if index == 0x0 {
        'x'
    } else if index == 0x1 {
        '1'
    } else if index == 0x2 {
        '2'
    } else if index == 0x3 {
        '3'
    } else if index == 0x4 {
        'q'
    } else if index == 0x5 {
        'w'
    } else if index == 0x6 {
        'e'
    } else if index == 0x7 {
        'a'
    } else if index == 0x8 {
        's'
    } else if index == 0x9 {
        'd'
    } else if index == 0xA {
        'z'
    } else if index == 0xB {
        'c'
    } else if index == 0xC {
        '4'
    } else if index == 0xD {
        'r'
    } else if index == 0xE {
        'f'
    } else {
        'v'
    }
}

/// The layout reaches every key of the keypad, and no two characters stand
/// for the same key.
pub proof fn lemma_layout_is_one_to_one()
    ensures
        forall|k: usize| k < NUM_KEYS ==> key_index(#[trigger] key_char(k)) == Some(k),
        forall|key: char| #[trigger]
            key_index(key) is Some ==> key_char(key_index(key)->Some_0) == key,
{
}

} // verus!
