//! Platform key codes to logical keys: Linux evdev codes, macOS virtual
//! key codes and Windows virtual-key codes.
use vstd::prelude::*;
use crate::keys::LogicalKey;

verus! {

/// Logical key of a Linux evdev key code.
pub open spec fn evdev_key(code: u16) -> Option<LogicalKey> {
    match code {
        58 => Some(LogicalKey::CapsLock),
        35 => Some(LogicalKey::H),
        36 => Some(LogicalKey::J),
        37 => Some(LogicalKey::K),
        38 => Some(LogicalKey::L),
        22 => Some(LogicalKey::U),
        23 => Some(LogicalKey::I),
        24 => Some(LogicalKey::O),
        33 => Some(LogicalKey::F),
        32 => Some(LogicalKey::D),
        17 => Some(LogicalKey::W),
        31 => Some(LogicalKey::S),
        50 => Some(LogicalKey::M),
        51 => Some(LogicalKey::Comma),
        52 => Some(LogicalKey::Dot),
        57 => Some(LogicalKey::Space),
        1 => Some(LogicalKey::Esc),
        _ => None,
    }
}

pub fn evdev_to_logical(code: u16) -> (k: Option<LogicalKey>)
    ensures
        k == evdev_key(code),
{
    match code {
        58 => Some(LogicalKey::CapsLock),
        35 => Some(LogicalKey::H),
        36 => Some(LogicalKey::J),
        37 => Some(LogicalKey::K),
        38 => Some(LogicalKey::L),
        22 => Some(LogicalKey::U),
        23 => Some(LogicalKey::I),
        24 => Some(LogicalKey::O),
        33 => Some(LogicalKey::F),
        32 => Some(LogicalKey::D),
        17 => Some(LogicalKey::W),
        31 => Some(LogicalKey::S),
        50 => Some(LogicalKey::M),
        51 => Some(LogicalKey::Comma),
        52 => Some(LogicalKey::Dot),
        57 => Some(LogicalKey::Space),
        1 => Some(LogicalKey::Esc),
        _ => None,
    }
}

/// Logical key of a macOS virtual key code.
pub open spec fn cg_key(code: u16) -> Option<LogicalKey> {
    match code {
        0x39 => Some(LogicalKey::CapsLock),
        0x38 => Some(LogicalKey::ShiftLeft),
        0x3B => Some(LogicalKey::ControlLeft),
        0x04 => Some(LogicalKey::H),
        0x26 => Some(LogicalKey::J),
        0x28 => Some(LogicalKey::K),
        0x25 => Some(LogicalKey::L),
        0x20 => Some(LogicalKey::U),
        0x22 => Some(LogicalKey::I),
        0x1F => Some(LogicalKey::O),
        0x03 => Some(LogicalKey::F),
        0x02 => Some(LogicalKey::D),
        0x0D => Some(LogicalKey::W),
        0x01 => Some(LogicalKey::S),
        0x2E => Some(LogicalKey::M),
        0x2B => Some(LogicalKey::Comma),
        0x2F => Some(LogicalKey::Dot),
        0x31 => Some(LogicalKey::Space),
        0x35 => Some(LogicalKey::Esc),
        0x00 => Some(LogicalKey::A),
        0x0B => Some(LogicalKey::B),
        0x08 => Some(LogicalKey::C),
        0x0E => Some(LogicalKey::E),
        0x05 => Some(LogicalKey::G),
        0x2D => Some(LogicalKey::N),
        0x23 => Some(LogicalKey::P),
        0x0C => Some(LogicalKey::Q),
        0x0F => Some(LogicalKey::R),
        0x11 => Some(LogicalKey::T),
        0x09 => Some(LogicalKey::V),
        0x07 => Some(LogicalKey::X),
        0x10 => Some(LogicalKey::Y),
        0x06 => Some(LogicalKey::Z),
        0x29 => Some(LogicalKey::Semicolon),
        0x2C => Some(LogicalKey::Slash),
        0x33 => Some(LogicalKey::Backspace),
        _ => None,
    }
}

pub fn cg_to_logical(code: u16) -> (k: Option<LogicalKey>)
    ensures
        k == cg_key(code),
{
    match code {
        0x39 => Some(LogicalKey::CapsLock),
        0x38 => Some(LogicalKey::ShiftLeft),
        0x3B => Some(LogicalKey::ControlLeft),
        0x04 => Some(LogicalKey::H),
        0x26 => Some(LogicalKey::J),
        0x28 => Some(LogicalKey::K),
        0x25 => Some(LogicalKey::L),
        0x20 => Some(LogicalKey::U),
        0x22 => Some(LogicalKey::I),
        0x1F => Some(LogicalKey::O),
        0x03 => Some(LogicalKey::F),
        0x02 => Some(LogicalKey::D),
        0x0D => Some(LogicalKey::W),
        0x01 => Some(LogicalKey::S),
        0x2E => Some(LogicalKey::M),
        0x2B => Some(LogicalKey::Comma),
        0x2F => Some(LogicalKey::Dot),
        0x31 => Some(LogicalKey::Space),
        0x35 => Some(LogicalKey::Esc),
        0x00 => Some(LogicalKey::A),
        0x0B => Some(LogicalKey::B),
        0x08 => Some(LogicalKey::C),
        0x0E => Some(LogicalKey::E),
        0x05 => Some(LogicalKey::G),
        0x2D => Some(LogicalKey::N),
        0x23 => Some(LogicalKey::P),
        0x0C => Some(LogicalKey::Q),
        0x0F => Some(LogicalKey::R),
        0x11 => Some(LogicalKey::T),
        0x09 => Some(LogicalKey::V),
        0x07 => Some(LogicalKey::X),
        0x10 => Some(LogicalKey::Y),
        0x06 => Some(LogicalKey::Z),
        0x29 => Some(LogicalKey::Semicolon),
        0x2C => Some(LogicalKey::Slash),
        0x33 => Some(LogicalKey::Backspace),
        _ => None,
    }
}

/// Logical key of a Windows virtual-key code.
pub open spec fn vk_key(code: u32) -> Option<LogicalKey> {
    match code {
        0x14 => Some(LogicalKey::CapsLock),
        0x48 => Some(LogicalKey::H),
        0x4A => Some(LogicalKey::J),
        0x4B => Some(LogicalKey::K),
        0x4C => Some(LogicalKey::L),
        0x55 => Some(LogicalKey::U),
        0x49 => Some(LogicalKey::I),
        0x4F => Some(LogicalKey::O),
        0x46 => Some(LogicalKey::F),
        0x44 => Some(LogicalKey::D),
        0x57 => Some(LogicalKey::W),
        0x53 => Some(LogicalKey::S),
        0x4D => Some(LogicalKey::M),
        0xBC => Some(LogicalKey::Comma),
        0xBE => Some(LogicalKey::Dot),
        0x20 => Some(LogicalKey::Space),
        0x1B => Some(LogicalKey::Esc),
        0x41 => Some(LogicalKey::A),
        0x42 => Some(LogicalKey::B),
        0x43 => Some(LogicalKey::C),
        0x45 => Some(LogicalKey::E),
        0x47 => Some(LogicalKey::G),
        0x4E => Some(LogicalKey::N),
        0x50 => Some(LogicalKey::P),
        0x51 => Some(LogicalKey::Q),
        0x52 => Some(LogicalKey::R),
        0x54 => Some(LogicalKey::T),
        0x56 => Some(LogicalKey::V),
        0x58 => Some(LogicalKey::X),
        0x59 => Some(LogicalKey::Y),
        0x5A => Some(LogicalKey::Z),
        0xBA => Some(LogicalKey::Semicolon),
        0xBF => Some(LogicalKey::Slash),
        0x08 => Some(LogicalKey::Backspace),
        0xA0 => Some(LogicalKey::ShiftLeft),
        0xA2 => Some(LogicalKey::ControlLeft),
        _ => None,
    }
}

pub fn vk_to_logical(code: u32) -> (k: Option<LogicalKey>)
    ensures
        k == vk_key(code),
{
    match code {
        0x14 => Some(LogicalKey::CapsLock),
        0x48 => Some(LogicalKey::H),
        0x4A => Some(LogicalKey::J),
        0x4B => Some(LogicalKey::K),
        0x4C => Some(LogicalKey::L),
        0x55 => Some(LogicalKey::U),
        0x49 => Some(LogicalKey::I),
        0x4F => Some(LogicalKey::O),
        0x46 => Some(LogicalKey::F),
        0x44 => Some(LogicalKey::D),
        0x57 => Some(LogicalKey::W),
        0x53 => Some(LogicalKey::S),
        0x4D => Some(LogicalKey::M),
        0xBC => Some(LogicalKey::Comma),
        0xBE => Some(LogicalKey::Dot),
        0x20 => Some(LogicalKey::Space),
        0x1B => Some(LogicalKey::Esc),
        0x41 => Some(LogicalKey::A),
        0x42 => Some(LogicalKey::B),
        0x43 => Some(LogicalKey::C),
        0x45 => Some(LogicalKey::E),
        0x47 => Some(LogicalKey::G),
        0x4E => Some(LogicalKey::N),
        0x50 => Some(LogicalKey::P),
        0x51 => Some(LogicalKey::Q),
        0x52 => Some(LogicalKey::R),
        0x54 => Some(LogicalKey::T),
        0x56 => Some(LogicalKey::V),
        0x58 => Some(LogicalKey::X),
        0x59 => Some(LogicalKey::Y),
        0x5A => Some(LogicalKey::Z),
        0xBA => Some(LogicalKey::Semicolon),
        0xBF => Some(LogicalKey::Slash),
        0x08 => Some(LogicalKey::Backspace),
        0xA0 => Some(LogicalKey::ShiftLeft),
        0xA2 => Some(LogicalKey::ControlLeft),
        _ => None,
    }
}


/// A Windows letter key's code is the ASCII code of its upper-case letter:
/// every letter code that has a logical key gives the key named by that
/// letter.
pub proof fn law_vk_letters_are_their_ascii_codes(code: u32)
    requires
        0x41 <= code <= 0x5A,
        vk_key(code) is Some,
    ensures
        vk_key(code)->0.name() == seq![((code + 32) as u32) as char],
{
}

/// No two Windows key codes read as the same logical key.
pub proof fn law_vk_codes_are_told_apart(a: u32, b: u32)
    requires
        vk_key(a) is Some,
        vk_key(a) == vk_key(b),
    ensures
        a == b,
{
}

/// No two evdev key codes read as the same logical key.
pub proof fn law_evdev_codes_are_told_apart(a: u16, b: u16)
    requires
        evdev_key(a) is Some,
        evdev_key(a) == evdev_key(b),
    ensures
        a == b,
{
}

/// No two macOS key codes read as the same logical key.
pub proof fn law_cg_codes_are_told_apart(a: u16, b: u16)
    requires
        cg_key(a) is Some,
        cg_key(a) == cg_key(b),
    ensures
        a == b,
{
}


/// Linux key codes run along the keyboard's letter rows: a mapped code in
/// the top row (16 to 25) gives the key at that place in the QWERTY bank,
/// and a mapped code in the home row (30 to 38) the home-row key at that
/// place.
pub proof fn law_evdev_codes_follow_the_rows(code: u16)
    requires
        evdev_key(code) is Some,
    ensures
        16 <= code <= 25 ==> evdev_key(code)->0 == crate::grid::qwerty_keys()[code - 16],
        30 <= code <= 38 ==> evdev_key(code)->0 == crate::grid::home_row_keys()[code - 30],
        44 <= code <= 50 ==> evdev_key(code)->0 == crate::grid::qwerty_keys()[code - 24],
{
}

} // verus!
