use clickless::keycode::vk_to_logical;
use clickless::keys::LogicalKey;


#[test]
fn scancode_t01_capslock_translates() {
    assert_eq!(vk_to_logical(0x14), Some(LogicalKey::CapsLock));
}

#[test]
fn scancode_t02_hjkl_translates() {
    assert_eq!(vk_to_logical(0x48), Some(LogicalKey::H));
    assert_eq!(vk_to_logical(0x4A), Some(LogicalKey::J));
    assert_eq!(vk_to_logical(0x4B), Some(LogicalKey::K));
    assert_eq!(vk_to_logical(0x4C), Some(LogicalKey::L));
}

#[test]
fn scancode_t03_uo_translates() {
    assert_eq!(vk_to_logical(0x55), Some(LogicalKey::U));
    assert_eq!(vk_to_logical(0x4F), Some(LogicalKey::O));
}

#[test]
fn scancode_t04_fd_translates() {
    assert_eq!(vk_to_logical(0x46), Some(LogicalKey::F));
    assert_eq!(vk_to_logical(0x44), Some(LogicalKey::D));
}

#[test]
fn scancode_t05_ws_translates() {
    assert_eq!(vk_to_logical(0x57), Some(LogicalKey::W));
    assert_eq!(vk_to_logical(0x53), Some(LogicalKey::S));
}

#[test]
fn scancode_t06_esc_translates() {
    assert_eq!(vk_to_logical(0x1B), Some(LogicalKey::Esc));
}

#[test]
fn scancode_t07_unmapped_returns_none() {
    assert_eq!(vk_to_logical(0x0D), None); // VK_RETURN
    assert_eq!(vk_to_logical(0x41), Some(LogicalKey::A)); // VK_A
    assert_eq!(vk_to_logical(0x09), None); // VK_TAB
}

#[test]
fn t08_modifier_vks_are_unmapped() {
    assert_eq!(vk_to_logical(0x10), None); // VK_SHIFT
    assert_eq!(vk_to_logical(0x11), None); // VK_CONTROL
    assert_eq!(vk_to_logical(0x12), None); // VK_MENU (Alt)
    assert_eq!(vk_to_logical(0x5B), None); // VK_LWIN
}

#[test]
fn left_shift_and_left_ctrl_reach_the_engine() {
    assert_eq!(vk_to_logical(0xA0), Some(LogicalKey::ShiftLeft)); // VK_LSHIFT
    assert_eq!(vk_to_logical(0xA2), Some(LogicalKey::ControlLeft)); // VK_LCONTROL
    assert_eq!(vk_to_logical(0xA1), None); // VK_RSHIFT
    assert_eq!(vk_to_logical(0xA3), None); // VK_RCONTROL
}
